//! The triangle renderer: its vertex data, the layout of that data, and the
//! bundle that uploads the animation parameter and issues the draw.

use vstd::prelude::*;
use crate::animation::Angle;
use crate::words::{
    device_bytes,
    le_bytes,
    le_words,
    lemma_written_word_reads_back,
    read_word,
    with_word,
    word_of,
};

verus! {

/// The bit pattern of the single-precision number 0.5.
pub const HALF: u32 = 0x3f00_0000;

/// The bit pattern of the single-precision number -0.5.
pub const MINUS_HALF: u32 = 0xbf00_0000;

/// The bit pattern of the single-precision number 1.0.
pub const ONE: u32 = 0x3f80_0000;

/// The number of bytes of the device buffer: three vertices of six words.
pub const BUFFER_SIZE: usize = 72;

/// The identity under which the triangle renderer is installed.
pub const RENDERER_ID: u64 = 1;

/// A corner of the triangle: a position and a colour, each three
/// single-precision numbers, kept as their bit patterns.
#[derive(Clone, Copy, Debug, PartialEq, Eq)]
pub struct Vertex {
    pub position: [u32; 3],
    pub color: [u32; 3],
}

/// The type of one vertex attribute: one to four single-precision numbers.
#[derive(Clone, Copy, Debug, PartialEq, Eq, Structural)]
pub enum VertexFormat {
    Float32,
    Float32x2,
    Float32x3,
    Float32x4,
}

/// Whether the buffer advances once for each vertex or for each instance.
#[derive(Clone, Copy, Debug, PartialEq, Eq, Structural)]
pub enum VertexStepMode {
    Vertex,
    Instance,
}

/// One input of the vertex stage: where it starts inside a vertex, what it
/// holds and the shader location it feeds.
#[derive(Clone, Copy, Debug, PartialEq, Eq, Structural)]
pub struct VertexAttribute {
    pub format: VertexFormat,
    pub offset: u64,
    pub shader_location: u32,
}

/// How the vertex stage reads a vertex buffer.
#[derive(Debug, PartialEq, Eq)]
pub struct VertexBufferLayout {
    pub array_stride: u64,
    pub step_mode: VertexStepMode,
    pub attributes: Vec<VertexAttribute>,
}

/// A command for the render pass.
#[derive(Clone, Copy, Debug, PartialEq, Eq, Structural)]
pub enum DrawCommand {
    SetPipeline,
    SetBindGroup { index: u32 },
    SetVertexBuffer { slot: u32 },
    Draw { first_vertex: u32, vertex_count: u32, first_instance: u32, instance_count: u32 },
}

/// A write of `data` into the bundle's buffer, `offset` bytes from its
/// start, for the queue to carry out.
#[derive(Debug, PartialEq, Eq)]
pub struct BufferWrite {
    pub offset: u64,
    pub data: Vec<u8>,
}

/// The shader stage that sees a binding.
#[derive(Clone, Copy, Debug, PartialEq, Eq, Structural)]
pub enum ShaderStage {
    Vertex,
    Fragment,
}

/// The one binding of the bundle's bind group: a uniform buffer.
#[derive(Clone, Copy, Debug, PartialEq, Eq, Structural)]
pub struct UniformBinding {
    pub binding: u32,
    pub visibility: ShaderStage,
    pub has_dynamic_offset: bool,
}

/// What the device buffer may be used for.
#[derive(Clone, Copy, Debug, PartialEq, Eq, Structural)]
pub struct BufferUsages {
    pub copy_dst: bool,
    pub vertex: bool,
    pub uniform: bool,
}

/// What the device is asked to build for the bundle.
#[derive(Debug, PartialEq, Eq)]
pub struct BundleDescriptor {
    pub vertex_entry: String,
    pub fragment_entry: String,
    pub vertex_layout: VertexBufferLayout,
    pub uniform: UniformBinding,
    pub buffer_usage: BufferUsages,
    pub buffer_contents: Vec<u8>,
}

impl VertexFormat {
    /// The number of bytes of the attribute.
    pub open spec fn size(self) -> nat {
        match self {
            VertexFormat::Float32 => 4,
            VertexFormat::Float32x2 => 8,
            VertexFormat::Float32x3 => 12,
            VertexFormat::Float32x4 => 16,
        }
    }

    pub fn byte_size(self) -> (res: u64)
        ensures
            res == self.size(),
    {
        match self {
            VertexFormat::Float32 => 4,
            VertexFormat::Float32x2 => 8,
            VertexFormat::Float32x3 => 12,
            VertexFormat::Float32x4 => 16,
        }
    }
}

impl VertexBufferLayout {
    /// The attributes follow one another without a gap, from the start of
    /// the vertex to its end, and feed the shader locations in order.
    pub open spec fn tightly_packed(self) -> bool {
        let a = self.attributes@;
        &&& forall|i: int| 0 <= i < a.len() ==> #[trigger] a[i].shader_location == i
        &&& forall|i: int|
            0 <= i < a.len() ==> #[trigger] a[i].offset == (if i == 0 {
                0
            } else {
                a[i - 1].offset + a[i - 1].format.size()
            })
        &&& self.array_stride == (if a.len() == 0 {
            0
        } else {
            a.last().offset + a.last().format.size()
        })
    }
}

/// The six words of a vertex in the order of the buffer: position, colour.
pub open spec fn vertex_words(v: Vertex) -> Seq<u32> {
    v.position@ + v.color@
}

/// The words of a run of vertices, vertex after vertex.
pub open spec fn flatten(vertices: Seq<Vertex>) -> Seq<u32>
    decreases vertices.len(),
{
    if vertices.len() == 0 {
        Seq::empty()
    } else {
        flatten(vertices.drop_last()) + vertex_words(vertices.last())
    }
}

/// The words of the triangle: the top corner in red, the lower left in
/// green, the lower right in blue.
pub open spec fn triangle_words() -> Seq<u32> {
    seq![
        0, HALF, 0, ONE, 0, 0,
        MINUS_HALF, MINUS_HALF, 0, 0, ONE, 0,
        HALF, MINUS_HALF, 0, 0, 0, ONE,
    ]
}

/// The commands that draw the triangle.
pub open spec fn triangle_draw() -> Seq<DrawCommand> {
    seq![
        DrawCommand::SetPipeline,
        DrawCommand::SetBindGroup { index: 0 },
        DrawCommand::SetVertexBuffer { slot: 0 },
        DrawCommand::Draw { first_vertex: 0, vertex_count: 3, first_instance: 0, instance_count: 1 },
    ]
}

impl Vertex {
    /// The layout of a buffer of vertices: two attributes of three numbers,
    /// the position at location 0 and the colour at location 1, packed
    /// into a stride of 24 bytes, one vertex for each step.
    pub fn desc() -> (layout: VertexBufferLayout)
        ensures
            layout.array_stride == 24,
            layout.step_mode == VertexStepMode::Vertex,
            layout.attributes@ == seq![
                VertexAttribute { format: VertexFormat::Float32x3, offset: 0, shader_location: 0 },
                VertexAttribute { format: VertexFormat::Float32x3, offset: 12, shader_location: 1 },
            ],
            layout.tightly_packed(),
    {
        let mut attributes: Vec<VertexAttribute> = Vec::new();
        let first: VertexFormat = VertexFormat::Float32x3;
        let second: VertexFormat = VertexFormat::Float32x3;
        attributes.push(VertexAttribute { format: first, offset: 0, shader_location: 0 });
        attributes.push(
            VertexAttribute { format: second, offset: first.byte_size(), shader_location: 1 },
        );
        let array_stride: u64 = first.byte_size() + second.byte_size();
        VertexBufferLayout { array_stride, step_mode: VertexStepMode::Vertex, attributes }
    }
}

/// The three corners of the triangle.
pub fn vertices() -> (res: Vec<Vertex>)
    ensures
        res@.len() == 3,
        flatten(res@) == triangle_words(),
{
    let top = Vertex { position: [0, HALF, 0], color: [ONE, 0, 0] };
    let left = Vertex { position: [MINUS_HALF, MINUS_HALF, 0], color: [0, ONE, 0] };
    let right = Vertex { position: [HALF, MINUS_HALF, 0], color: [0, 0, ONE] };
    let mut res: Vec<Vertex> = Vec::new();
    res.push(top);
    res.push(left);
    res.push(right);
    proof {
        let s = res@;
        assert(s.drop_last().drop_last().drop_last().len() == 0);
        assert(flatten(s.drop_last().drop_last().drop_last()) =~= Seq::<u32>::empty());
        assert(s.drop_last().drop_last().last() == top);
        assert(s.drop_last().last() == left);
        assert(s.last() == right);
        assert(flatten(s.drop_last().drop_last()) =~= vertex_words(top));
        assert(flatten(s.drop_last()) =~= vertex_words(top) + vertex_words(left));
        assert(flatten(s) =~= vertex_words(top) + vertex_words(left) + vertex_words(right));
        assert(flatten(s) =~= triangle_words());
    }
    res
}

/// The words of `vertices` in the order of the buffer.
pub fn words_of(vertices: &Vec<Vertex>) -> (words: Vec<u32>)
    ensures
        words@ == flatten(vertices@),
{
    let mut words: Vec<u32> = Vec::new();
    let mut i: usize = 0;
    while i < vertices.len()
        invariant
            i <= vertices@.len(),
            words@ == flatten(vertices@.take(i as int)),
        decreases vertices@.len() - i,
    {
        let v: Vertex = vertices[i];
        let ghost before = words@;
        words.push(v.position[0]);
        words.push(v.position[1]);
        words.push(v.position[2]);
        words.push(v.color[0]);
        words.push(v.color[1]);
        words.push(v.color[2]);
        proof {
            assert(vertices@.take(i + 1).drop_last() =~= vertices@.take(i as int));
            assert(vertices@.take(i + 1).last() == v);
            assert(words@ =~= before + vertex_words(v));
        }
        i += 1;
    }
    assert(vertices@.take(i as int) =~= vertices@);
    words
}

/// The bundle of the triangle renderer, as far as the core decides it: the
/// contents of its device buffer. The buffer holds the vertices and, in its
/// first four bytes, the animation parameter.
#[derive(Debug, PartialEq, Eq)]
pub struct CloudyRenderer {
    buffer: Vec<u8>,
}

impl View for CloudyRenderer {
    type V = Seq<u8>;

    closed spec fn view(&self) -> Seq<u8> {
        self.buffer@
    }
}

impl CloudyRenderer {
    #[verifier::type_invariant]
    spec fn sized(self) -> bool {
        self.buffer@.len() == BUFFER_SIZE
    }

    /// The animation parameter that the buffer holds.
    pub open spec fn parameter(self) -> Angle {
        Angle::of_word(word_of(self@.subrange(0, 4)))
    }

    /// A bundle whose buffer holds the triangle.
    pub fn new() -> (res: CloudyRenderer)
        ensures
            res@ == le_words(triangle_words()),
    {
        let corners: Vec<Vertex> = vertices();
        let words: Vec<u32> = words_of(&corners);
        let buffer: Vec<u8> = device_bytes(words.as_slice());
        CloudyRenderer { buffer }
    }

    /// What the device has to build before the bundle can be installed:
    /// a pipeline from the entry points `vs_main` and `fs_main` that reads
    /// vertices in the layout of `Vertex::desc`, a bind group whose binding
    /// 0 shows the buffer to the vertex stage as a uniform, and the buffer
    /// itself, filled with the triangle and open to copies, vertex fetches
    /// and uniform reads.
    pub fn descriptor() -> (res: BundleDescriptor)
        ensures
            res.vertex_entry@ == "vs_main"@,
            res.fragment_entry@ == "fs_main"@,
            res.vertex_layout.array_stride == 24,
            res.vertex_layout.step_mode == VertexStepMode::Vertex,
            res.vertex_layout.attributes@ == seq![
                VertexAttribute { format: VertexFormat::Float32x3, offset: 0, shader_location: 0 },
                VertexAttribute { format: VertexFormat::Float32x3, offset: 12, shader_location: 1 },
            ],
            res.uniform == (UniformBinding {
                binding: 0,
                visibility: ShaderStage::Vertex,
                has_dynamic_offset: false,
            }),
            res.buffer_usage == (BufferUsages { copy_dst: true, vertex: true, uniform: true }),
            res.buffer_contents@ == le_words(triangle_words()),
    {
        let corners: Vec<Vertex> = vertices();
        let words: Vec<u32> = words_of(&corners);
        BundleDescriptor {
            vertex_entry: "vs_main".to_owned(),
            fragment_entry: "fs_main".to_owned(),
            vertex_layout: Vertex::desc(),
            uniform: UniformBinding {
                binding: 0,
                visibility: ShaderStage::Vertex,
                has_dynamic_offset: false,
            },
            buffer_usage: BufferUsages { copy_dst: true, vertex: true, uniform: true },
            buffer_contents: device_bytes(words.as_slice()),
        }
    }

    /// The contents of the buffer.
    pub fn contents(&self) -> (res: &Vec<u8>)
        ensures
            res@ == self@,
            res@.len() == BUFFER_SIZE,
    {
        proof {
            use_type_invariant(self);
        }
        &self.buffer
    }

    /// Stores `angle` at the start of the buffer and returns the write that
    /// brings the device's copy up to date. Nothing else in the buffer
    /// changes, and the angle is what `uniform` reads back afterwards.
    pub fn prepare(&mut self, angle: Angle) -> (write: BufferWrite)
        ensures
            old(self)@.len() == BUFFER_SIZE,
            final(self)@ == with_word(old(self)@, 0, angle.word()),
            final(self).parameter() == angle,
            write.offset == 0,
            write.data@ == le_bytes(angle.word()),
    {
        proof {
            use_type_invariant(&*self);
        }
        let word: u32 = angle.to_word();
        let mut words: Vec<u32> = Vec::new();
        words.push(word);
        let data: Vec<u8> = device_bytes(words.as_slice());
        assert(data@ =~= le_bytes(word));
        let mut i: usize = 0;
        while i < 4
            invariant
                i <= 4,
                data@ == le_bytes(word),
                self.buffer@.len() == old(self).buffer@.len(),
                self.buffer@.len() == BUFFER_SIZE,
                forall|j: int| 0 <= j < i ==> self.buffer@[j] == data@[j],
                forall|j: int| i <= j < self.buffer@.len() ==> self.buffer@[j] == old(self).buffer@[j],
            decreases 4 - i,
        {
            self.buffer[i] = data[i];
            i += 1;
        }
        proof {
            assert(self.buffer@ =~= with_word(old(self).buffer@, 0, word));
            lemma_written_word_reads_back(old(self).buffer@, 0, word);
            crate::animation::lemma_angle_word_round_trip(angle);
        }
        BufferWrite { offset: 0, data }
    }

    /// Reads the animation parameter back from the buffer.
    pub fn uniform(&self) -> (angle: Angle)
        ensures
            angle == self.parameter(),
    {
        proof {
            use_type_invariant(self);
        }
        Angle::from_word(read_word(&self.buffer, 0))
    }

    /// The commands that draw the bundle: bind the pipeline, the bind group
    /// and the vertex buffer, then draw three vertices once.
    pub fn paint(&self) -> (commands: Vec<DrawCommand>)
        ensures
            commands@ == triangle_draw(),
    {
        let mut commands: Vec<DrawCommand> = Vec::new();
        commands.push(DrawCommand::SetPipeline);
        commands.push(DrawCommand::SetBindGroup { index: 0 });
        commands.push(DrawCommand::SetVertexBuffer { slot: 0 });
        commands.push(
            DrawCommand::Draw { first_vertex: 0, vertex_count: 3, first_instance: 0, instance_count: 1 },
        );
        assert(commands@ =~= triangle_draw());
        commands
    }
}


/// An animation parameter written at the start of a buffer is the one read
/// back from it, whatever the buffer held before.
pub proof fn lemma_uniform_round_trip(buffer: Seq<u8>, angle: Angle)
    requires
        buffer.len() >= 4,
    ensures
        Angle::of_word(word_of(with_word(buffer, 0, angle.word()).subrange(0, 4))) == angle,
{
    lemma_written_word_reads_back(buffer, 0, angle.word());
    crate::animation::lemma_angle_word_round_trip(angle);
}

} // verus!
