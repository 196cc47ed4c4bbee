use rain_editor::animation::Angle;
use rain_editor::callback::{run_frame, CallbackPhase, EditorTabCallback, FrameEvent};
use rain_editor::error::LookupError;
use rain_editor::registry::Registry;
use rain_editor::renderer::{BufferWrite, CloudyRenderer, DrawCommand, RENDERER_ID};

fn triangle_draw() -> Vec<DrawCommand> {
    vec![
        DrawCommand::SetPipeline,
        DrawCommand::SetBindGroup { index: 0 },
        DrawCommand::SetVertexBuffer { slot: 0 },
        DrawCommand::Draw { first_vertex: 0, vertex_count: 3, first_instance: 0, instance_count: 1 },
    ]
}

fn installed() -> Registry<CloudyRenderer> {
    let mut registry = Registry::new();
    assert!(registry.install(RENDERER_ID, CloudyRenderer::new()));
    registry
}

#[test]
fn lookup_before_install_fails() {
    let registry: Registry<CloudyRenderer> = Registry::new();
    assert_eq!(registry.len(), 0);
    assert_eq!(registry.get(RENDERER_ID), Err(LookupError::NotInstalled));
}

#[test]
fn install_twice_leaves_one_entry() {
    let mut registry: Registry<u32> = Registry::new();
    assert!(registry.install(7, 100));
    assert_eq!(registry.len(), 1);
    assert!(!registry.install(7, 200));
    assert_eq!(registry.len(), 1);
    assert_eq!(registry.get(7), Ok(&100));
}

#[test]
fn install_keeps_identities_apart() {
    let mut registry: Registry<&str> = Registry::new();
    assert!(registry.install(1, "one"));
    assert!(registry.install(2, "two"));
    assert_eq!(registry.len(), 2);
    assert_eq!(registry.get(1), Ok(&"one"));
    assert_eq!(registry.get(2), Ok(&"two"));
    assert_eq!(registry.get(3), Err(LookupError::NotInstalled));
}

#[test]
fn take_frees_the_slot() {
    let mut registry: Registry<u8> = Registry::new();
    assert_eq!(registry.take(1), Err(LookupError::NotInstalled));
    registry.install(1, 9);
    assert_eq!(registry.take(1), Ok(9));
    assert_eq!(registry.len(), 0);
    assert_eq!(registry.get(1), Err(LookupError::NotInstalled));
    assert!(registry.install(1, 10));
    assert_eq!(registry.get(1), Ok(&10));
}

#[test]
fn second_bundle_does_not_replace_the_first() {
    let mut registry = installed();
    let mut other = CloudyRenderer::new();
    other.prepare(Angle::new(42));
    assert!(!registry.install(RENDERER_ID, other));
    assert_eq!(registry.len(), 1);
    assert_eq!(registry.get(RENDERER_ID).unwrap().uniform(), Angle::new(0));
}

#[test]
fn callback_goes_through_its_phases() {
    let mut registry = installed();
    let mut callback = EditorTabCallback::new(Angle::new(1_100_000));
    assert_eq!(callback.phase, CallbackPhase::Created);
    let write = callback.prepare(&mut registry).unwrap();
    assert_eq!(write, BufferWrite { offset: 0, data: vec![0xe0, 0xc8, 0x10, 0x00] });
    assert_eq!(callback.phase, CallbackPhase::Prepared);
    assert_eq!(registry.len(), 1);
    assert_eq!(registry.get(RENDERER_ID).unwrap().uniform(), Angle::new(1_100_000));
    let commands = callback.paint(&registry).unwrap();
    assert_eq!(commands, triangle_draw());
    assert_eq!(callback.phase, CallbackPhase::Painted);
    assert_eq!(callback.angle, Angle::new(1_100_000));
}

#[test]
fn callback_without_renderer_reports_the_lookup() {
    let mut registry: Registry<CloudyRenderer> = Registry::new();
    let mut callback = EditorTabCallback::new(Angle::new(3));
    assert_eq!(callback.prepare(&mut registry), Err(LookupError::NotInstalled));
    assert_eq!(callback.phase, CallbackPhase::Created);
    assert_eq!(registry.len(), 0);
    let mut prepared = EditorTabCallback { angle: Angle::new(3), phase: CallbackPhase::Prepared };
    assert_eq!(prepared.paint(&registry), Err(LookupError::NotInstalled));
    assert_eq!(prepared.phase, CallbackPhase::Prepared);
}

#[test]
fn all_prepares_come_before_any_paint() {
    let mut registry = installed();
    let angles = [10, 20, 30, 40, 50];
    let mut callbacks: Vec<EditorTabCallback> =
        angles.iter().map(|a| EditorTabCallback::new(Angle::new(*a))).collect();
    let log = run_frame(&mut callbacks, &mut registry).unwrap();
    assert_eq!(log.len(), 10);
    for (i, a) in angles.iter().enumerate() {
        assert_eq!(
            log[i],
            FrameEvent::Prepare {
                callback: i,
                write: BufferWrite { offset: 0, data: (*a as u32).to_le_bytes().to_vec() },
            }
        );
        assert_eq!(log[5 + i], FrameEvent::Paint { callback: i, commands: triangle_draw() });
    }
    let last_prepare = log.iter().rposition(|e| matches!(e, FrameEvent::Prepare { .. })).unwrap();
    let first_paint = log.iter().position(|e| matches!(e, FrameEvent::Paint { .. })).unwrap();
    assert!(last_prepare < first_paint);
    assert!(callbacks.iter().all(|c| c.phase == CallbackPhase::Painted));
    assert_eq!(callbacks.iter().map(|c| c.angle.microradians).collect::<Vec<i32>>(), angles);
}

#[test]
fn last_write_wins() {
    let mut registry = installed();
    let mut callbacks = vec![EditorTabCallback::new(Angle::new(-7)), EditorTabCallback::new(Angle::new(9))];
    run_frame(&mut callbacks, &mut registry).unwrap();
    assert_eq!(registry.get(RENDERER_ID).unwrap().uniform(), Angle::new(9));
    assert_eq!(registry.len(), 1);
}

#[test]
fn frame_without_callbacks_touches_nothing() {
    let mut empty: Registry<CloudyRenderer> = Registry::new();
    assert_eq!(run_frame(&mut vec![], &mut empty), Ok(vec![]));
    assert_eq!(empty.len(), 0);
    let mut registry = installed();
    assert_eq!(run_frame(&mut vec![], &mut registry), Ok(vec![]));
    assert_eq!(registry.get(RENDERER_ID).unwrap(), &CloudyRenderer::new());
}

#[test]
fn frame_with_callbacks_needs_the_renderer() {
    let mut registry: Registry<CloudyRenderer> = Registry::new();
    let mut callbacks = vec![EditorTabCallback::new(Angle::new(1)), EditorTabCallback::new(Angle::new(2))];
    assert_eq!(run_frame(&mut callbacks, &mut registry), Err(LookupError::NotInstalled));
    assert!(callbacks.iter().all(|c| c.phase == CallbackPhase::Created));
    assert_eq!(registry.len(), 0);
}
