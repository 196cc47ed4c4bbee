//! The graphics context of a stand-alone surface: what is asked of the
//! adapter and the device, and how the surface is configured.

use vstd::prelude::*;
use crate::error::InitializationError;

verus! {

/// The pixel format of a surface texture.
#[derive(Clone, Copy, Debug, PartialEq, Eq, Structural)]
pub enum TextureFormat {
    Rgba8UnormSrgb,
}

/// What the surface's textures are used for.
#[derive(Clone, Copy, Debug, PartialEq, Eq, Structural)]
pub enum TextureUsage {
    RenderAttachment,
}

/// When a finished frame is shown.
#[derive(Clone, Copy, Debug, PartialEq, Eq, Structural)]
pub enum PresentMode {
    Fifo,
}

/// How the surface is blended with what lies behind the window.
#[derive(Clone, Copy, Debug, PartialEq, Eq, Structural)]
pub enum CompositeAlphaMode {
    Auto,
}

/// The limits asked of the device.
#[derive(Clone, Copy, Debug, PartialEq, Eq, Structural)]
pub enum Limits {
    Default,
    DownlevelWebGl2,
}

/// The configuration of a surface.
#[derive(Debug, PartialEq, Eq)]
pub struct SurfaceConfiguration {
    pub usage: TextureUsage,
    pub format: TextureFormat,
    pub view_formats: Vec<TextureFormat>,
    pub width: u32,
    pub height: u32,
    pub present_mode: PresentMode,
    pub alpha_mode: CompositeAlphaMode,
}

/// The graphics context once the adapter and the device are there: the
/// limits the device was asked for and the surface's configuration.
#[derive(Debug, PartialEq, Eq)]
pub struct CloudR {
    pub limits: Limits,
    pub config: SurfaceConfiguration,
}

/// The limits to ask for: a browser target gets the reduced set.
pub open spec fn limits_for(web: bool) -> Limits {
    if web {
        Limits::DownlevelWebGl2
    } else {
        Limits::Default
    }
}

impl CloudR {
    /// The limits to ask the device for.
    pub fn limits(web: bool) -> (res: Limits)
        ensures
            res == limits_for(web),
    {
        if web {
            Limits::DownlevelWebGl2
        } else {
            Limits::Default
        }
    }

    /// Decides how start-up ends once the two requests are answered. No
    /// adapter, or an adapter that opens no device, ends it; the answer on
    /// the device counts only where an adapter was found. Otherwise the
    /// surface is configured for `width` by `height` pixels, as an sRGB
    /// render attachment shown in step with the display.
    pub fn new(web: bool, adapter_found: bool, device_opened: bool, width: u32, height: u32) -> (res:
        Result<CloudR, InitializationError>)
        ensures
            match res {
                Ok(context) => {
                    &&& adapter_found && device_opened
                    &&& context.limits == limits_for(web)
                    &&& context.config.usage == TextureUsage::RenderAttachment
                    &&& context.config.format == TextureFormat::Rgba8UnormSrgb
                    &&& context.config.view_formats@ == seq![TextureFormat::Rgba8UnormSrgb]
                    &&& context.config.width == width
                    &&& context.config.height == height
                    &&& context.config.present_mode == PresentMode::Fifo
                    &&& context.config.alpha_mode == CompositeAlphaMode::Auto
                },
                Err(e) => e == (if !adapter_found {
                    InitializationError::MissingAdapter
                } else {
                    InitializationError::MissingDevice
                }) && !(adapter_found && device_opened),
            },
    {
        if !adapter_found {
            return Err(InitializationError::MissingAdapter);
        }
        if !device_opened {
            return Err(InitializationError::MissingDevice);
        }
        let limits: Limits = CloudR::limits(web);
        let mut view_formats: Vec<TextureFormat> = Vec::new();
        view_formats.push(TextureFormat::Rgba8UnormSrgb);
        assert(view_formats@ =~= seq![TextureFormat::Rgba8UnormSrgb]);
        Ok(
            CloudR {
                limits,
                config: SurfaceConfiguration {
                    usage: TextureUsage::RenderAttachment,
                    format: TextureFormat::Rgba8UnormSrgb,
                    view_formats,
                    width,
                    height,
                    present_mode: PresentMode::Fifo,
                    alpha_mode: CompositeAlphaMode::Auto,
                },
            },
        )
    }
}

} // verus!
