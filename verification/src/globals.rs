//! The services that the compositor announces and the viewer binds.

use vstd::prelude::*;
use crate::order::same_text;

verus! {

/// A service of the compositor that the viewer uses.
#[derive(Clone, Copy, Debug, PartialEq, Eq, Structural)]
pub enum Global {
    WlCompositor,
    WlSubcompositor,
    ZxdgDecorationManagerV1,
    WlShm,
    WpViewporter,
    XdgWmBase,
    WlOutput,
    WpSinglePixelBufferManagerV1,
    ExtImageCopyCaptureManagerV1,
    ZwpLinuxDmabufV1,
    ExtOutputImageCaptureSourceManagerV1,
    ExtForeignToplevelImageCaptureSourceManagerV1,
    ExtForeignToplevelListV1,
}

/// The service that the compositor announces under `interface`, if the
/// viewer uses it.
pub open spec fn global_named(interface: Seq<char>) -> Option<Global> {
    if interface == "wl_compositor"@ {
        Some(Global::WlCompositor)
    } else if interface == "wl_subcompositor"@ {
        Some(Global::WlSubcompositor)
    } else if interface == "zxdg_decoration_manager_v1"@ {
        Some(Global::ZxdgDecorationManagerV1)
    } else if interface == "wl_shm"@ {
        Some(Global::WlShm)
    } else if interface == "wp_viewporter"@ {
        Some(Global::WpViewporter)
    } else if interface == "xdg_wm_base"@ {
        Some(Global::XdgWmBase)
    } else if interface == "wl_output"@ {
        Some(Global::WlOutput)
    } else if interface == "wp_single_pixel_buffer_manager_v1"@ {
        Some(Global::WpSinglePixelBufferManagerV1)
    } else if interface == "ext_image_copy_capture_manager_v1"@ {
        Some(Global::ExtImageCopyCaptureManagerV1)
    } else if interface == "zwp_linux_dmabuf_v1"@ {
        Some(Global::ZwpLinuxDmabufV1)
    } else if interface == "ext_output_image_capture_source_manager_v1"@ {
        Some(Global::ExtOutputImageCaptureSourceManagerV1)
    } else if interface == "ext_foreign_toplevel_image_capture_source_manager_v1"@ {
        Some(Global::ExtForeignToplevelImageCaptureSourceManagerV1)
    } else if interface == "ext_foreign_toplevel_list_v1"@ {
        Some(Global::ExtForeignToplevelListV1)
    } else {
        None
    }
}

/// The version of its interface that a service is bound at.
pub open spec fn bound_version(global: Global) -> u32 {
    match global {
        Global::WlCompositor => 4,
        Global::WlOutput => 4,
        Global::ZwpLinuxDmabufV1 => 2,
        _ => 1,
    }
}

/// Finds the service that the compositor announces under `interface`.
pub fn classify(interface: &str) -> (global: Option<Global>)
    ensures
        global == global_named(interface@),
{
    if same_text(interface, "wl_compositor") {
        Some(Global::WlCompositor)
    } else if same_text(interface, "wl_subcompositor") {
        Some(Global::WlSubcompositor)
    } else if same_text(interface, "zxdg_decoration_manager_v1") {
        Some(Global::ZxdgDecorationManagerV1)
    } else if same_text(interface, "wl_shm") {
        Some(Global::WlShm)
    } else if same_text(interface, "wp_viewporter") {
        Some(Global::WpViewporter)
    } else if same_text(interface, "xdg_wm_base") {
        Some(Global::XdgWmBase)
    } else if same_text(interface, "wl_output") {
        Some(Global::WlOutput)
    } else if same_text(interface, "wp_single_pixel_buffer_manager_v1") {
        Some(Global::WpSinglePixelBufferManagerV1)
    } else if same_text(interface, "ext_image_copy_capture_manager_v1") {
        Some(Global::ExtImageCopyCaptureManagerV1)
    } else if same_text(interface, "zwp_linux_dmabuf_v1") {
        Some(Global::ZwpLinuxDmabufV1)
    } else if same_text(interface, "ext_output_image_capture_source_manager_v1") {
        Some(Global::ExtOutputImageCaptureSourceManagerV1)
    } else if same_text(interface, "ext_foreign_toplevel_image_capture_source_manager_v1") {
        Some(Global::ExtForeignToplevelImageCaptureSourceManagerV1)
    } else if same_text(interface, "ext_foreign_toplevel_list_v1") {
        Some(Global::ExtForeignToplevelListV1)
    } else {
        None
    }
}

/// The version that `global` is bound at.
pub fn version(global: Global) -> (v: u32)
    ensures
        v == bound_version(global),
{
    match global {
        Global::WlCompositor => 4,
        Global::WlOutput => 4,
        Global::ZwpLinuxDmabufV1 => 2,
        _ => 1,
    }
}

/// A request to bind an announced service.
#[derive(Clone, Copy, Debug, PartialEq, Eq, Structural)]
pub struct Binding {
    /// The number that the compositor announced the service under.
    pub name: u32,
    pub global: Global,
    pub version: u32,
}

/// Which services have been bound. Outputs are kept apart, one entry each.
#[derive(Clone, Copy, Debug, PartialEq, Eq, Structural)]
pub struct Globals {
    pub wl_compositor: bool,
    pub wl_subcompositor: bool,
    pub zxdg_decoration_manager_v1: bool,
    pub wl_shm: bool,
    pub wp_viewporter: bool,
    pub wm_base: bool,
    pub wp_single_pixel_buffer_manager: bool,
    pub ext_image_copy_capture_manager_v1: bool,
    pub zwp_linux_dmabuf_v1: bool,
    pub ext_output_image_capture_source_manager_v1: bool,
    pub ext_foreign_toplevel_image_capture_source_manager_v1: bool,
    pub ext_foreign_toplevel_list_v1: bool,
}

impl Globals {
    /// No service is bound.
    pub open spec fn none() -> Globals {
        Globals {
            wl_compositor: false,
            wl_subcompositor: false,
            zxdg_decoration_manager_v1: false,
            wl_shm: false,
            wp_viewporter: false,
            wm_base: false,
            wp_single_pixel_buffer_manager: false,
            ext_image_copy_capture_manager_v1: false,
            zwp_linux_dmabuf_v1: false,
            ext_output_image_capture_source_manager_v1: false,
            ext_foreign_toplevel_image_capture_source_manager_v1: false,
            ext_foreign_toplevel_list_v1: false,
        }
    }

    /// `global` is bound. An output counts as never bound here.
    pub open spec fn has(self, global: Global) -> bool {
        match global {
            Global::WlCompositor => self.wl_compositor,
            Global::WlSubcompositor => self.wl_subcompositor,
            Global::ZxdgDecorationManagerV1 => self.zxdg_decoration_manager_v1,
            Global::WlShm => self.wl_shm,
            Global::WpViewporter => self.wp_viewporter,
            Global::XdgWmBase => self.wm_base,
            Global::WlOutput => false,
            Global::WpSinglePixelBufferManagerV1 => self.wp_single_pixel_buffer_manager,
            Global::ExtImageCopyCaptureManagerV1 => self.ext_image_copy_capture_manager_v1,
            Global::ZwpLinuxDmabufV1 => self.zwp_linux_dmabuf_v1,
            Global::ExtOutputImageCaptureSourceManagerV1 =>
                self.ext_output_image_capture_source_manager_v1,
            Global::ExtForeignToplevelImageCaptureSourceManagerV1 =>
                self.ext_foreign_toplevel_image_capture_source_manager_v1,
            Global::ExtForeignToplevelListV1 => self.ext_foreign_toplevel_list_v1,
        }
    }

    /// The record after `global` was bound: an output leaves it as it is.
    pub open spec fn with(self, global: Global) -> Globals {
        match global {
            Global::WlCompositor => Globals { wl_compositor: true, ..self },
            Global::WlSubcompositor => Globals { wl_subcompositor: true, ..self },
            Global::ZxdgDecorationManagerV1 => Globals {
                zxdg_decoration_manager_v1: true,
                ..self
            },
            Global::WlShm => Globals { wl_shm: true, ..self },
            Global::WpViewporter => Globals { wp_viewporter: true, ..self },
            Global::XdgWmBase => Globals { wm_base: true, ..self },
            Global::WlOutput => self,
            Global::WpSinglePixelBufferManagerV1 => Globals {
                wp_single_pixel_buffer_manager: true,
                ..self
            },
            Global::ExtImageCopyCaptureManagerV1 => Globals {
                ext_image_copy_capture_manager_v1: true,
                ..self
            },
            Global::ZwpLinuxDmabufV1 => Globals { zwp_linux_dmabuf_v1: true, ..self },
            Global::ExtOutputImageCaptureSourceManagerV1 => Globals {
                ext_output_image_capture_source_manager_v1: true,
                ..self
            },
            Global::ExtForeignToplevelImageCaptureSourceManagerV1 => Globals {
                ext_foreign_toplevel_image_capture_source_manager_v1: true,
                ..self
            },
            Global::ExtForeignToplevelListV1 => Globals {
                ext_foreign_toplevel_list_v1: true,
                ..self
            },
        }
    }

    /// A record with no service bound.
    pub fn new() -> (globals: Globals)
        ensures
            globals == Globals::none(),
    {
        Globals {
            wl_compositor: false,
            wl_subcompositor: false,
            zxdg_decoration_manager_v1: false,
            wl_shm: false,
            wp_viewporter: false,
            wm_base: false,
            wp_single_pixel_buffer_manager: false,
            ext_image_copy_capture_manager_v1: false,
            zwp_linux_dmabuf_v1: false,
            ext_output_image_capture_source_manager_v1: false,
            ext_foreign_toplevel_image_capture_source_manager_v1: false,
            ext_foreign_toplevel_list_v1: false,
        }
    }

    /// Tells whether `global` is bound.
    pub fn is_bound(&self, global: Global) -> (bound: bool)
        ensures
            bound == self.has(global),
    {
        match global {
            Global::WlCompositor => self.wl_compositor,
            Global::WlSubcompositor => self.wl_subcompositor,
            Global::ZxdgDecorationManagerV1 => self.zxdg_decoration_manager_v1,
            Global::WlShm => self.wl_shm,
            Global::WpViewporter => self.wp_viewporter,
            Global::XdgWmBase => self.wm_base,
            Global::WlOutput => false,
            Global::WpSinglePixelBufferManagerV1 => self.wp_single_pixel_buffer_manager,
            Global::ExtImageCopyCaptureManagerV1 => self.ext_image_copy_capture_manager_v1,
            Global::ZwpLinuxDmabufV1 => self.zwp_linux_dmabuf_v1,
            Global::ExtOutputImageCaptureSourceManagerV1 =>
                self.ext_output_image_capture_source_manager_v1,
            Global::ExtForeignToplevelImageCaptureSourceManagerV1 =>
                self.ext_foreign_toplevel_image_capture_source_manager_v1,
            Global::ExtForeignToplevelListV1 => self.ext_foreign_toplevel_list_v1,
        }
    }

    /// Records that `global` was bound.
    pub fn bind(&mut self, global: Global)
        ensures
            *final(self) == old(self).with(global),
    {
        let before: Globals = *self;
        *self =
        match global {
            Global::WlCompositor => Globals { wl_compositor: true, ..before },
            Global::WlSubcompositor => Globals { wl_subcompositor: true, ..before },
            Global::ZxdgDecorationManagerV1 => Globals {
                zxdg_decoration_manager_v1: true,
                ..before
            },
            Global::WlShm => Globals { wl_shm: true, ..before },
            Global::WpViewporter => Globals { wp_viewporter: true, ..before },
            Global::XdgWmBase => Globals { wm_base: true, ..before },
            Global::WlOutput => before,
            Global::WpSinglePixelBufferManagerV1 => Globals {
                wp_single_pixel_buffer_manager: true,
                ..before
            },
            Global::ExtImageCopyCaptureManagerV1 => Globals {
                ext_image_copy_capture_manager_v1: true,
                ..before
            },
            Global::ZwpLinuxDmabufV1 => Globals { zwp_linux_dmabuf_v1: true, ..before },
            Global::ExtOutputImageCaptureSourceManagerV1 => Globals {
                ext_output_image_capture_source_manager_v1: true,
                ..before
            },
            Global::ExtForeignToplevelImageCaptureSourceManagerV1 => Globals {
                ext_foreign_toplevel_image_capture_source_manager_v1: true,
                ..before
            },
            Global::ExtForeignToplevelListV1 => Globals {
                ext_foreign_toplevel_list_v1: true,
                ..before
            },
        };
    }

    /// The services without which no pipeline can be set up, in the order
    /// they are looked for.
    pub open spec fn required() -> Seq<Global> {
        seq![
            Global::WlCompositor,
            Global::XdgWmBase,
            Global::WlSubcompositor,
            Global::WpViewporter,
            Global::WpSinglePixelBufferManagerV1,
            Global::ExtImageCopyCaptureManagerV1,
        ]
    }

    /// The first required service that is not bound, if one is missing.
    pub open spec fn first_missing(self) -> Option<Global> {
        if !self.wl_compositor {
            Some(Global::WlCompositor)
        } else if !self.wm_base {
            Some(Global::XdgWmBase)
        } else if !self.wl_subcompositor {
            Some(Global::WlSubcompositor)
        } else if !self.wp_viewporter {
            Some(Global::WpViewporter)
        } else if !self.wp_single_pixel_buffer_manager {
            Some(Global::WpSinglePixelBufferManagerV1)
        } else if !self.ext_image_copy_capture_manager_v1 {
            Some(Global::ExtImageCopyCaptureManagerV1)
        } else {
            None
        }
    }

    /// Looks for a required service that is not bound and returns the first
    /// one in the order of `required`.
    pub fn missing(&self) -> (global: Option<Global>)
        ensures
            global == self.first_missing(),
    {
        if !self.wl_compositor {
            Some(Global::WlCompositor)
        } else if !self.wm_base {
            Some(Global::XdgWmBase)
        } else if !self.wl_subcompositor {
            Some(Global::WlSubcompositor)
        } else if !self.wp_viewporter {
            Some(Global::WpViewporter)
        } else if !self.wp_single_pixel_buffer_manager {
            Some(Global::WpSinglePixelBufferManagerV1)
        } else if !self.ext_image_copy_capture_manager_v1 {
            Some(Global::ExtImageCopyCaptureManagerV1)
        } else {
            None
        }
    }
}

/// `first_missing` is the first service of `required` that is not bound:
/// everything before it in that order is bound, and nothing is missing
/// exactly if all of them are.
pub proof fn lemma_first_missing(globals: Globals)
    ensures
        globals.first_missing() is None <==> forall|i: int|
            0 <= i < Globals::required().len() ==> globals.has(#[trigger] Globals::required()[i]),
        globals.first_missing() matches Some(g) ==> !globals.has(g) && exists|i: int|
            0 <= i < Globals::required().len() && Globals::required()[i] == g && forall|j: int|
                0 <= j < i ==> globals.has(#[trigger] Globals::required()[j]),
{
    let r = Globals::required();
    assert(r.len() == 6);
    assert(r[0] == Global::WlCompositor && r[1] == Global::XdgWmBase && r[2]
        == Global::WlSubcompositor && r[3] == Global::WpViewporter && r[4]
        == Global::WpSinglePixelBufferManagerV1 && r[5] == Global::ExtImageCopyCaptureManagerV1);
    match globals.first_missing() {
        Some(g) => {
            let i: int = if g == Global::WlCompositor {
                0
            } else if g == Global::XdgWmBase {
                1
            } else if g == Global::WlSubcompositor {
                2
            } else if g == Global::WpViewporter {
                3
            } else if g == Global::WpSinglePixelBufferManagerV1 {
                4
            } else {
                5
            };
            assert(r[i] == g);
            assert(!globals.has(r[i]));
            assert(forall|j: int| 0 <= j < i ==> globals.has(#[trigger] r[j]));
        },
        None => {},
    }
}

} // verus!
