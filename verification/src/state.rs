//! The viewer's whole state, and how it starts up: which announced services
//! are bound, and what happens once all of them are known.

use vstd::prelude::*;
use crate::globals::{bound_version, classify, global_named, version, Binding, Global, Globals};
use crate::pipeline::Pipeline;
use crate::session::PipelineView;
use crate::sources::{
    is_resolution, resolve, OutputTable, Resolution, Source, Target, ToplevelTable,
};

verus! {

/// How the start-up ended.
#[derive(Debug)]
pub enum Startup {
    /// There is nothing to capture: the listing in `0` is to be shown and
    /// the program ends with the listing's exit code.
    Exit(Resolution),
    /// A service that the viewer cannot do without was not announced.
    Missing(Global),
    /// The window and the session are to be created, the session on
    /// `source`. The window asks for decorations if the compositor offers
    /// them.
    Begin { source: Source, decorations: bool },
}

/// The service that makes a capture source of `source`.
pub open spec fn source_manager(source: Source) -> Global {
    match source {
        Source::Output { .. } => Global::ExtOutputImageCaptureSourceManagerV1,
        Source::Toplevel { .. } => Global::ExtForeignToplevelImageCaptureSourceManagerV1,
    }
}

/// What the start-up comes to once the target was searched: a search that
/// found no source ends the program; a source needs its source manager and
/// then every required service, and the first one that is missing is
/// reported; with all of them bound the pipeline begins.
pub open spec fn startup_of(resolution: Resolution, globals: Globals) -> Startup {
    match resolution {
        Resolution::Found(source) => if !globals.has(source_manager(source)) {
            Startup::Missing(source_manager(source))
        } else {
            match globals.first_missing() {
                Some(global) => Startup::Missing(global),
                None => Startup::Begin {
                    source,
                    decorations: globals.zxdg_decoration_manager_v1,
                },
            }
        },
        _ => Startup::Exit(resolution),
    }
}

/// Everything the viewer knows.
pub struct State {
    /// What the user asked to capture.
    pub target: Target,
    /// The outputs that were announced.
    pub outputs: OutputTable,
    /// The windows that were announced.
    pub foreign_toplevels: ToplevelTable,
    /// The capture and display pipeline.
    pub pipeline: Pipeline,
}

impl State {
    /// The invariant of the state: each part's own invariant.
    pub open spec fn wf(&self) -> bool {
        &&& self.outputs.wf()
        &&& self.foreign_toplevels.wf()
        &&& self.pipeline.wf()
    }

    /// The state that the viewer starts in: nothing announced, nothing
    /// bound, no window.
    pub fn new(target: Target, fullscreen: bool, dmabuf: bool) -> (state: State)
        ensures
            state.wf(),
            state.target == target,
            state.outputs@.len() == 0,
            state.foreign_toplevels@.len() == 0,
            state.pipeline@ == PipelineView::initial(fullscreen, dmabuf),
    {
        State {
            target,
            outputs: OutputTable::new(),
            foreign_toplevels: ToplevelTable::new(),
            pipeline: Pipeline::new(fullscreen, dmabuf),
        }
    }

    /// Takes in that the compositor announced the service `interface` under
    /// the number `name`. A service that the viewer uses is to be bound at
    /// its version, and counts as bound from now on; any other is passed
    /// over. An output is to be bound as well, and is entered into the table
    /// of outputs once it has a key.
    pub fn registry_global(&mut self, name: u32, interface: &str) -> (binding: Option<Binding>)
        requires
            old(self).wf(),
        ensures
            final(self).wf(),
            final(self).target == old(self).target,
            final(self).outputs == old(self).outputs,
            final(self).foreign_toplevels == old(self).foreign_toplevels,
            match global_named(interface@) {
                Some(global) => {
                    &&& binding == Some(Binding { name, global, version: bound_version(global) })
                    &&& final(self).pipeline@ == old(self).pipeline@.after_bind(global)
                },
                None => binding is None && final(self).pipeline@ == old(self).pipeline@,
            },
    {
        match classify(interface) {
            Some(global) => {
                self.pipeline.bind(global);
                Some(Binding { name, global, version: version(global) })
            },
            None => None,
        }
    }

    /// Takes in that every announced service is known and bound, and decides
    /// how the program goes on.
    ///
    /// The target is searched first. Without a target, or with one that is
    /// not found, the program ends: with code 0 after the listing of all
    /// outputs and windows, with code 1 after the listing of the kind that
    /// was asked for. No window and no session come to be, so no capture is
    /// ever started. With a source found, the services are looked for: the
    /// one that makes a capture source of it, then the required ones in
    /// their order. The first that is missing is reported. With all of them
    /// bound the window and the session are to be created, and the pipeline
    /// is set up.
    pub fn roundtrip_done(&mut self) -> (startup: Startup)
        requires
            old(self).wf(),
        ensures
            final(self).wf(),
            final(self).target == old(self).target,
            final(self).outputs == old(self).outputs,
            final(self).foreign_toplevels == old(self).foreign_toplevels,
            exists|resolution: Resolution|
                #![auto]
                is_resolution(
                    old(self).target@,
                    old(self).outputs@,
                    old(self).foreign_toplevels@,
                    resolution,
                ) && startup == startup_of(resolution, old(self).pipeline@.globals),
            final(self).pipeline@ == (if startup is Begin {
                old(self).pipeline@.after_setup()
            } else {
                old(self).pipeline@
            }),
            startup matches Startup::Exit(resolution) ==> resolution.exit_code_spec() == (
            if old(self).target@ is Unspecified {
                Some(0i32)
            } else {
                Some(1i32)
            }),
    {
        let resolution = resolve(&self.target, &self.outputs, &self.foreign_toplevels);
        let ghost found = resolution;
        let globals = self.pipeline.globals();
        let startup = match resolution {
            Resolution::Found(source) => {
                let manager = match source {
                    Source::Output { .. } => Global::ExtOutputImageCaptureSourceManagerV1,
                    Source::Toplevel { .. } => Global::ExtForeignToplevelImageCaptureSourceManagerV1,
                };
                if !globals.is_bound(manager) {
                    Startup::Missing(manager)
                } else {
                    match globals.missing() {
                        Some(global) => Startup::Missing(global),
                        None => {
                            self.pipeline.setup();
                            Startup::Begin {
                                source,
                                decorations: globals.zxdg_decoration_manager_v1,
                            }
                        },
                    }
                }
            },
            other => Startup::Exit(other),
        };
        assert(startup == startup_of(found, old(self).pipeline@.globals));
        startup
    }
}

} // verus!
