use capture_viewer::globals::{Binding, Global};
use capture_viewer::session::{CaptureOutcome, SessionEvent};
use capture_viewer::pipeline::SessionStep;
use capture_viewer::sources::{OutputEvent, Resolution, Source, Target, ToplevelEvent};
use capture_viewer::state::{Startup, State};

const REQUIRED: [&str; 6] = [
    "wl_compositor",
    "xdg_wm_base",
    "wl_subcompositor",
    "wp_viewporter",
    "wp_single_pixel_buffer_manager_v1",
    "ext_image_copy_capture_manager_v1",
];

fn announce(state: &mut State, interfaces: &[&str]) {
    for (name, interface) in interfaces.iter().enumerate() {
        state.registry_global(name as u32, interface);
    }
}

fn with_outputs(state: &mut State, names: &[(u32, &str)]) {
    for (key, name) in names {
        state.outputs.insert(*key);
        state.outputs.handle(*key, OutputEvent::Name(name.to_string()));
    }
}

#[test]
fn registry_global_binds_known_interfaces() {
    let mut state = State::new(Target::Unspecified, false, false);
    assert_eq!(
        state.registry_global(1, "wl_compositor"),
        Some(Binding { name: 1, global: Global::WlCompositor, version: 4 })
    );
    assert!(state.pipeline.globals().wl_compositor);
    assert_eq!(
        state.registry_global(9, "zwp_linux_dmabuf_v1"),
        Some(Binding { name: 9, global: Global::ZwpLinuxDmabufV1, version: 2 })
    );
    assert!(state.pipeline.globals().zwp_linux_dmabuf_v1);
    assert_eq!(
        state.registry_global(12, "wl_output"),
        Some(Binding { name: 12, global: Global::WlOutput, version: 4 })
    );
    assert_eq!(state.outputs.len(), 0);
    assert_eq!(state.registry_global(13, "wl_seat"), None);
    assert!(!state.pipeline.globals().wl_shm);
}

#[test]
fn no_target_lists_sources_and_starts_nothing() {
    let mut state = State::new(Target::Unspecified, false, false);
    announce(&mut state, &REQUIRED);
    announce(&mut state, &["wl_shm", "ext_output_image_capture_source_manager_v1"]);
    with_outputs(&mut state, &[(20, "eDP-1"), (21, "DP-3")]);
    state.foreign_toplevels.handle(30, ToplevelEvent::AppId("foot".to_string()));
    state.foreign_toplevels.handle(31, ToplevelEvent::AppId("emacs".to_string()));
    match state.roundtrip_done() {
        Startup::Exit(resolution) => {
            assert_eq!(resolution.exit_code(), Some(0));
            match resolution {
                Resolution::Listing { outputs, toplevels } => {
                    let names: Vec<&str> = outputs.iter().map(|o| o.name.as_str()).collect();
                    assert_eq!(names, vec!["DP-3", "eDP-1"]);
                    let apps: Vec<&str> = toplevels.iter().map(|t| t.app_id.as_str()).collect();
                    assert_eq!(apps, vec!["emacs", "foot"]);
                }
                other => panic!("expected a listing, got {other:?}"),
            }
        }
        other => panic!("expected the program to end, got {other:?}"),
    }
    // No window, no session: whatever arrives, nothing is captured.
    state.pipeline.session_event(SessionEvent::BufferSize { width: 640, height: 480 });
    match state.pipeline.session_event(SessionEvent::Done) {
        SessionStep::Capture(step) => assert_eq!(step.outcome, CaptureOutcome::Idle),
        other => panic!("expected an attempt to capture, got {other:?}"),
    }
    assert_eq!(state.pipeline.frame(), None);
    assert_eq!(state.pipeline.buffer_count(), 0);
}

#[test]
fn unknown_output_ends_with_code_one() {
    let mut state = State::new(Target::Output("HDMI-A-1".to_string()), false, false);
    announce(&mut state, &REQUIRED);
    announce(&mut state, &["ext_output_image_capture_source_manager_v1"]);
    with_outputs(&mut state, &[(20, "eDP-1"), (21, "DP-3")]);
    match state.roundtrip_done() {
        Startup::Exit(resolution) => {
            assert_eq!(resolution.exit_code(), Some(1));
            match resolution {
                Resolution::UnknownOutput { name, outputs } => {
                    assert_eq!(name, "HDMI-A-1");
                    let names: Vec<&str> = outputs.iter().map(|o| o.name.as_str()).collect();
                    assert_eq!(names, vec!["DP-3", "eDP-1"]);
                }
                other => panic!("expected an unknown output, got {other:?}"),
            }
        }
        other => panic!("expected the program to end, got {other:?}"),
    }
    assert_eq!(state.pipeline.render_frame(), None);
}

#[test]
fn unknown_toplevel_ends_with_code_one() {
    let mut state = State::new(Target::Toplevel("abc".to_string()), false, false);
    announce(&mut state, &REQUIRED);
    state.foreign_toplevels.handle(30, ToplevelEvent::Identifier("xyz".to_string()));
    match state.roundtrip_done() {
        Startup::Exit(resolution) => {
            assert_eq!(resolution.exit_code(), Some(1));
            assert!(matches!(resolution, Resolution::UnknownToplevel { .. }));
        }
        other => panic!("expected the program to end, got {other:?}"),
    }
}

#[test]
fn found_output_begins_the_pipeline() {
    let mut state = State::new(Target::Output("DP-3".to_string()), true, false);
    announce(&mut state, &REQUIRED);
    announce(&mut state, &["wl_shm", "ext_output_image_capture_source_manager_v1"]);
    with_outputs(&mut state, &[(20, "eDP-1"), (21, "DP-3")]);
    match state.roundtrip_done() {
        Startup::Begin { source, decorations } => {
            assert_eq!(source, Source::Output { key: 21 });
            assert!(!decorations);
        }
        other => panic!("expected the pipeline to begin, got {other:?}"),
    }
    assert!(state.pipeline.render_frame().is_some());
    state.pipeline.session_event(SessionEvent::BufferSize { width: 640, height: 480 });
    match state.pipeline.session_event(SessionEvent::Done) {
        SessionStep::Capture(step) => {
            assert!(matches!(step.outcome, CaptureOutcome::Started { buffer: 0, .. }))
        }
        other => panic!("expected an attempt to capture, got {other:?}"),
    }
}

#[test]
fn found_toplevel_begins_with_decorations() {
    let mut state = State::new(Target::Toplevel("abc".to_string()), false, true);
    announce(&mut state, &REQUIRED);
    announce(
        &mut state,
        &["zxdg_decoration_manager_v1", "ext_foreign_toplevel_image_capture_source_manager_v1"],
    );
    state.foreign_toplevels.handle(30, ToplevelEvent::Identifier("abc".to_string()));
    match state.roundtrip_done() {
        Startup::Begin { source, decorations } => {
            assert_eq!(source, Source::Toplevel { key: 30 });
            assert!(decorations);
        }
        other => panic!("expected the pipeline to begin, got {other:?}"),
    }
}

#[test]
fn missing_source_manager_is_reported_first() {
    let mut state = State::new(Target::Output("DP-3".to_string()), false, false);
    with_outputs(&mut state, &[(21, "DP-3")]);
    assert!(matches!(
        state.roundtrip_done(),
        Startup::Missing(Global::ExtOutputImageCaptureSourceManagerV1)
    ));
    let mut state = State::new(Target::Toplevel("abc".to_string()), false, false);
    announce(&mut state, &REQUIRED);
    announce(&mut state, &["ext_output_image_capture_source_manager_v1"]);
    state.foreign_toplevels.handle(30, ToplevelEvent::Identifier("abc".to_string()));
    assert!(matches!(
        state.roundtrip_done(),
        Startup::Missing(Global::ExtForeignToplevelImageCaptureSourceManagerV1)
    ));
    assert_eq!(state.pipeline.render_frame(), None);
}

#[test]
fn missing_required_service_is_reported_in_order() {
    let expected = [
        Global::WlCompositor,
        Global::XdgWmBase,
        Global::WlSubcompositor,
        Global::WpViewporter,
        Global::WpSinglePixelBufferManagerV1,
        Global::ExtImageCopyCaptureManagerV1,
    ];
    for (count, missing) in expected.iter().enumerate() {
        let mut state = State::new(Target::Output("DP-3".to_string()), false, false);
        announce(&mut state, &["ext_output_image_capture_source_manager_v1"]);
        announce(&mut state, &REQUIRED[..count]);
        with_outputs(&mut state, &[(21, "DP-3")]);
        match state.roundtrip_done() {
            Startup::Missing(global) => assert_eq!(global, *missing),
            other => panic!("expected a missing service, got {other:?}"),
        }
        assert_eq!(state.pipeline.render_frame(), None);
    }
}
