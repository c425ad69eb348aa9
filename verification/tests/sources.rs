use capture_viewer::sources::{
    resolve, ForeignToplevel, Output, OutputEvent, OutputTable, Resolution, Source, Target,
    ToplevelEvent, ToplevelTable,
};

fn outputs(names: &[(u32, &str)]) -> OutputTable {
    let mut table = OutputTable::new();
    for (key, name) in names {
        table.insert(*key);
        table.handle(*key, OutputEvent::Name(name.to_string()));
    }
    table
}

fn toplevels(entries: &[(u32, &str, &str, &str)]) -> ToplevelTable {
    let mut table = ToplevelTable::new();
    for (key, id, app_id, title) in entries {
        table.handle(*key, ToplevelEvent::Identifier(id.to_string()));
        table.handle(*key, ToplevelEvent::AppId(app_id.to_string()));
        table.handle(*key, ToplevelEvent::Title(title.to_string()));
    }
    table
}

fn output_names(listed: &[Output]) -> Vec<(u32, String)> {
    listed.iter().map(|o| (o.key, o.name.clone())).collect()
}

fn toplevel_rows(listed: &[ForeignToplevel]) -> Vec<(u32, String, String, String)> {
    listed.iter().map(|t| (t.key, t.id.clone(), t.app_id.clone(), t.title.clone())).collect()
}

#[test]
fn output_table_insert_and_name() {
    let mut table = OutputTable::new();
    assert_eq!(table.len(), 0);
    assert!(!table.contains(3));
    table.insert(3);
    assert!(table.contains(3));
    assert_eq!(table.len(), 1);
    assert_eq!(output_names(&table.listing()), vec![(3, String::new())]);
    table.set_name(3, "DP-1".to_string());
    assert_eq!(output_names(&table.listing()), vec![(3, "DP-1".to_string())]);
    assert_eq!(table.find("DP-1"), Some(3));
    assert_eq!(table.find("DP-2"), None);
    assert_eq!(table.find(""), None);
}

#[test]
fn output_table_insert_known_key_clears_the_name() {
    let mut table = outputs(&[(1, "DP-1"), (2, "DP-2")]);
    table.insert(1);
    assert_eq!(table.len(), 2);
    assert_eq!(table.find("DP-1"), None);
    assert_eq!(table.find(""), Some(1));
    assert_eq!(table.find("DP-2"), Some(2));
}

#[test]
fn output_event_other_changes_nothing() {
    let mut table = outputs(&[(1, "DP-1")]);
    table.handle(1, OutputEvent::Other);
    assert_eq!(output_names(&table.listing()), vec![(1, "DP-1".to_string())]);
}

#[test]
fn output_find_takes_the_first_of_equal_names() {
    let table = outputs(&[(5, "DP-1"), (2, "DP-1"), (9, "DP-3")]);
    assert_eq!(table.find("DP-1"), Some(5));
}

#[test]
fn output_listing_is_sorted_by_name() {
    let table = outputs(&[(1, "HDMI-A-1"), (2, "DP-2"), (3, "eDP-1"), (4, "DP-1")]);
    assert_eq!(
        output_names(&table.listing()),
        vec![
            (4, "DP-1".to_string()),
            (2, "DP-2".to_string()),
            (1, "HDMI-A-1".to_string()),
            (3, "eDP-1".to_string()),
        ]
    );
}

#[test]
fn toplevel_table_takes_attributes_one_by_one() {
    let mut table = ToplevelTable::new();
    assert!(!table.handle(7, ToplevelEvent::Title("Editor".to_string())));
    assert!(table.contains(7));
    assert_eq!(
        toplevel_rows(&table.listing()),
        vec![(7, String::new(), String::new(), "Editor".to_string())]
    );
    assert!(!table.handle(7, ToplevelEvent::AppId("emacs".to_string())));
    assert!(!table.handle(7, ToplevelEvent::Identifier("abc123".to_string())));
    assert_eq!(
        toplevel_rows(&table.listing()),
        vec![(7, "abc123".to_string(), "emacs".to_string(), "Editor".to_string())]
    );
    assert_eq!(table.find("abc123"), Some(7));
    assert_eq!(table.find("abc"), None);
}

#[test]
fn toplevel_event_other_enters_the_window() {
    let mut table = ToplevelTable::new();
    assert!(!table.handle(4, ToplevelEvent::Other));
    assert_eq!(table.len(), 1);
    assert!(table.contains(4));
    assert_eq!(table.find(""), Some(4));
}

#[test]
fn toplevel_closed_takes_the_window_out() {
    let mut table = toplevels(&[(1, "a", "foot", "one"), (2, "b", "foot", "two")]);
    assert!(table.handle(1, ToplevelEvent::Closed));
    assert_eq!(table.len(), 1);
    assert!(!table.contains(1));
    assert_eq!(table.find("a"), None);
    assert_eq!(table.find("b"), Some(2));
}

#[test]
fn toplevel_closed_for_unknown_window_leaves_table_as_it_was() {
    let mut table = toplevels(&[(1, "a", "foot", "one")]);
    assert!(table.handle(9, ToplevelEvent::Closed));
    assert_eq!(table.len(), 1);
    assert!(table.contains(1));
    assert!(!table.contains(9));
}

#[test]
fn toplevel_listing_is_sorted_by_app_id() {
    let table = toplevels(&[
        (1, "id1", "foot", "shell"),
        (2, "id2", "firefox", "web"),
        (3, "id3", "Alacritty", "term"),
        (4, "id4", "foot", "logs"),
    ]);
    assert_eq!(
        toplevel_rows(&table.listing()),
        vec![
            (3, "id3".to_string(), "Alacritty".to_string(), "term".to_string()),
            (2, "id2".to_string(), "firefox".to_string(), "web".to_string()),
            (1, "id1".to_string(), "foot".to_string(), "shell".to_string()),
            (4, "id4".to_string(), "foot".to_string(), "logs".to_string()),
        ]
    );
}

#[test]
fn resolve_without_target_lists_everything() {
    let outs = outputs(&[(1, "eDP-1"), (2, "DP-1")]);
    let tops = toplevels(&[(10, "x", "foot", "shell"), (11, "y", "emacs", "notes")]);
    let resolution = resolve(&Target::Unspecified, &outs, &tops);
    assert_eq!(resolution.exit_code(), Some(0));
    match resolution {
        Resolution::Listing { outputs, toplevels } => {
            assert_eq!(
                output_names(&outputs),
                vec![(2, "DP-1".to_string()), (1, "eDP-1".to_string())]
            );
            assert_eq!(
                toplevel_rows(&toplevels),
                vec![
                    (11, "y".to_string(), "emacs".to_string(), "notes".to_string()),
                    (10, "x".to_string(), "foot".to_string(), "shell".to_string()),
                ]
            );
        }
        other => panic!("expected a listing, got {other:?}"),
    }
}

#[test]
fn resolve_without_target_and_without_sources() {
    let resolution = resolve(&Target::Unspecified, &OutputTable::new(), &ToplevelTable::new());
    assert_eq!(resolution.exit_code(), Some(0));
    match resolution {
        Resolution::Listing { outputs, toplevels } => {
            assert!(outputs.is_empty());
            assert!(toplevels.is_empty());
        }
        other => panic!("expected a listing, got {other:?}"),
    }
}

#[test]
fn resolve_named_output() {
    let outs = outputs(&[(1, "eDP-1"), (2, "DP-1")]);
    let tops = toplevels(&[(10, "DP-1", "foot", "shell")]);
    let resolution = resolve(&Target::Output("DP-1".to_string()), &outs, &tops);
    assert_eq!(resolution.exit_code(), None);
    match resolution {
        Resolution::Found(source) => assert_eq!(source, Source::Output { key: 2 }),
        other => panic!("expected a source, got {other:?}"),
    }
}

#[test]
fn resolve_unknown_output_lists_outputs() {
    let outs = outputs(&[(1, "eDP-1"), (2, "DP-1")]);
    let tops = toplevels(&[(10, "HDMI-A-1", "foot", "shell")]);
    let resolution = resolve(&Target::Output("HDMI-A-1".to_string()), &outs, &tops);
    assert_eq!(resolution.exit_code(), Some(1));
    match resolution {
        Resolution::UnknownOutput { name, outputs } => {
            assert_eq!(name, "HDMI-A-1");
            assert_eq!(
                output_names(&outputs),
                vec![(2, "DP-1".to_string()), (1, "eDP-1".to_string())]
            );
        }
        other => panic!("expected an unknown output, got {other:?}"),
    }
}

#[test]
fn resolve_named_toplevel() {
    let outs = outputs(&[(1, "abc")]);
    let tops = toplevels(&[(10, "xyz", "foot", "shell"), (11, "abc", "emacs", "notes")]);
    let resolution = resolve(&Target::Toplevel("abc".to_string()), &outs, &tops);
    assert_eq!(resolution.exit_code(), None);
    match resolution {
        Resolution::Found(source) => assert_eq!(source, Source::Toplevel { key: 11 }),
        other => panic!("expected a source, got {other:?}"),
    }
}

#[test]
fn resolve_unknown_toplevel_lists_toplevels() {
    let outs = outputs(&[(1, "nope")]);
    let tops = toplevels(&[(10, "xyz", "foot", "shell"), (11, "abc", "emacs", "notes")]);
    let resolution = resolve(&Target::Toplevel("nope".to_string()), &outs, &tops);
    assert_eq!(resolution.exit_code(), Some(1));
    match resolution {
        Resolution::UnknownToplevel { id, toplevels } => {
            assert_eq!(id, "nope");
            assert_eq!(
                toplevel_rows(&toplevels),
                vec![
                    (11, "abc".to_string(), "emacs".to_string(), "notes".to_string()),
                    (10, "xyz".to_string(), "foot".to_string(), "shell".to_string()),
                ]
            );
        }
        other => panic!("expected an unknown window, got {other:?}"),
    }
}
