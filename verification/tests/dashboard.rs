use nod::dashboard::{
    detail_lines, diff_outcome, header_counts, log_lines, map_key, matrix_rows, outcome_line, DashboardAction, DashboardApp,
    DashboardKey, KeyInput, Tab, UiEvent,
};
use nod::errors::NodError;
use nod::host::{HostEntity, HostRole};

fn fleet() -> Vec<HostEntity> {
    let mut jello = HostEntity::new("jello", "jello-machine", true);
    jello.role = HostRole::parse("desktop");
    jello.tags = vec!["home".to_string()];
    vec![
        jello,
        HostEntity::new("atlas", "10.0.0.8", false),
        HostEntity::new("orbit", "10.0.0.9", false),
    ]
}

#[test]
fn new_selects_first_host() {
    let app = DashboardApp::new(fleet());
    assert_eq!(app.selected_index, 0);
    assert!(app.selected_host().is_some());
    assert_eq!(app.selected_host().unwrap().name, "jello");
}

#[test]
fn next_host_advances_then_wraps() {
    let mut app = DashboardApp::new(fleet());

    app.next_host();
    assert_eq!(app.selected_host().unwrap().name, "atlas");

    app.next_host();
    assert_eq!(app.selected_host().unwrap().name, "orbit");

    // Wraps back to the first host.
    app.next_host();
    assert_eq!(app.selected_host().unwrap().name, "jello");
}

#[test]
fn previous_host_wraps_forward() {
    let mut app = DashboardApp::new(fleet());

    // Moving up past the first host wraps to the last.
    app.previous_host();
    assert_eq!(app.selected_host().unwrap().name, "orbit");

    app.previous_host();
    assert_eq!(app.selected_host().unwrap().name, "atlas");
}

#[test]
fn navigation_is_harmless_on_an_empty_fleet() {
    let mut app = DashboardApp::new(Vec::new());
    assert!(app.selected_host().is_none());

    app.next_host();
    app.previous_host();
    assert_eq!(app.selected_index, 0);
}

#[test]
fn tab_cycles_matrix_details_logs() {
    let mut app = DashboardApp::new(fleet());
    assert_eq!(app.active_tab, Tab::Matrix);

    app.toggle_tab();
    assert_eq!(app.active_tab, Tab::Details);

    app.toggle_tab();
    assert_eq!(app.active_tab, Tab::Logs);

    app.toggle_tab();
    assert_eq!(app.active_tab, Tab::Matrix);
}

#[test]
fn selection_survives_a_pane_switch() {
    let mut app = DashboardApp::new(fleet());
    app.next_host();
    app.next_host();

    app.toggle_tab();
    app.toggle_tab();

    assert_eq!(app.selected_host().unwrap().name, "orbit");
}

#[test]
fn append_log_records_entries() {
    let mut app = DashboardApp::new(fleet());
    app.append_log("switch jello");
    app.append_log("rollback orbit");

    assert_eq!(app.logs.len(), 2);
    assert_eq!(app.logs[0], "switch jello");
    assert_eq!(app.logs[1], "rollback orbit");
}

#[test]
fn handle_key_navigates_switches_panes_and_quits() {
    let mut app = DashboardApp::new(fleet());

    app.handle_key(DashboardKey::Down);
    assert_eq!(app.selected_host().unwrap().name, "atlas");

    app.handle_key(DashboardKey::Tab);
    assert_eq!(app.active_tab, Tab::Details);

    app.handle_key(DashboardKey::Up);
    assert_eq!(app.selected_host().unwrap().name, "jello");

    app.handle_key(DashboardKey::Quit);
    assert!(app.should_quit);
}

#[test]
fn action_keys_emit_intents_and_note_the_selected_host() {
    let mut app = DashboardApp::new(fleet());

    let switched = app.handle_key(DashboardKey::Switch);
    assert_eq!(switched, Some(DashboardAction::Switch));
    assert_eq!(
        app.status_message,
        Some("switch queued for jello".to_string())
    );

    app.next_host();

    let rolled = app.handle_key(DashboardKey::Rollback);
    assert_eq!(rolled, Some(DashboardAction::Rollback));
    assert_eq!(
        app.status_message,
        Some("rollback queued for atlas".to_string())
    );

    let diffed = app.handle_key(DashboardKey::Diff);
    assert_eq!(diffed, Some(DashboardAction::Diff));
    assert_eq!(
        app.status_message,
        Some("diff queued for atlas".to_string())
    );
}

#[test]
fn keys_map_to_dashboard_events() {
    assert_eq!(map_key(KeyInput::Down), Some(UiEvent::Key(DashboardKey::Down)));
    assert_eq!(map_key(KeyInput::Char('k')), Some(UiEvent::Key(DashboardKey::Up)));
    assert_eq!(map_key(KeyInput::Char('q')), Some(UiEvent::Key(DashboardKey::Quit)));
    assert_eq!(map_key(KeyInput::Char('d')), Some(UiEvent::Key(DashboardKey::Diff)));
    assert_eq!(map_key(KeyInput::Char('x')), None);
    assert_eq!(map_key(KeyInput::Other), None);
}

#[test]
fn next_then_previous_returns_to_the_same_host() {
    let mut app = DashboardApp::new(fleet());
    app.next_host();
    app.next_host();
    app.previous_host();
    app.next_host();
    assert_eq!(app.selected_host().unwrap().name, "orbit");
}

#[test]
fn action_key_on_empty_fleet_names_no_host() {
    let mut app = DashboardApp::new(Vec::new());
    assert_eq!(app.handle_key(DashboardKey::Switch), Some(DashboardAction::Switch));
    assert_eq!(app.status_message, Some("switch queued for ?".to_string()));
    assert!(!app.should_quit);
}

#[test]
fn diff_and_outcome_lines() {
    assert_eq!(diff_outcome(Some("/nix/store/a"), "/nix/store/a"), "diff: in sync");
    assert_eq!(diff_outcome(Some("/nix/store/a"), "/nix/store/b"), "diff: drifted");
    assert_eq!(diff_outcome(None, "/nix/store/b"), "diff: drifted");
    assert_eq!(outcome_line("atlas", &Ok("rollback complete".to_string())), "atlas: rollback complete");
    assert_eq!(
        outcome_line("atlas", &Err(NodError::rollback_failure("boom"))),
        format!("atlas: error: {}", NodError::rollback_failure("boom").message())
    );
}

#[test]
fn panes_render_matrix_details_and_logs() {
    let mut app = DashboardApp::new(fleet());
    let online = vec![true, false, true];
    assert_eq!(header_counts(&app, &online), (3, 2, 1));
    let rows = matrix_rows(&app, &online);
    assert_eq!(rows.len(), 3);
    assert!(rows[0].highlighted);
    assert_eq!(rows[0].cells[0], "jello");
    assert_eq!(rows[0].cells[1], "desktop");
    assert_eq!(rows[0].cells[3], "home");
    assert_eq!(rows[1].cells[4], "\u{25cb} offline");
    assert_eq!(rows[0].cells[5], "unattached");
    let details = detail_lines(&app);
    assert_eq!(details[1], "  name      jello");
    assert_eq!(details[4], "  ssh       root@jello-machine:22");
    assert_eq!(details[7], "  locality  localhost");
    assert_eq!(log_lines(&app), vec!["  no operations yet".to_string()]);
    app.append_log("switch jello");
    app.append_log("rollback orbit");
    assert_eq!(log_lines(&app), vec!["  rollback orbit".to_string(), "  switch jello".to_string()]);
}

#[test]
fn empty_fleet_with_stale_selection_stays_calm() {
    let mut app = DashboardApp::new(Vec::new());
    app.selected_index = 3;
    assert!(app.selected_host().is_none());
    app.next_host();
    assert_eq!(app.selected_index, 3);
    app.previous_host();
    assert_eq!(app.selected_index, 3);
    assert_eq!(app.handle_key(DashboardKey::Diff), Some(DashboardAction::Diff));
    assert_eq!(app.status_message.as_deref(), Some("diff queued for ?"));
    assert_eq!(detail_lines(&app), vec!["  no host selected".to_string()]);
}
