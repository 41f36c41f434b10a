use dx_gp21::checksum::verify;
use dx_gp21::command::RestartMode;
use dx_gp21::console::table::command_table;
use dx_gp21::console::{App, CompletionRow, InputHint, KeyAction, KeyCode, KeyEvent};
use dx_gp21::display::{
    bar_width, centred_popup, clock_text, detail_popup_height, list_popup_height, popup_above, popup_scroll, sentence_tint, signal_level, sky_char,
    snr_fill, sys_char, table_order, SentenceTint, SignalLevel,
};
use dx_gp21::host_state::GnssState;
use dx_gp21::sentence_reader::sentence_line;
use dx_gp21::state::feed_sentence;
use dx_gp21::types::{GnssSystem, SatInfo};

fn key(code: KeyCode) -> KeyEvent {
    KeyEvent { code, control: false }
}

fn type_text(app: &mut App, text: &str) {
    for c in text.chars() {
        assert!(matches!(app.handle_key(key(KeyCode::Char(c)), false, 0), KeyAction::Continue));
    }
}

fn input(app: &App) -> String {
    app.cmd_input.iter().collect()
}

#[test]
fn catalogue_lines_verify_but_one() {
    let table = command_table();
    assert_eq!(table.len(), 35);
    let mut bad = Vec::new();
    for c in &table {
        if verify(c.full_command.as_bytes()).is_none() {
            bad.push(c.full_command);
        }
        assert!(c.full_command.starts_with('$'));
        assert!(c.full_command[1..].starts_with(c.category));
    }
    // One catalogue line carries a checksum the module will reject.
    assert_eq!(bad, vec!["$PCAS03,1,0,1,1,1,1,0,0,0,0,,,0,0*02"]);
}

#[test]
fn typing_filters_the_catalogue_ignoring_case() {
    let mut app = App::new("port".to_string());
    assert!(!app.should_show_completions());
    assert_eq!(app.matching_indices().len(), 35);
    type_text(&mut app, "baud");
    assert!(app.should_show_completions());
    let m = app.matching_indices();
    assert_eq!(m, vec![1, 2, 3, 4, 5, 6]);
    let rows = app.completion_rows();
    assert_eq!(rows.len(), 7);
    assert!(matches!(rows[0], CompletionRow::Header { category: "PCAS01", .. }));
    assert!(matches!(rows[6], CompletionRow::Variant { idx: 6 }));
    assert_eq!(app.input_hint(), InputHint::Matches(6));
}

#[test]
fn tab_cycles_and_enter_sends() {
    let mut app = App::new("port".to_string());
    type_text(&mut app, "gps only");
    let m = app.matching_indices();
    assert_eq!(m.len(), 1);
    assert_eq!(app.input_hint(), InputHint::Category(m[0]));
    app.handle_key(key(KeyCode::Tab), false, 0);
    assert_eq!(input(&app), "$PCAS04,1*18");
    match app.handle_key(key(KeyCode::Enter), false, 10) {
        KeyAction::Send(line) => assert_eq!(line.iter().collect::<String>(), "$PCAS04,1*18\r\n"),
        other => panic!("unexpected {:?}", other),
    }
    assert!(app.cmd_input.is_empty());
    assert_eq!(app.cmd_history.len(), 1);
}

#[test]
fn backtab_starts_from_the_last_match() {
    let mut app = App::new("port".to_string());
    type_text(&mut app, "PCAS10");
    app.handle_key(key(KeyCode::BackTab), false, 0);
    assert_eq!(input(&app), "$PCAS10,3*1F");
    app.handle_key(key(KeyCode::Tab), false, 0);
    assert_eq!(input(&app), "$PCAS10,0*1C");
    assert!(matches!(app.input_hint(), InputHint::Selected(_)));
}

#[test]
fn history_recalls_sent_commands() {
    let mut app = App::new("port".to_string());
    type_text(&mut app, "  $PCAS06,0*1B ");
    let sent = app.handle_key(key(KeyCode::Enter), false, 100);
    assert!(matches!(sent, KeyAction::Send(_)));
    type_text(&mut app, "$PCAS00*01");
    app.handle_key(key(KeyCode::Enter), false, 200);
    // Sending the same command again does not add a duplicate.
    type_text(&mut app, "$PCAS00*01");
    app.handle_key(key(KeyCode::Enter), false, 300);
    assert_eq!(app.cmd_history.len(), 2);
    // Up starts at the oldest command; the history is kept newest first.
    app.handle_key(key(KeyCode::Up), false, 0);
    assert_eq!(input(&app), "$PCAS06,0*1B");
    app.handle_key(key(KeyCode::Up), false, 0);
    assert_eq!(input(&app), "$PCAS00*01");
    app.handle_key(key(KeyCode::Up), false, 0);
    assert_eq!(input(&app), "");
    assert_eq!(app.cmd_history_pos, None);
    app.handle_key(key(KeyCode::Up), false, 0);
    app.handle_key(key(KeyCode::Down), false, 0);
    assert_eq!(input(&app), "");
}

#[test]
fn blank_enter_sends_nothing() {
    let mut app = App::new("port".to_string());
    type_text(&mut app, "   ");
    assert!(matches!(app.handle_key(key(KeyCode::Enter), false, 0), KeyAction::Continue));
    assert!(app.cmd_history.is_empty());
}

#[test]
fn function_keys_and_confirmation() {
    let mut app = App::new("port".to_string());
    assert!(matches!(app.handle_key(KeyEvent { code: KeyCode::Char('c'), control: true }, false, 0), KeyAction::Quit));
    app.handle_key(key(KeyCode::F(1)), false, 0);
    assert!(app.show_help);
    app.handle_key(key(KeyCode::Esc), false, 0);
    assert!(!app.show_help);
    assert!(matches!(app.handle_key(key(KeyCode::F(3)), false, 0), KeyAction::SaveConfig));
    app.handle_key(key(KeyCode::F(4)), false, 0);
    assert_eq!(app.confirm_restart, Some(RestartMode::Cold));
    match app.handle_key(key(KeyCode::Char('y')), false, 0) {
        KeyAction::Restart(mode) => assert_eq!(mode, RestartMode::Cold),
        other => panic!("unexpected {:?}", other),
    }
    assert_eq!(app.status_msg.as_deref(), Some("Restart command sent"));
    assert_eq!(app.input_hint(), InputHint::Status);
    app.handle_key(key(KeyCode::F(4)), false, 0);
    app.handle_key(key(KeyCode::Char('n')), false, 0);
    assert_eq!(app.confirm_restart, None);
    app.handle_key(key(KeyCode::PageDown), false, 0);
    app.handle_key(key(KeyCode::PageDown), false, 0);
    app.handle_key(key(KeyCode::PageUp), false, 0);
    assert_eq!(app.sat_scroll, 5);
    app.handle_key(key(KeyCode::PageUp), false, 0);
    app.handle_key(key(KeyCode::PageUp), false, 0);
    assert_eq!(app.sat_scroll, 0);
}

#[test]
fn any_key_but_y_cancels_the_restart_dialog() {
    let mut app = App::new("port".to_string());
    for code in [KeyCode::F(1), KeyCode::F(5), KeyCode::PageDown, KeyCode::Esc, KeyCode::Enter] {
        app.handle_key(key(KeyCode::F(4)), false, 0);
        assert_eq!(app.confirm_restart, Some(RestartMode::Cold));
        assert!(matches!(app.handle_key(key(code), false, 0), KeyAction::Continue));
        assert_eq!(app.confirm_restart, None);
        assert!(!app.show_help && !app.log_paused);
        assert_eq!(app.sat_scroll, 0);
    }
    app.handle_key(key(KeyCode::F(4)), false, 0);
    assert!(matches!(app.handle_key(KeyEvent { code: KeyCode::Char('c'), control: true }, false, 0), KeyAction::Quit));
    match app.handle_key(key(KeyCode::Char('Y')), false, 0) {
        KeyAction::Restart(mode) => assert_eq!(mode, RestartMode::Cold),
        other => panic!("unexpected {:?}", other),
    }
}

#[test]
fn readonly_sessions_ignore_typing() {
    let mut app = App::new("file".to_string());
    assert!(matches!(app.handle_key(key(KeyCode::F(3)), true, 0), KeyAction::Continue));
    app.handle_key(key(KeyCode::F(4)), true, 0);
    assert_eq!(app.confirm_restart, None);
    app.handle_key(key(KeyCode::Char('x')), true, 0);
    assert!(app.cmd_input.is_empty());
    app.handle_key(key(KeyCode::F(2)), true, 0);
    assert!(app.log_paused);
}

#[test]
fn log_keeps_the_newest_500_lines() {
    let mut app = App::new("port".to_string());
    let lines: Vec<_> = (0..510).map(|i| sentence_line(&format!("$GNXXX,{}*00", i)).unwrap()).collect();
    app.tick(0, &lines);
    assert_eq!(app.log.len(), 500);
    assert_eq!(app.log.back().unwrap().raw, "$GNXXX,509*00");
    assert_eq!(app.log.front().unwrap().raw, "$GNXXX,10*00");
    assert!(!app.log.back().unwrap().valid);
    app.handle_key(key(KeyCode::F(6)), false, 0);
    assert!(app.log.is_empty());
    app.handle_key(key(KeyCode::F(5)), false, 0);
    app.tick(0, &lines[..3]);
    assert!(app.log.is_empty());
}

#[test]
fn replies_are_captured_after_a_query() {
    let mut app = App::new("port".to_string());
    let reply = sentence_line("$GPTXT,01,01,02,SW=URANUS5*00").unwrap();
    app.tick(0, &[reply.clone()]);
    assert!(app.response_lines.is_empty());
    type_text(&mut app, "$pcas06,1*1A");
    app.handle_key(key(KeyCode::Enter), false, 1000);
    let many: Vec<_> = (0..10).map(|i| sentence_line(&format!("$PCAS06,{}*00", i)).unwrap()).collect();
    app.tick(1500, &many);
    assert_eq!(app.response_lines.len(), 8);
    assert_eq!(app.response_lines.back().unwrap(), "$PCAS06,9*00");
    // The window closes two seconds after the query.
    app.tick(3001, &[reply]);
    assert_eq!(app.response_lines.len(), 8);
    assert_eq!(app.response_lines.back().unwrap(), "$PCAS06,9*00");
}

// ── Display decisions ────────────────────────────────────────────────────────

fn sat(svid: u16, snr: Option<u8>, used: bool) -> SatInfo {
    SatInfo { svid, system: GnssSystem::Galileo, elevation: None, azimuth: None, snr, used }
}

#[test]
fn satellite_table_order() {
    let sats = vec![sat(1, Some(20), false), sat(2, None, true), sat(3, Some(40), true), sat(4, Some(20), false)];
    let order: Vec<u16> = table_order(&sats).iter().map(|s| s.svid).collect();
    assert_eq!(order, vec![3, 2, 1, 4]);
}

#[test]
fn sky_markers_and_bars() {
    assert_eq!(sys_char(GnssSystem::Glonass), 'R');
    assert_eq!(sky_char(&sat(1, None, true)), 'E');
    assert_eq!(sky_char(&sat(1, None, false)), 'e');
    assert_eq!(snr_fill(25, 20), 10);
    assert_eq!(snr_fill(99, 20), 20);
    assert_eq!(signal_level(30), SignalLevel::Strong);
    assert_eq!(signal_level(29), SignalLevel::Fair);
    assert_eq!(signal_level(19), SignalLevel::Weak);
    assert_eq!(bar_width(20), 10);
    assert_eq!(bar_width(50), 14);
    assert_eq!(bar_width(200), 28);
}

#[test]
fn log_tints_and_popups() {
    assert_eq!(sentence_tint("$GNGGA,1"), SentenceTint::Gga);
    assert_eq!(sentence_tint("$GNRMC,GGA"), SentenceTint::Gga);
    assert_eq!(sentence_tint("$GPTXT,1"), SentenceTint::Txt);
    assert_eq!(sentence_tint("$PCAS06"), SentenceTint::Other);
    assert_eq!(centred_popup(0, 0, 100, 40, 62, 20, true), (19, 10, 62, 20));
    assert_eq!(centred_popup(2, 3, 30, 10, 62, 20, true), (4, 5, 26, 6));
    assert_eq!(centred_popup(0, 0, 30, 6, 52, 7, false), (2, 0, 26, 7));
    let rows: Vec<CompletionRow> = (0..20).map(|idx| CompletionRow::Variant { idx }).collect();
    assert_eq!(popup_scroll(&rows, Some(16), 14), 3);
    assert_eq!(popup_scroll(&rows, Some(5), 14), 0);
    assert_eq!(popup_scroll(&rows, None, 14), 0);
}

#[test]
fn popups_stand_above_the_input_box() {
    assert_eq!(list_popup_height(3, 14), 5);
    assert_eq!(list_popup_height(40, 14), 16);
    assert_eq!(detail_popup_height(4, 14), 9);
    assert_eq!(detail_popup_height(12, 14), 14);
    assert_eq!(popup_above(0, 30, 80, 16), Some((1, 14, 78, 16)));
    assert_eq!(popup_above(5, 16, 1, 16), None);
    assert_eq!(popup_above(5, 17, 1, 16), Some((6, 1, 0, 16)));
}

#[test]
fn header_clock_prefers_rmc() {
    let mut state = GnssState::default();
    assert_eq!(clock_text(&state), ("--:--:--".to_string(), String::new()));
    feed_sentence(&mut state, b"$GNGGA,073028.600,4000.00000,N,11600.00000,E,1,08,1.2,100.0,M,0.0,M,,*72");
    assert_eq!(clock_text(&state), ("07:30:28".to_string(), String::new()));
    feed_sentence(&mut state, b"$GNRMC,073028.600,A,4000.00000,N,11600.00000,E,0.00,0.00,090724,,,A,V*08");
    assert_eq!(clock_text(&state), ("07:30:28".to_string(), "2024-07-09".to_string()));
}

#[test]
fn tab_and_shift_tab_cycle_the_restart_rows() {
    let mut app = App::new("port".to_string());
    type_text(&mut app, "PCAS10");
    assert_eq!(app.matching_indices(), vec![31, 32, 33, 34]);
    app.handle_key(key(KeyCode::Tab), false, 0);
    assert_eq!(app.completion_idx, Some(31));
    assert_eq!(input(&app), "$PCAS10,0*1C");
    app.handle_key(key(KeyCode::BackTab), false, 0);
    assert_eq!(app.completion_idx, Some(34));
    assert_eq!(input(&app), "$PCAS10,3*1F");
    app.handle_key(key(KeyCode::Tab), false, 0);
    assert_eq!(app.completion_idx, Some(31));
    assert_eq!(app.matching_indices(), vec![31, 32, 33, 34]);
}
