use econ_tui::app::{confirm_form, Action, App, ConnectResult, Key};
use econ_tui::state::{AddConnection, AddConnectionElements, FormError, MainElements, Screen};

fn chars(s: &str) -> Vec<char> {
    s.chars().collect()
}

fn type_text(app: &mut App, s: &str) {
    for c in s.chars() {
        assert!(matches!(app.on_key(Key::Char(c)), Action::Nothing));
    }
}

fn main_state(app: &App) -> (MainElements, usize) {
    match app.screen() {
        Screen::Main(m) => (m.active, m.connection),
        other => panic!("not on the dashboard: {:?}", other),
    }
}

/// An app on the dashboard with sessions of the given names.
fn app_with_sessions(names: &[&str]) -> App {
    let mut app = App::new();
    app.on_key(Key::Enter);
    for n in names {
        app.add_tab(chars(n));
    }
    app
}

#[test]
fn welcome_add_connection_scenario() {
    let mut app = App::new();
    assert!(matches!(app.screen(), Screen::Welcome));
    app.on_key(Key::Enter);
    assert_eq!(main_state(&app), (MainElements::Add, 0));
    assert_eq!(app.tabs().len(), 0);

    app.on_key(Key::Enter);
    match app.screen() {
        Screen::AddConnection(d) => assert_eq!(d.active, AddConnectionElements::Name),
        other => panic!("unexpected screen {:?}", other),
    }
    type_text(&mut app, "S1");
    app.on_key(Key::Tab);
    type_text(&mut app, "127.0.0.1:8303");
    app.on_key(Key::Tab);
    type_text(&mut app, "pw");
    app.on_key(Key::Tab);
    match app.screen() {
        Screen::AddConnection(d) => {
            assert_eq!(d.active, AddConnectionElements::OkButton);
            assert_eq!(d.fields[0].to_string(), "S1");
            assert_eq!(d.fields[1].to_string(), "127.0.0.1:8303");
            assert_eq!(d.fields[2].to_string(), "pw");
        }
        other => panic!("unexpected screen {:?}", other),
    }
    match app.on_key(Key::Enter) {
        Action::Connect { name, address, password } => {
            assert_eq!(name, chars("S1"));
            assert_eq!(address, chars("127.0.0.1:8303"));
            assert_eq!(password, chars("pw"));
        }
        other => panic!("unexpected action {:?}", other),
    }
    // the form stays open until the outcome is known
    assert!(form_of(&app).pending);
    assert!(app.on_connect_result(ConnectResult::Connected));
    assert_eq!(main_state(&app), (MainElements::Add, 0));
    assert_eq!(app.tabs().len(), 1);
    assert_eq!(app.tabs()[0].name, chars("S1"));
}

fn form_of(app: &App) -> AddConnection {
    match app.screen() {
        Screen::AddConnection(d) => d,
        other => panic!("not on the form: {:?}", other),
    }
}

/// An app on the form with the given address typed in, focus on the button.
fn form_with_address(address: &str) -> App {
    let mut app = App::new();
    app.on_key(Key::Enter);
    app.on_key(Key::Enter);
    type_text(&mut app, "srv");
    app.on_key(Key::Down);
    type_text(&mut app, address);
    app.on_key(Key::Down);
    type_text(&mut app, "pw");
    app.on_key(Key::Down);
    assert_eq!(form_of(&app).active, AddConnectionElements::OkButton);
    app
}

#[test]
fn rejected_connection_keeps_form_open() {
    let mut app = form_with_address("127.0.0.1:1");
    assert!(matches!(app.on_key(Key::Enter), Action::Connect { .. }));
    assert!(!app.on_connect_result(ConnectResult::Failed));
    let d = form_of(&app);
    assert_eq!(d.error, Some(FormError::Failed));
    assert!(!d.pending);
    assert_eq!(d.active, AddConnectionElements::OkButton);
    assert_eq!(d.fields[0].to_string(), "srv");
    assert_eq!(d.fields[1].to_string(), "127.0.0.1:1");
    assert_eq!(d.fields[2].to_string(), "pw");
    assert_eq!(app.tabs().len(), 0);
    // a second try that succeeds clears the error and opens the session
    assert!(matches!(app.on_key(Key::Enter), Action::Connect { .. }));
    assert_eq!(form_of(&app).error, None);
    assert!(app.on_connect_result(ConnectResult::Connected));
    assert_eq!(main_state(&app), (MainElements::Add, 0));
    assert_eq!(app.tabs()[0].name, chars("srv"));
}

#[test]
fn malformed_address_keeps_form_open_without_connecting() {
    for address in ["nonsense", "", "127.0.0.1", "localhost:8303", "127.0.0.1:99999"] {
        let mut app = form_with_address(address);
        assert!(matches!(app.on_key(Key::Enter), Action::Nothing), "{}", address);
        let d = form_of(&app);
        assert_eq!(d.error, Some(FormError::BadAddress));
        assert!(!d.pending);
        assert_eq!(d.fields[1].to_string(), address);
        // no connection was asked for, so no outcome can add a session
        assert!(!app.on_connect_result(ConnectResult::Connected));
        assert_eq!(app.tabs().len(), 0);
        assert!(matches!(app.screen(), Screen::AddConnection(_)));
    }
}

#[test]
fn connection_data_requires_well_formed_address() {
    let mut d = AddConnection::new();
    d.fields[0].push('n');
    for c in "1.2.3.4:5".chars() {
        d.fields[1].push(c);
    }
    match App::process_connection_data(&d) {
        Action::Connect { name, address, password } => {
            assert_eq!(name, vec!['n']);
            assert_eq!(address, chars("1.2.3.4:5"));
            assert!(password.is_empty());
        }
        other => panic!("unexpected action {:?}", other),
    }
    d.fields[1].pop();
    d.fields[1].pop();
    assert!(matches!(App::process_connection_data(&d), Action::Nothing));
}

#[test]
fn connect_result_without_request_on_fresh_form() {
    let mut app = App::new();
    app.on_key(Key::Enter);
    app.on_key(Key::Enter);
    assert!(!app.on_connect_result(ConnectResult::Connected));
    assert_eq!(form_of(&app).error, None);
    assert_eq!(app.tabs().len(), 0);
}

#[test]
fn well_formed_addresses_request_connection() {
    for address in ["127.0.0.1:8303", "[::1]:8303", "10.0.0.2:0"] {
        let mut app = form_with_address(address);
        match app.on_key(Key::Enter) {
            Action::Connect { address: a, .. } => assert_eq!(a, chars(address)),
            other => panic!("unexpected action {:?} for {}", other, address),
        }
    }
}

#[test]
fn bad_address_reported_by_caller() {
    let mut app = form_with_address("127.0.0.1:8303");
    app.on_key(Key::Enter);
    assert!(!app.on_connect_result(ConnectResult::BadAddress));
    assert_eq!(form_of(&app).error, Some(FormError::BadAddress));
    assert_eq!(app.tabs().len(), 0);
}

#[test]
fn connect_result_off_the_form_changes_nothing() {
    let mut app = app_with_sessions(&["a"]);
    assert!(!app.on_connect_result(ConnectResult::Connected));
    assert_eq!(app.tabs().len(), 1);
    assert_eq!(main_state(&app), (MainElements::Add, 0));
}

#[test]
fn confirm_form_given_address_check() {
    let mut d = AddConnection::new();
    d.fields[0].push('n');
    d.fields[1].push('a');
    let (e, r) = confirm_form(&d, false);
    assert_eq!(e.error, Some(FormError::BadAddress));
    assert!(!e.pending);
    assert!(matches!(r, Action::Nothing));
    let (e, r) = confirm_form(&e, true);
    assert_eq!(e.error, None);
    assert!(e.pending);
    match r {
        Action::Connect { name, address, password } => {
            assert_eq!(name, vec!['n']);
            assert_eq!(address, vec!['a']);
            assert!(password.is_empty());
        }
        other => panic!("unexpected action {:?}", other),
    }
}

#[test]
fn input_enter_sends_buffer() {
    let mut app = app_with_sessions(&["a"]);
    app.on_key(Key::Up);
    assert_eq!(main_state(&app).0, MainElements::Input);
    type_text(&mut app, "status");
    assert_eq!(app.tabs()[0].buffer.to_string(), "status");
    match app.on_key(Key::Enter) {
        Action::Send { index, text } => {
            assert_eq!(index, 0);
            assert_eq!(text, chars("status"));
        }
        other => panic!("unexpected action {:?}", other),
    }
    assert_eq!(app.tabs()[0].buffer.len(), 0);
    assert!(matches!(app.on_key(Key::Enter), Action::Send { .. }));
}

#[test]
fn backspace_in_input_erases() {
    let mut app = app_with_sessions(&["a"]);
    app.on_key(Key::Up);
    type_text(&mut app, "ab");
    app.on_key(Key::Backspace);
    assert_eq!(app.tabs()[0].buffer.to_string(), "a");
    app.on_key(Key::Backspace);
    app.on_key(Key::Backspace);
    assert!(app.tabs()[0].buffer.is_empty());
}

#[test]
fn failed_send_restores_input() {
    let mut app = app_with_sessions(&["a"]);
    app.on_key(Key::Up);
    type_text(&mut app, "kick 1");
    let text = match app.on_key(Key::Enter) {
        Action::Send { text, .. } => text,
        other => panic!("unexpected action {:?}", other),
    };
    app.restore_input(0, &text);
    assert_eq!(app.tabs()[0].buffer.to_string(), "kick 1");
}

#[test]
fn no_sessions_connection_keys_are_noops() {
    let mut app = app_with_sessions(&[]);
    app.on_key(Key::Down);
    assert_eq!(main_state(&app), (MainElements::Connections, 0));
    assert!(matches!(app.on_key(Key::Left), Action::Nothing));
    assert_eq!(main_state(&app), (MainElements::Connections, 0));
    app.on_key(Key::Right);
    assert_eq!(main_state(&app), (MainElements::Connections, 0));
    // console and input keys with no session do nothing either
    app.on_key(Key::Down);
    app.on_key(Key::Left);
    app.on_key(Key::Down);
    assert!(matches!(app.on_key(Key::Enter), Action::Nothing));
}

#[test]
fn connection_keys_wrap() {
    let mut app = app_with_sessions(&["a", "b", "c"]);
    assert_eq!(main_state(&app).1, 2);
    app.on_key(Key::Down);
    app.on_key(Key::Right);
    assert_eq!(main_state(&app), (MainElements::Connections, 0));
    app.on_key(Key::Left);
    assert_eq!(main_state(&app).1, 2);
    app.on_key(Key::Left);
    assert_eq!(main_state(&app).1, 1);
    app.on_key(Key::Right);
    assert_eq!(main_state(&app).1, 2);
}

#[test]
fn main_focus_cycles_in_four() {
    let mut app = app_with_sessions(&[]);
    let order = [MainElements::Connections, MainElements::Console, MainElements::Input, MainElements::Add];
    for (i, expected) in order.iter().enumerate() {
        app.on_key(if i % 2 == 0 { Key::Down } else { Key::Tab });
        assert_eq!(main_state(&app).0, *expected);
    }
    for expected in [MainElements::Input, MainElements::Console, MainElements::Connections, MainElements::Add] {
        app.on_key(Key::Up);
        assert_eq!(main_state(&app).0, expected);
    }
}

#[test]
fn form_focus_cycles_in_four() {
    let mut e = AddConnectionElements::Name;
    for _ in 0..4 {
        e = e.next();
    }
    assert_eq!(e, AddConnectionElements::Name);
    assert_eq!(AddConnectionElements::Name.prev(), AddConnectionElements::OkButton);
    assert_eq!(MainElements::Add.next(), MainElements::Connections);
    assert_eq!(MainElements::Connections.prev(), MainElements::Add);
}

#[test]
fn form_escape_discards() {
    let mut app = App::new();
    app.on_key(Key::Enter);
    app.on_key(Key::Enter);
    type_text(&mut app, "x");
    app.on_key(Key::Esc);
    assert_eq!(main_state(&app), (MainElements::Add, 0));
    app.on_key(Key::Enter);
    match app.screen() {
        Screen::AddConnection(d) => assert!(d.fields[0].is_empty()),
        other => panic!("unexpected screen {:?}", other),
    }
}

#[test]
fn exit_confirm() {
    let mut app = app_with_sessions(&[]);
    app.on_key(Key::Esc);
    assert!(matches!(app.screen(), Screen::Exit));
    assert!(matches!(app.on_key(Key::Char('q')), Action::Nothing));
    app.on_key(Key::Esc);
    assert_eq!(main_state(&app), (MainElements::Add, 0));
    app.on_key(Key::Esc);
    assert!(matches!(app.on_key(Key::Enter), Action::Quit));
}

#[test]
fn poll_removes_dead_in_order() {
    let mut app = app_with_sessions(&["a", "b", "c", "d", "e"]);
    let removed = app.on_tick(&vec![true, false, true, false, true]);
    assert_eq!(removed, vec![3, 1]);
    let names: Vec<Vec<char>> = app.tabs().iter().map(|t| t.name.clone()).collect();
    assert_eq!(names, vec![chars("a"), chars("c"), chars("e")]);
    // the shown session was the last one: it is moved back into range
    assert_eq!(main_state(&app).1, 2);
    let removed = app.on_tick(&vec![false, false, false]);
    assert_eq!(removed, vec![2, 1, 0]);
    assert_eq!(app.tabs().len(), 0);
    assert_eq!(main_state(&app).1, 0);
}

#[test]
fn poll_without_reports_keeps_sessions() {
    let mut app = app_with_sessions(&["a", "b"]);
    assert_eq!(app.on_tick(&vec![]), Vec::<usize>::new());
    assert_eq!(app.tabs().len(), 2);
}

#[test]
fn echo_round_trip() {
    let mut app = app_with_sessions(&["S1"]);
    app.on_key(Key::Up);
    type_text(&mut app, "ping");
    let (index, text) = match app.on_key(Key::Enter) {
        Action::Send { index, text } => (index, text),
        other => panic!("unexpected action {:?}", other),
    };
    assert!(app.on_tick(&vec![true]).is_empty());
    let mut echoed = text.clone();
    echoed.push('\n');
    app.receive(index, &echoed);
    assert_eq!(app.tabs()[0].messages, vec![chars("ping")]);
}

#[test]
fn receive_splits_lines() {
    let mut app = app_with_sessions(&["a", "b"]);
    app.receive(1, &chars("one\r\n\ntwo\nthree\r"));
    assert_eq!(app.tabs()[1].messages, vec![chars("one"), chars("two"), chars("three\r")]);
    assert!(app.tabs()[0].messages.is_empty());
    app.receive(1, &chars(""));
    app.receive(1, &chars("\n\r\n"));
    assert_eq!(app.tabs()[1].messages.len(), 3);
    app.receive(7, &chars("ignored"));
}

#[test]
fn console_scroll_is_clamped() {
    let mut app = app_with_sessions(&["a"]);
    app.receive(0, &chars("x\ny"));
    app.on_key(Key::Down);
    app.on_key(Key::Down);
    assert_eq!(main_state(&app).0, MainElements::Console);
    app.on_key(Key::Left);
    assert_eq!(app.tabs()[0].scroll, 0);
    for _ in 0..5 {
        app.on_key(Key::Right);
    }
    assert_eq!(app.tabs()[0].scroll, 2);
    app.on_key(Key::Left);
    assert_eq!(app.tabs()[0].scroll, 1);
}

#[test]
fn echo_round_trip_after_another_session_died() {
    let mut app = app_with_sessions(&["a", "b", "c"]);
    assert_eq!(main_state(&app).1, 2);
    app.on_key(Key::Up);
    type_text(&mut app, "ping");
    let text = match app.on_key(Key::Enter) {
        Action::Send { index, text } => {
            assert_eq!(index, 2);
            text
        }
        other => panic!("unexpected action {:?}", other),
    };
    assert_eq!(app.on_tick(&vec![false, true, true]), vec![0]);
    assert_eq!(app.tabs()[1].name, chars("c"));
    let mut echoed = text.clone();
    echoed.push('\n');
    app.receive(1, &echoed);
    assert_eq!(app.tabs()[1].messages.last(), Some(&chars("ping")));
    assert!(app.tabs()[0].messages.is_empty());
}
