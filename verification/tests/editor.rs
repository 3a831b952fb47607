use zhazba::buffer::{Buffer, BufferInner};
use zhazba::editor::{EditorInner, InputStep, Outcome, Step, BUFFER_MODE, DEFAULT_MODE};
use zhazba::key::{Event, KeyCode, KeyEvent, KeyEventKind, ALT, CONTROL, SHIFT};
use zhazba::rope::rope_to_string;
use zhazba::{Action, KeyAction};

fn editor() -> EditorInner {
    EditorInner::new(None, (80, 24))
}

fn press(code: KeyCode, modifiers: u8, name: &str) -> Event {
    Event::Key(KeyEvent { code, modifiers, kind: KeyEventKind::Press, name: name.to_string() })
}

fn queue_names(e: &EditorInner) -> Vec<String> {
    e.actions_queue.iter().map(|a| format!("{:?}", a)).collect()
}

fn run_all(e: &mut EditorInner) -> (bool, Vec<Vec<u64>>) {
    let mut quit = false;
    let mut redraws = Vec::new();
    loop {
        match e.execute_next() {
            Step::Idle => return (quit, redraws),
            Step::Ran(Outcome::Quit) => quit = true,
            Step::Ran(Outcome::Proceed) => {}
            Step::Ran(Outcome::Redraw(ids)) => redraws.push(ids),
            Step::Unsupported(a) => panic!("unsupported {:?}", a),
        }
    }
}

#[test]
fn new_editor_has_command_register_and_mode_callbacks() {
    let e = editor();
    assert_eq!(e.mode, DEFAULT_MODE);
    assert_eq!(e.mode(), "n");
    assert_eq!(e.read_register("cmd"), "");
    assert_eq!(e.current_register(), "");
    assert!(!e.is_cmd_register());
    assert_eq!(e.size, (80, 24));
    assert!(e.actions_queue.is_empty());
    assert_eq!(e.config.0.leader, ' ');
}

#[test]
fn registers_are_created_read_and_emptied() {
    let mut e = editor();
    assert_eq!(e.read_register("x"), "");
    e.create_register("x".to_string());
    e.execute_action(Action::InsertIntoRegister("x".to_string(), "ab".to_string()));
    assert_eq!(e.read_register("x"), "ab");
    e.create_register("x".to_string());
    assert_eq!(e.read_register("x"), "");
}

#[test]
fn register_actions_edit_existing_registers_only() {
    let mut e = editor();
    e.execute_action(Action::InsertIntoRegister("cmd".to_string(), "wq".to_string()));
    assert_eq!(e.read_register("cmd"), "wq");
    e.execute_action(Action::DeletePrevFromRegister("cmd".to_string()));
    assert_eq!(e.read_register("cmd"), "w");
    e.execute_action(Action::InsertIntoRegister("nope".to_string(), "z".to_string()));
    assert_eq!(e.read_register("nope"), "");
    e.execute_action(Action::ClearRegister("cmd".to_string()));
    assert_eq!(e.read_register("cmd"), "");
    e.execute_action(Action::DeletePrevFromRegister("cmd".to_string()));
    assert_eq!(e.read_register("cmd"), "");
}

#[test]
fn current_register_actions() {
    let mut e = editor();
    e.execute_action(Action::InsertIntoCurrentRegister("a".to_string()));
    assert_eq!(e.read_register("cmd"), "");
    e.execute_action(Action::EnterRegister("cmd".to_string()));
    assert!(e.is_cmd_register());
    assert_eq!(e.current_register(), "cmd");
    e.execute_action(Action::InsertIntoCurrentRegister("ab".to_string()));
    e.execute_action(Action::DeletePrevFromCurrentRegister);
    assert_eq!(e.read_register("cmd"), "a");
    e.execute_action(Action::LeaveRegister);
    assert_eq!(e.current_register(), "");
}

#[test]
fn mode_and_cursor_actions() {
    let mut e = editor();
    e.execute_action(Action::ChangeMode("insert".to_string()));
    assert_eq!(e.mode, 'i');
    e.execute_action(Action::ChangeMode(String::new()));
    assert_eq!(e.mode, 'n');
    e.execute_action(Action::MoveTo(4, 2));
    assert_eq!(e.pos, (4, 2));
    e.execute_action(Action::MoveRight);
    assert_eq!(e.pos, (5, 2));
}

#[test]
fn quit_and_event_outcomes() {
    let mut e = editor();
    assert!(matches!(e.execute_action(Action::Quit(false)), Outcome::Quit));
    assert!(matches!(e.execute_action(Action::Quit(true)), Outcome::Quit));
    assert!(matches!(e.execute_action(Action::Save), Outcome::Proceed));
    assert!(matches!(e.execute_action(Action::Dummy), Outcome::Proceed));
    e.event_callback("on_mode_change".to_string(), 7);
    e.event_callback("on_mode_change".to_string(), 9);
    match e.execute_action(Action::EventCallback("on_mode_change".to_string())) {
        Outcome::Redraw(ids) => assert_eq!(ids, vec![7, 9]),
        other => panic!("{:?}", other),
    }
    match e.execute_action(Action::EventCallback("unknown".to_string())) {
        Outcome::Redraw(ids) => assert!(ids.is_empty()),
        other => panic!("{:?}", other),
    }
}

#[test]
fn key_action_queues_actions_then_events_in_reverse() {
    let mut e = editor();
    e.handle_key_action(KeyAction::Multiple(vec![
        Action::ChangeMode("i".to_string()),
        Action::InsertIntoRegister("cmd".to_string(), "x".to_string()),
        Action::MoveRight,
    ]));
    assert_eq!(
        queue_names(&e),
        vec![
            "ChangeMode(\"i\")",
            "InsertIntoRegister(\"cmd\", \"x\")",
            "MoveRight",
            "EventCallback(\"on_register_change\")",
            "EventCallback(\"on_mode_change\")",
        ]
    );
    e.handle_key_action(KeyAction::Single(Action::ClearRegister("cmd".to_string())));
    assert_eq!(queue_names(&e)[0], "ClearRegister(\"cmd\")");
    assert_eq!(queue_names(&e)[6], "EventCallback(\"on_register_change\")");
}

#[test]
fn running_the_queue_reports_quit_and_redraws() {
    let mut e = editor();
    e.handle_key_action(KeyAction::Multiple(vec![
        Action::ChangeMode("i".to_string()),
        Action::Quit(false),
    ]));
    let (quit, redraws) = run_all(&mut e);
    assert!(quit);
    assert_eq!(redraws, vec![Vec::<u64>::new()]);
    assert_eq!(e.mode, BUFFER_MODE);
}

#[test]
fn unsupported_actions_are_handed_back() {
    let mut e = editor();
    e.handle_key_action(KeyAction::Single(Action::MoveLeft));
    match e.execute_next() {
        Step::Unsupported(Action::MoveLeft) => {}
        other => panic!("{:?}", other),
    }
    assert!(matches!(e.execute_next(), Step::Idle));
}

#[test]
fn execute_command_queues_the_bound_command() {
    let mut e = editor();
    e.config.add_command("Quit".to_string(), KeyAction::Single(Action::Quit(false)));
    e.execute_action(Action::InsertIntoRegister("cmd".to_string(), "  quit now".to_string()));
    assert!(e.check_command());
    e.execute_action(Action::ExecuteCommand);
    assert_eq!(queue_names(&e), vec!["Quit(false)"]);
    let (quit, _) = run_all(&mut e);
    assert!(quit);
}

#[test]
fn unknown_command_is_unsupported_and_blank_is_nothing() {
    let mut e = editor();
    assert!(e.check_command());
    e.execute_action(Action::ExecuteCommand);
    assert!(e.actions_queue.is_empty());
    e.execute_action(Action::InsertIntoRegister("cmd".to_string(), "w".to_string()));
    assert!(!e.check_command());
    assert!(!e.is_supported(&Action::ExecuteCommand));
    assert!(!e.is_supported(&Action::MoveUp));
    assert!(e.is_supported(&Action::MoveRight));
}

#[test]
fn typing_goes_into_the_current_buffer() {
    let mut e = editor();
    e.buffer_manager.push_front(Buffer::new(BufferInner::from_contents("f".to_string(), "ab")));
    e.buffer_manager.set_buffer_idx(0);
    e.execute_action(Action::InsertIntoBufferAt("Z".to_string(), 1, 0));
    // a single line is the last line: the text goes to its end
    assert_eq!(rope_to_string(&e.buffer_manager.buffers[0].0.content), "abZ");
    assert!(e.buffer_manager.buffers[0].0.changed);
}

#[test]
fn key_names() {
    let e = editor();
    assert_eq!(e.format_key_event(KeyCode::Enter, 0), "<cr>");
    assert_eq!(e.format_key_event(KeyCode::Esc, 0), "<esc>");
    assert_eq!(e.format_key_event(KeyCode::Tab, 0), "<tab>");
    assert_eq!(e.format_key_event(KeyCode::Char(' '), 0), "<leader>");
    assert_eq!(e.format_key_event(KeyCode::Char('x'), 0), "x");
    assert_eq!(e.format_key_event(KeyCode::Char('a'), CONTROL), "<c-a>");
    assert_eq!(e.format_key_event(KeyCode::Char('A'), SHIFT), "<s-A>");
    assert_eq!(e.format_key_event(KeyCode::Enter, ALT), "<a-cr>");
    assert_eq!(e.format_key_event(KeyCode::Char('a'), CONTROL | SHIFT), "a");
    assert_eq!(e.format_key_event(KeyCode::Backspace, 0), "");
    assert_eq!(e.format_key_event(KeyCode::Backspace, CONTROL), "<c->");
    assert_eq!(e.format_key_event(KeyCode::Char('<'), 0), "<>");
}

#[test]
fn leader_is_named_only_in_default_mode_outside_the_command_line() {
    let mut e = editor();
    e.execute_action(Action::ChangeMode("i".to_string()));
    assert_eq!(e.format_key_event(KeyCode::Char(' '), 0), " ");
    e.execute_action(Action::ChangeMode("n".to_string()));
    e.execute_action(Action::EnterRegister("cmd".to_string()));
    assert_eq!(e.format_key_event(KeyCode::Char(' '), 0), " ");
}

#[test]
fn command_line_keys() {
    let e = editor();
    let ka = e.handle_command_event(&press(KeyCode::Char('w'), 0, "w")).unwrap();
    assert_eq!(format!("{:?}", ka), "Single(InsertIntoRegister(\"cmd\", \"w\"))");
    let ka = e.handle_command_event(&press(KeyCode::Enter, 0, "Enter")).unwrap();
    assert_eq!(
        format!("{:?}", ka),
        "Multiple([ExecuteCommand, ClearRegister(\"cmd\"), LeaveRegister, ChangeMode(\"n\")])"
    );
    let ka = e.handle_command_event(&press(KeyCode::Backspace, 0, "Backspace")).unwrap();
    assert_eq!(format!("{:?}", ka), "Single(DeletePrevFromRegister(\"cmd\"))");
    let ka = e.handle_command_event(&press(KeyCode::Esc, 0, "Esc")).unwrap();
    assert_eq!(
        format!("{:?}", ka),
        "Multiple([ClearRegister(\"cmd\"), LeaveRegister, ChangeMode(\"n\")])"
    );
    assert!(e.handle_command_event(&press(KeyCode::Tab, 0, "Tab")).is_none());
    assert!(e.handle_command_event(&Event::Other).is_none());
    let release = Event::Key(KeyEvent {
        code: KeyCode::Char('w'),
        modifiers: 0,
        kind: KeyEventKind::Release,
        name: "w".to_string(),
    });
    assert!(e.handle_command_event(&release).is_none());
}

#[test]
fn bound_keys_give_their_binding() {
    let mut e = editor();
    e.config.add_keymap("<C-Q>".to_string(), "normal n".to_string(), KeyAction::Single(Action::Quit(true)));
    let ka = e.handle_event(&press(KeyCode::Char('q'), CONTROL, "q")).unwrap();
    assert_eq!(format!("{:?}", ka), "Single(Quit(true))");
    assert!(e.handle_event(&press(KeyCode::Char('z'), 0, "z")).is_none());
}

#[test]
fn unbound_keys_type_in_buffer_mode() {
    let mut e = editor();
    e.execute_action(Action::ChangeMode("i".to_string()));
    e.execute_action(Action::MoveTo(3, 1));
    let ka = e.handle_event(&press(KeyCode::Char(' '), 0, "Space")).unwrap();
    assert_eq!(
        format!("{:?}", ka),
        "Multiple([InsertIntoBufferAt(\"Space\", 3, 1), MoveTo(4, 1)])"
    );
}

#[test]
fn input_on_the_command_line_runs_without_a_frame() {
    let mut e = editor();
    e.execute_action(Action::EnterRegister("cmd".to_string()));
    match e.handle_input(&press(KeyCode::Char('q'), 0, "q")) {
        InputStep::Run { draw } => assert!(!draw),
        other => panic!("{:?}", other),
    }
    run_all(&mut e);
    assert_eq!(e.read_register("cmd"), "q");
    assert!(matches!(e.handle_input(&press(KeyCode::Tab, 0, "Tab")), InputStep::Skip));
}

#[test]
fn enter_on_the_command_line_runs_the_command() {
    let mut e = editor();
    e.config.add_command("q".to_string(), KeyAction::Single(Action::Quit(false)));
    e.execute_action(Action::EnterRegister("cmd".to_string()));
    e.handle_input(&press(KeyCode::Char('q'), 0, "q"));
    run_all(&mut e);
    e.handle_input(&press(KeyCode::Enter, 0, "Enter"));
    let (quit, _) = run_all(&mut e);
    assert!(quit);
    assert_eq!(e.read_register("cmd"), "");
    assert_eq!(e.current_register(), "");
    assert_eq!(e.mode, DEFAULT_MODE);
}

#[test]
fn input_elsewhere_runs_and_draws() {
    let mut e = editor();
    match e.handle_input(&press(KeyCode::Char('z'), 0, "z")) {
        InputStep::Run { draw } => assert!(draw),
        other => panic!("{:?}", other),
    }
    assert!(e.actions_queue.is_empty());
    e.config.add_keymap("x".to_string(), "n".to_string(), KeyAction::Nested(Vec::new()));
    assert!(matches!(e.handle_input(&press(KeyCode::Char('x'), 0, "x")), InputStep::Unsupported));
}

#[test]
fn typing_at_the_last_column_is_unsupported() {
    let mut e = editor();
    e.execute_action(Action::ChangeMode("i".to_string()));
    e.execute_action(Action::MoveTo(usize::MAX, 0));
    assert!(matches!(e.handle_input(&press(KeyCode::Char('a'), 0, "a")), InputStep::Unsupported));
}

#[test]
fn command_line_char_and_backspace_give_single_bindings_whatever_the_modifiers() {
    let e = editor();
    assert!(matches!(
        e.handle_command_event(&press(KeyCode::Char('w'), CONTROL, "w")),
        Some(KeyAction::Single(Action::InsertIntoRegister(_, _)))
    ));
    assert!(matches!(
        e.handle_command_event(&press(KeyCode::Backspace, 0, "Backspace")),
        Some(KeyAction::Single(Action::DeletePrevFromRegister(_)))
    ));
}

#[test]
fn bound_keys_keep_the_binding_shape() {
    let mut e = editor();
    e.config.add_keymap("a".to_string(), "n".to_string(), KeyAction::Multiple(vec![Action::Save]));
    e.config.add_keymap("b".to_string(), "n".to_string(), KeyAction::Single(Action::Save));
    assert!(matches!(e.handle_event(&press(KeyCode::Char('a'), 0, "a")), Some(KeyAction::Multiple(_))));
    assert!(matches!(e.handle_event(&press(KeyCode::Char('b'), 0, "b")), Some(KeyAction::Single(_))));
}
