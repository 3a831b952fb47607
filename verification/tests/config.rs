use zhazba::config::Config;
use zhazba::registry::{plugin_name, Registry};
use zhazba::text::{char_to_string, first_word_of, is_whitespace, string_pop, string_push, to_lowercase};
use zhazba::{Action, KeyAction};

#[test]
fn default_config() {
    let c = Config::default();
    assert_eq!(c.0.leader, ' ');
    assert_eq!(c.0.tab_width, 2);
    assert!(!c.0.use_tabs);
    assert_eq!(c.0.theme, "");
    assert!(c.keymap("x", 'n').is_none());
}

#[test]
fn keymaps_are_stored_lowercase_under_the_last_mode_character() {
    let mut c = Config::default();
    let prev = c.add_keymap("<C-S>".to_string(), "mode i".to_string(), KeyAction::Single(Action::Save));
    assert!(prev.is_none());
    assert!(matches!(c.keymap("<c-s>", 'i'), Some(KeyAction::Single(Action::Save))));
    assert!(c.keymap("<C-S>", 'i').is_none());
    assert!(c.keymap("<c-s>", 'n').is_none());
    let prev = c.add_keymap("<c-s>".to_string(), "i".to_string(), KeyAction::Single(Action::Dummy));
    assert!(matches!(prev, Some(KeyAction::Single(Action::Save))));
    assert!(matches!(c.keymap("<c-s>", 'i'), Some(KeyAction::Single(Action::Dummy))));
}

#[test]
fn empty_mode_binds_under_nul() {
    let mut c = Config::default();
    c.add_keymap("a".to_string(), String::new(), KeyAction::Single(Action::Dummy));
    assert!(c.keymap("a", '\0').is_some());
}

#[test]
fn commands_are_stored_lowercase() {
    let mut c = Config::default();
    assert!(c.add_command("WQ".to_string(), KeyAction::Multiple(vec![Action::Save, Action::Quit(false)])).is_none());
    match c.command_action("wq") {
        Some(KeyAction::Multiple(v)) => assert_eq!(v.len(), 2),
        other => panic!("{:?}", other),
    }
    assert!(c.command_action("WQ").is_none());
    assert!(c.add_command("wq".to_string(), KeyAction::Single(Action::Dummy)).is_some());
}

#[test]
fn registry_starts_empty_and_records_plugins() {
    let mut r = Registry::new();
    assert!(r.add_plugin("a.b", "/p/a/b.lua").is_none());
    assert_eq!(r.add_plugin("a.b", "/q/a/b.lua"), Some("/p/a/b.lua".to_string()));
}

#[test]
fn plugin_names_come_from_paths() {
    let dir = "./.config/zhazba/plugins/";
    assert_eq!(plugin_name("./.config/zhazba/plugins/foo/bar.lua", dir), "foo.bar");
    assert_eq!(plugin_name("./.config/zhazba/plugins/x.lua.lua", dir), "x");
    assert_eq!(plugin_name("elsewhere/y.lua", dir), "elsewhere.y");
    assert_eq!(plugin_name("abab/c", "ab"), ".c");
    assert_eq!(plugin_name("z", ""), "z");
}

#[test]
fn load_paths_registers_each_file_by_name() {
    let mut r = Registry::new();
    let dir = "/plugins/";
    r.load_paths(dir, &vec!["/plugins/a.lua".to_string(), "/plugins/b/c.lua".to_string()]);
    assert_eq!(r.add_plugin("a", "x"), Some("/plugins/a.lua".to_string()));
    assert_eq!(r.add_plugin("b.c", "x"), Some("/plugins/b/c.lua".to_string()));
}

#[test]
fn text_helpers() {
    assert_eq!(to_lowercase("AbÇ"), "abç");
    assert!(is_whitespace('\u{3000}'));
    assert!(!is_whitespace('x'));
    assert_eq!(char_to_string('é'), "é");
    let mut s = "ab".to_string();
    assert_eq!(string_pop(&mut s), Some('b'));
    string_push(&mut s, 'c');
    assert_eq!(s, "ac");
    let mut e = String::new();
    assert_eq!(string_pop(&mut e), None);
    assert_eq!(first_word_of("  quit now"), Some("quit".to_string()));
    assert_eq!(first_word_of("\t\u{a0}"), None);
    assert_eq!(first_word_of("w"), Some("w".to_string()));
}

#[test]
fn duplicates_keep_the_plan() {
    let a = Action::InsertIntoRegisterAtPos("r".to_string(), "t".to_string(), 1, 2);
    assert_eq!(format!("{:?}", a.duplicate()), format!("{:?}", a));
    let k = KeyAction::Nested(vec![("k".to_string(), KeyAction::Single(Action::Dummy))]);
    assert_eq!(format!("{:?}", k.duplicate()), format!("{:?}", k));
    assert!(!k.plan_exists());
}

#[test]
fn entries_list_each_name_once_in_first_order() {
    let mut r = Registry::new();
    r.add_plugin("b", "/1");
    r.add_plugin("a", "/2");
    r.add_plugin("b", "/3");
    assert_eq!(
        r.entries(),
        vec![("b".to_string(), "/3".to_string()), ("a".to_string(), "/2".to_string())]
    );
    assert_eq!(r.path_of("a"), Some("/2".to_string()));
    assert_eq!(r.path_of("c"), None);
}

#[test]
fn insert_keymap_uses_the_key_as_given_and_the_last_mode_character() {
    let mut c = Config::default();
    assert!(c.insert_keymap("<c-s>".to_string(), "normal", KeyAction::Single(Action::Save)).is_none());
    assert!(matches!(c.keymap("<c-s>", 'l'), Some(KeyAction::Single(Action::Save))));
    assert!(c.keymap("<c-s>", 'n').is_none());
    let mut d = Config::default();
    d.add_keymap("<C-S>".to_string(), "normal".to_string(), KeyAction::Single(Action::Save));
    assert!(matches!(d.keymap("<c-s>", 'l'), Some(KeyAction::Single(Action::Save))));
    let prev = d.insert_keymap("<c-s>".to_string(), "l", KeyAction::Multiple(vec![Action::Dummy]));
    assert!(matches!(prev, Some(KeyAction::Single(Action::Save))));
}

#[test]
fn insert_command_uses_the_name_as_given() {
    let mut c = Config::default();
    c.insert_command("WQ".to_string(), KeyAction::Single(Action::Save));
    assert!(c.command_action("wq").is_none());
    assert!(matches!(c.command_action("WQ"), Some(KeyAction::Single(Action::Save))));
}

#[test]
fn whitespace_agrees_with_std_on_every_char() {
    for v in 0u32..=0x10FFFF {
        if let Some(ch) = char::from_u32(v) {
            assert_eq!(is_whitespace(ch), ch.is_whitespace(), "{:#x}", v);
        }
    }
}

#[test]
fn nested_keeps_each_key_once_with_its_last_binding() {
    let k = KeyAction::nested(vec![
        ("a".to_string(), KeyAction::Single(Action::Save)),
        ("b".to_string(), KeyAction::Single(Action::Dummy)),
        ("a".to_string(), KeyAction::Single(Action::Quit(true))),
    ]);
    match k {
        KeyAction::Nested(v) => {
            assert_eq!(v.len(), 2);
            assert_eq!(v[0].0, "a");
            assert!(matches!(v[0].1, KeyAction::Single(Action::Quit(true))));
            assert_eq!(v[1].0, "b");
            assert!(matches!(v[1].1, KeyAction::Single(Action::Dummy)));
        }
        other => panic!("{:?}", other),
    }
    assert!(matches!(KeyAction::nested(Vec::new()), KeyAction::Nested(v) if v.is_empty()));
}

#[test]
fn frames_keep_the_look_settings() {
    let mut c = Config::default();
    c.add_keymap("x".to_string(), "n".to_string(), KeyAction::Single(Action::Save));
    c.add_command("y".to_string(), KeyAction::Single(Action::Save));
    assert_eq!(c.0.tab_width, 2);
    assert!(!c.0.use_tabs);
    assert_eq!(c.0.theme, "");
}
