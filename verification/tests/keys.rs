use dispatcher::config::{Command, Config, ConfigError, KeyMappingError};
use dispatcher::keys::{exit_key, Hotkey, KeyCode, Modifiers};

fn command(hotkey: &str, script: &str) -> Command {
    Command {
        alt: None,
        meta: None,
        shift: None,
        control: None,
        hotkey: hotkey.to_string(),
        script: script.to_string(),
    }
}

#[test]
fn short_identifier_resolves_to_canonical_name() {
    let code = KeyCode::parse("E").expect("E names a key");
    assert_eq!(code.name, "KeyE");
    assert_eq!(code.name, livesplit_hotkey::KeyCode::KeyE.name());
}

#[test]
fn canonical_identifier_resolves_to_itself() {
    assert_eq!(KeyCode::parse("KeyQ").unwrap().name, "KeyQ");
    assert_eq!(KeyCode::parse("Q").unwrap().name, "KeyQ");
    assert_eq!(KeyCode::parse("1").unwrap().name, "Digit1");
    assert_eq!(KeyCode::parse("F5").unwrap().name, "F5");
}

#[test]
fn unknown_identifier_names_no_key() {
    assert_eq!(KeyCode::parse("NoSuchKey"), None);
    assert_eq!(KeyCode::parse(""), None);
    assert_eq!(KeyCode::parse("e"), None);
}

#[test]
fn key_codes_compare_by_key() {
    let a = KeyCode::parse("E").unwrap();
    let b = KeyCode::parse("KeyE").unwrap();
    let c = KeyCode::parse("Q").unwrap();
    assert!(a.same(&b));
    assert!(!a.same(&c));
}

#[test]
fn modifier_sets_unite() {
    let none = Modifiers::empty();
    assert_eq!(none, Modifiers { shift: false, control: false, alt: false, meta: false });
    assert_eq!(Modifiers::shift(), Modifiers { shift: true, control: false, alt: false, meta: false });
    assert_eq!(Modifiers::control(), Modifiers { shift: false, control: true, alt: false, meta: false });
    assert_eq!(Modifiers::alt(), Modifiers { shift: false, control: false, alt: true, meta: false });
    assert_eq!(Modifiers::meta(), Modifiers { shift: false, control: false, alt: false, meta: true });
    assert_eq!(
        Modifiers::shift().union(Modifiers::meta()),
        Modifiers { shift: true, control: false, alt: false, meta: true }
    );
    assert_eq!(none.union(none), none);
}

#[test]
fn exit_key_is_control_shift_alt_e() {
    let exit = exit_key();
    assert_eq!(exit.key_code.name, "KeyE");
    assert_eq!(exit.modifiers, Modifiers { shift: true, control: true, alt: true, meta: false });
    assert!(exit.is_exit_key());
}

#[test]
fn other_hotkeys_are_not_the_exit_key() {
    let plain_e = Hotkey { key_code: KeyCode::parse("E").unwrap(), modifiers: Modifiers::empty() };
    assert!(!plain_e.is_exit_key());
    let with_meta = Hotkey {
        key_code: KeyCode::parse("E").unwrap(),
        modifiers: Modifiers { shift: true, control: true, alt: true, meta: true },
    };
    assert!(!with_meta.is_exit_key());
    let other_key = Hotkey {
        key_code: KeyCode::parse("Q").unwrap(),
        modifiers: Modifiers { shift: true, control: true, alt: true, meta: false },
    };
    assert!(!other_key.is_exit_key());
}

#[test]
fn hotkey_copy_is_the_same_hotkey() {
    let h = Hotkey { key_code: KeyCode::parse("F1").unwrap(), modifiers: Modifiers::alt() };
    let c = h.copy();
    assert!(h.same(&c));
    assert_eq!(h, c);
}

#[test]
fn absent_and_false_flags_ask_for_nothing() {
    let mut c = command("Q", "true");
    assert_eq!(c.modifiers(), Modifiers::empty());
    c.alt = Some(false);
    c.meta = Some(false);
    c.shift = Some(false);
    c.control = Some(false);
    assert_eq!(c.modifiers(), Modifiers::empty());
}

#[test]
fn set_flags_ask_for_their_modifier() {
    let mut c = command("Q", "true");
    c.alt = Some(true);
    assert_eq!(c.modifiers(), Modifiers::alt());
    c.meta = Some(true);
    c.shift = Some(false);
    assert_eq!(c.modifiers(), Modifiers { shift: false, control: false, alt: true, meta: true });
    c.shift = Some(true);
    c.control = Some(true);
    assert_eq!(c.modifiers(), Modifiers { shift: true, control: true, alt: true, meta: true });
}

#[test]
fn command_converts_to_hotkey() {
    let mut c = command("E", "anything");
    c.control = Some(true);
    c.shift = Some(true);
    c.alt = Some(true);
    let hotkey = c.as_hotkey().unwrap();
    assert_eq!(hotkey, exit_key());
    assert!(hotkey.same(&exit_key()));
    assert_eq!(c.key_code().unwrap().name, "KeyE");
}

#[test]
fn command_with_bad_identifier_reports_it() {
    let c = command("Bogus", "true");
    assert_eq!(c.key_code(), Err(KeyMappingError { identifier: "Bogus".to_string() }));
    assert_eq!(c.as_hotkey(), Err(KeyMappingError { identifier: "Bogus".to_string() }));
}

#[test]
fn failed_load_falls_back_to_empty_config() {
    assert_eq!(Config::or_empty(Err(ConfigError::NotFound)), Config { commands: vec![] });
    assert_eq!(Config::or_empty(Err(ConfigError::Malformed)), Config::empty());
    let loaded = Config { commands: vec![command("Q", "echo A")] };
    assert_eq!(Config::or_empty(Ok(loaded.clone())), loaded);
}
