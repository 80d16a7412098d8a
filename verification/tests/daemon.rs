use dispatcher::config::{Command, Config, ConfigError};
use dispatcher::daemon::{heartbeat_step, Step, Supervisor, DEFAULT_RELOAD_MS, HEARTBEAT_MS};
use dispatcher::keys::{exit_key, Hotkey, KeyCode, Modifiers};
use dispatcher::registry::{Action, Registry, RegistryError};

fn declare(hotkey: &str, script: &str) -> Command {
    Command {
        alt: None,
        meta: None,
        shift: None,
        control: None,
        hotkey: hotkey.to_string(),
        script: script.to_string(),
    }
}

fn plain(name: &str) -> Hotkey {
    Hotkey { key_code: KeyCode::parse(name).unwrap(), modifiers: Modifiers::empty() }
}

fn built(commands: Vec<Command>) -> Registry {
    Registry::build(Config { commands }).0
}

fn bindings(s: &Supervisor) -> Vec<(Hotkey, Action)> {
    s.active.as_ref().unwrap().registrations()
}

#[test]
fn intervals() {
    assert_eq!(HEARTBEAT_MS, 2000);
    assert_eq!(DEFAULT_RELOAD_MS, 5000);
}

#[test]
fn heartbeat_waits_until_signal() {
    assert_eq!(heartbeat_step(false), Step::Wait(2000));
    assert_eq!(heartbeat_step(true), Step::Exit);
}

#[test]
fn successful_start_runs() {
    let s = Supervisor::start(Ok(built(vec![declare("Q", "echo A")])), 9000);
    assert!(!s.signal);
    assert!(s.active.is_some());
    assert_eq!(s.next_step(), Step::Wait(9000));
}

#[test]
fn failed_start_is_fatal() {
    let s = Supervisor::start(Err(RegistryError::HookUnavailable), DEFAULT_RELOAD_MS);
    assert!(s.signal);
    assert!(s.active.is_none());
    assert_eq!(s.next_step(), Step::Exit);
    let s = Supervisor::start(Err(RegistryError::ReservedRegistrationFailed), DEFAULT_RELOAD_MS);
    assert!(s.signal);
    assert_eq!(s.next_step(), Step::Exit);
}

#[test]
fn reload_after_failed_start_changes_nothing() {
    let mut s = Supervisor::start(Err(RegistryError::HookUnavailable), DEFAULT_RELOAD_MS);
    s.reload(Ok(built(vec![declare("Q", "echo A")])));
    assert!(s.signal);
    assert!(s.active.is_none());
}

#[test]
fn exit_key_sets_signal_and_runs_nothing() {
    let mut taken = declare("E", "anything");
    taken.control = Some(true);
    taken.shift = Some(true);
    taken.alt = Some(true);
    let mut s = Supervisor::start(Ok(built(vec![taken])), DEFAULT_RELOAD_MS);
    assert_eq!(s.press(&exit_key()), None);
    assert!(s.signal);
    assert_eq!(s.next_step(), Step::Exit);
}

#[test]
fn duplicate_hotkey_runs_later_script_only() {
    let mut s = Supervisor::start(
        Ok(built(vec![declare("Q", "echo A"), declare("Q", "echo B")])),
        DEFAULT_RELOAD_MS,
    );
    assert_eq!(s.press(&plain("Q")), Some("echo B".to_string()));
    assert!(!s.signal);
}

#[test]
fn unbound_hotkey_does_nothing() {
    let mut s = Supervisor::start(Ok(built(vec![declare("Q", "echo A")])), DEFAULT_RELOAD_MS);
    assert_eq!(s.press(&plain("W")), None);
    assert!(!s.signal);
    assert_eq!(s.next_step(), Step::Wait(DEFAULT_RELOAD_MS));
}

#[test]
fn reload_of_unchanged_source_keeps_bindings() {
    let source = vec![declare("Q", "echo A"), declare("W", "echo B"), declare("Bad", "x")];
    let mut s = Supervisor::start(Ok(built(source.clone())), DEFAULT_RELOAD_MS);
    let before = bindings(&s);
    s.reload(Ok(built(source)));
    assert_eq!(bindings(&s), before);
    assert!(!s.signal);
    assert_eq!(s.press(&plain("Q")), Some("echo A".to_string()));
    assert_eq!(s.press(&plain("W")), Some("echo B".to_string()));
}

#[test]
fn reload_replaces_bindings_wholesale() {
    let mut s = Supervisor::start(Ok(built(vec![declare("Q", "old")])), DEFAULT_RELOAD_MS);
    s.reload(Ok(built(vec![declare("W", "new")])));
    assert_eq!(s.press(&plain("Q")), None);
    assert_eq!(s.press(&plain("W")), Some("new".to_string()));
}

#[test]
fn failed_rebuild_keeps_previous_bindings() {
    let mut s = Supervisor::start(Ok(built(vec![declare("Q", "echo A")])), DEFAULT_RELOAD_MS);
    let before = bindings(&s);
    s.reload(Err(RegistryError::HookUnavailable));
    assert_eq!(bindings(&s), before);
    s.reload(Err(RegistryError::ReservedRegistrationFailed));
    assert_eq!(bindings(&s), before);
    assert!(!s.signal);
    assert_eq!(s.press(&plain("Q")), Some("echo A".to_string()));
}

#[test]
fn malformed_source_keeps_daemon_running_with_exit_key() {
    let mut s = Supervisor::start(Ok(built(vec![declare("Q", "echo A")])), DEFAULT_RELOAD_MS);
    let fallback = Config::or_empty(Err(ConfigError::Malformed));
    s.reload(Ok(Registry::build(fallback).0));
    assert!(!s.signal);
    assert_eq!(s.next_step(), Step::Wait(DEFAULT_RELOAD_MS));
    assert_eq!(bindings(&s), vec![(exit_key(), Action::Terminate)]);
    assert_eq!(s.press(&exit_key()), None);
    assert!(s.signal);
}

#[test]
fn signal_stays_set() {
    let mut s = Supervisor::start(Ok(built(vec![declare("Q", "echo A")])), DEFAULT_RELOAD_MS);
    s.observe(false);
    assert!(!s.signal);
    s.observe(true);
    assert!(s.signal);
    s.observe(false);
    assert!(s.signal);
    s.reload(Ok(built(vec![])));
    assert!(s.signal);
    s.reload(Err(RegistryError::HookUnavailable));
    assert!(s.signal);
    assert_eq!(s.press(&plain("Q")), None);
    assert!(s.signal);
    assert_eq!(s.next_step(), Step::Exit);
}
