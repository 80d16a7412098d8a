//! The declared bindings, as they are read from the configuration source.

use vstd::prelude::*;
use crate::keys::{key_name_of, Hotkey, HotkeyView, KeyCode, Modifiers};

verus! {

/// One declared binding. A modifier flag that is absent does not ask for the
/// modifier, just as one that is `false`.
#[derive(Clone, Debug, PartialEq, Eq)]
pub struct Command {
    pub alt: Option<bool>,
    pub meta: Option<bool>,
    pub shift: Option<bool>,
    pub control: Option<bool>,
    pub hotkey: String,
    pub script: String,
}

pub struct CommandView {
    pub alt: Option<bool>,
    pub meta: Option<bool>,
    pub shift: Option<bool>,
    pub control: Option<bool>,
    pub hotkey: Seq<char>,
    pub script: Seq<char>,
}

impl View for Command {
    type V = CommandView;

    open spec fn view(&self) -> CommandView {
        CommandView {
            alt: self.alt,
            meta: self.meta,
            shift: self.shift,
            control: self.control,
            hotkey: self.hotkey@,
            script: self.script@,
        }
    }
}

/// A binding whose key identifier names no key.
#[derive(Clone, Debug, PartialEq, Eq)]
pub struct KeyMappingError {
    pub identifier: String,
}

impl View for KeyMappingError {
    type V = Seq<char>;

    open spec fn view(&self) -> Seq<char> {
        self.identifier@
    }
}

/// Why a configuration could not be loaded.
#[derive(Clone, Copy, Debug, PartialEq, Eq, Structural)]
pub enum ConfigError {
    NotFound,
    Malformed,
}

/// The modifiers that a binding asks for.
pub open spec fn modifiers_of(c: CommandView) -> Modifiers {
    Modifiers {
        shift: c.shift == Some(true),
        control: c.control == Some(true),
        alt: c.alt == Some(true),
        meta: c.meta == Some(true),
    }
}

/// The hotkey that a binding declares; `None` where its key identifier names
/// no key.
pub open spec fn hotkey_of(c: CommandView) -> Option<HotkeyView> {
    match key_name_of(c.hotkey) {
        Some(name) => Some(HotkeyView { key: name, modifiers: modifiers_of(c) }),
        None => None,
    }
}

/// The modifier, where the flag asks for it; the empty set where the flag is
/// absent or `false`.
fn asked(flag: Option<bool>, that: Modifiers) -> (r: Modifiers)
    ensures
        r == if flag == Some(true) {
            that
        } else {
            Modifiers::spec_empty()
        },
{
    match flag {
        Some(true) => that,
        _ => Modifiers::empty(),
    }
}

impl Command {
    /// The modifiers that the binding asks for.
    pub fn modifiers(&self) -> (r: Modifiers)
        ensures
            r == modifiers_of(self@),
    {
        let alt = asked(self.alt, Modifiers::alt());
        let meta = asked(self.meta, Modifiers::meta());
        let shift = asked(self.shift, Modifiers::shift());
        let control = asked(self.control, Modifiers::control());
        alt.union(meta).union(shift).union(control)
    }

    /// The key that the binding names, or the identifier that names none.
    pub fn key_code(&self) -> (r: Result<KeyCode, KeyMappingError>)
        ensures
            match r {
                Ok(code) => key_name_of(self.hotkey@) == Some(code@),
                Err(e) => key_name_of(self.hotkey@).is_none() && e@ == self.hotkey@,
            },
    {
        match KeyCode::parse(self.hotkey.as_str()) {
            Some(code) => Ok(code),
            None => Err(KeyMappingError { identifier: self.hotkey.clone() }),
        }
    }

    /// The hotkey that the binding declares, or the identifier that names no
    /// key.
    pub fn as_hotkey(&self) -> (r: Result<Hotkey, KeyMappingError>)
        ensures
            match r {
                Ok(hotkey) => hotkey_of(self@) == Some(hotkey@),
                Err(e) => hotkey_of(self@).is_none() && e@ == self.hotkey@,
            },
    {
        match self.key_code() {
            Ok(key_code) => Ok(Hotkey { key_code, modifiers: self.modifiers() }),
            Err(e) => Err(e),
        }
    }
}

/// The bindings of one configuration source, in the order of declaration.
#[derive(Clone, Debug, PartialEq, Eq)]
pub struct Config {
    pub commands: Vec<Command>,
}

impl View for Config {
    type V = Seq<CommandView>;

    open spec fn view(&self) -> Seq<CommandView> {
        Seq::new(self.commands@.len(), |i: int| self.commands@[i]@)
    }
}

impl Config {
    /// The configuration without any binding.
    pub fn empty() -> (r: Config)
        ensures
            r@ == Seq::<CommandView>::empty(),
    {
        let r = Config { commands: Vec::new() };
        assert(r@ =~= Seq::<CommandView>::empty());
        r
    }

    /// The configuration to build from after a load: what was loaded, or the
    /// empty configuration where the load failed, so that a source that is
    /// missing or malformed never stops the daemon.
    pub fn or_empty(loaded: Result<Config, ConfigError>) -> (r: Config)
        ensures
            match loaded {
                Ok(config) => r == config,
                Err(_) => r@ == Seq::<CommandView>::empty(),
            },
    {
        match loaded {
            Ok(config) => config,
            Err(_) => Config::empty(),
        }
    }
}

} // verus!
