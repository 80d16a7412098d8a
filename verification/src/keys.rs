//! Key codes, modifier sets and hotkeys.

use vstd::prelude::*;
use std::str::FromStr;

verus! {

/// The set of modifier keys that a hotkey asks for.
#[derive(Clone, Copy, Debug, PartialEq, Eq, Hash, Structural)]
pub struct Modifiers {
    pub shift: bool,
    pub control: bool,
    pub alt: bool,
    pub meta: bool,
}

impl Modifiers {
    /// The set without any modifier.
    pub open spec fn spec_empty() -> Modifiers {
        Modifiers { shift: false, control: false, alt: false, meta: false }
    }

    /// The set that holds what `self` or `other` holds.
    pub open spec fn spec_union(self, other: Modifiers) -> Modifiers {
        Modifiers {
            shift: self.shift || other.shift,
            control: self.control || other.control,
            alt: self.alt || other.alt,
            meta: self.meta || other.meta,
        }
    }

    /// The set without any modifier.
    #[verifier::when_used_as_spec(spec_empty)]
    pub fn empty() -> (r: Modifiers)
        ensures
            r == Modifiers::spec_empty(),
    {
        Modifiers { shift: false, control: false, alt: false, meta: false }
    }

    /// The set that holds what `self` or `other` holds.
    #[verifier::when_used_as_spec(spec_union)]
    pub fn union(self, other: Modifiers) -> (r: Modifiers)
        ensures
            r == self.spec_union(other),
    {
        Modifiers {
            shift: self.shift || other.shift,
            control: self.control || other.control,
            alt: self.alt || other.alt,
            meta: self.meta || other.meta,
        }
    }

    /// The set that holds the shift key alone.
    pub fn shift() -> (r: Modifiers)
        ensures
            r == (Modifiers { shift: true, ..Modifiers::spec_empty() }),
    {
        Modifiers { shift: true, control: false, alt: false, meta: false }
    }

    /// The set that holds the control key alone.
    pub fn control() -> (r: Modifiers)
        ensures
            r == (Modifiers { control: true, ..Modifiers::spec_empty() }),
    {
        Modifiers { shift: false, control: true, alt: false, meta: false }
    }

    /// The set that holds the alt key alone.
    pub fn alt() -> (r: Modifiers)
        ensures
            r == (Modifiers { alt: true, ..Modifiers::spec_empty() }),
    {
        Modifiers { shift: false, control: false, alt: true, meta: false }
    }

    /// The set that holds the meta key alone.
    pub fn meta() -> (r: Modifiers)
        ensures
            r == (Modifiers { meta: true, ..Modifiers::spec_empty() }),
    {
        Modifiers { shift: false, control: false, alt: false, meta: true }
    }
}

/// The canonical name of the key that a key identifier stands for, as
/// `livesplit_hotkey` resolves it; `None` where it knows no such key.
pub uninterp spec fn key_name_of(identifier: Seq<char>) -> Option<Seq<char>>;

/// Resolves a key identifier with `livesplit_hotkey::KeyCode::from_str` and
/// hands back `KeyCode::name` of the key found. Assumed, not proved: the
/// outcome depends on the identifier alone, so it is `key_name_of` of it.
#[verifier::external_body]
fn canonical_key_name(identifier: &str) -> (r: Option<String>)
    ensures
        match r {
            Some(name) => key_name_of(identifier@) == Some(name@),
            None => key_name_of(identifier@).is_none(),
        },
{
    match livesplit_hotkey::KeyCode::from_str(identifier) {
        Ok(code) => Some(String::from(code.name())),
        Err(_) => None,
    }
}

/// A physical key, held by its canonical name: the name that resolving any
/// of the key's identifiers gives.
#[derive(Clone, Debug, PartialEq, Eq, Hash)]
pub struct KeyCode {
    pub name: String,
}

impl View for KeyCode {
    type V = Seq<char>;

    open spec fn view(&self) -> Seq<char> {
        self.name@
    }
}

impl KeyCode {
    /// The key that `identifier` names, if there is one.
    pub fn parse(identifier: &str) -> (r: Option<KeyCode>)
        ensures
            match r {
                Some(code) => key_name_of(identifier@) == Some(code@),
                None => key_name_of(identifier@).is_none(),
            },
    {
        match canonical_key_name(identifier) {
            Some(name) => Some(KeyCode { name }),
            None => None,
        }
    }

    /// Whether two key codes are the same key.
    pub fn same(&self, other: &KeyCode) -> (r: bool)
        ensures
            r == (self@ == other@),
    {
        self.name == other.name
    }
}

/// What a hotkey is in contracts: the key's canonical name and the modifiers.
pub struct HotkeyView {
    pub key: Seq<char>,
    pub modifiers: Modifiers,
}

/// A key together with the modifiers that must be held with it. Two hotkeys
/// are the same registration exactly when both parts agree.
#[derive(Clone, Debug, PartialEq, Eq, Hash)]
pub struct Hotkey {
    pub key_code: KeyCode,
    pub modifiers: Modifiers,
}

impl View for Hotkey {
    type V = HotkeyView;

    open spec fn view(&self) -> HotkeyView {
        HotkeyView { key: self.key_code@, modifiers: self.modifiers }
    }
}

impl Hotkey {
    /// Whether two hotkeys are the same registration.
    pub fn same(&self, other: &Hotkey) -> (r: bool)
        ensures
            r == (self@ == other@),
    {
        self.key_code.same(&other.key_code) && self.modifiers == other.modifiers
    }

    /// A second value for the same hotkey.
    pub fn copy(&self) -> (r: Hotkey)
        ensures
            r@ == self@,
    {
        Hotkey { key_code: KeyCode { name: self.key_code.name.clone() }, modifiers: self.modifiers }
    }

    /// Whether this is the combination that stops the daemon.
    pub fn is_exit_key(&self) -> (r: bool)
        ensures
            r == (self@ == exit_key_view()),
    {
        let exit = exit_key();
        self.same(&exit)
    }
}

/// The reserved combination Control+Shift+Alt+E.
pub open spec fn exit_key_view() -> HotkeyView {
    HotkeyView {
        key: "KeyE"@,
        modifiers: Modifiers { shift: true, control: true, alt: true, meta: false },
    }
}

/// The reserved combination that stops the daemon. No configuration can
/// change it.
pub fn exit_key() -> (r: Hotkey)
    ensures
        r@ == exit_key_view(),
{
    let modifiers = Modifiers::shift().union(Modifiers::control()).union(Modifiers::alt());
    Hotkey { key_code: KeyCode { name: "KeyE".to_owned() }, modifiers }
}

} // verus!
