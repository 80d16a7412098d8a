//! From declared bindings to the set of live registrations.

use vstd::prelude::*;
use crate::keys::{exit_key, exit_key_view, Hotkey, HotkeyView};
use crate::config::{hotkey_of, CommandView, Config, KeyMappingError};

verus! {

/// The script bound to each hotkey by a list of declarations: a declaration
/// whose key identifier names no key binds nothing, and of two declarations
/// of one hotkey the later one stands.
pub open spec fn bindings_of(commands: Seq<CommandView>) -> Map<HotkeyView, Seq<char>>
    decreases commands.len(),
{
    if commands.len() == 0 {
        Map::empty()
    } else {
        let earlier = bindings_of(commands.drop_last());
        match hotkey_of(commands.last()) {
            Some(hotkey) => earlier.insert(hotkey, commands.last().script),
            None => earlier,
        }
    }
}

/// The key identifiers, in the order of declaration, of the declarations that
/// name no key.
pub open spec fn rejected_of(commands: Seq<CommandView>) -> Seq<Seq<char>>
    decreases commands.len(),
{
    if commands.len() == 0 {
        Seq::empty()
    } else {
        let earlier = rejected_of(commands.drop_last());
        match hotkey_of(commands.last()) {
            Some(_) => earlier,
            None => earlier.push(commands.last().hotkey),
        }
    }
}

/// The hotkeys that a list of declarations binds, each once, in the order in
/// which they are first declared.
pub open spec fn declared_order(commands: Seq<CommandView>) -> Seq<HotkeyView>
    decreases commands.len(),
{
    if commands.len() == 0 {
        Seq::empty()
    } else {
        let earlier = declared_order(commands.drop_last());
        match hotkey_of(commands.last()) {
            Some(hotkey) => if bindings_of(commands.drop_last()).contains_key(hotkey) {
                earlier
            } else {
                earlier.push(hotkey)
            },
            None => earlier,
        }
    }
}

/// A list of hotkeys without one of them; the others keep their order.
pub open spec fn without(keys: Seq<HotkeyView>, hotkey: HotkeyView) -> Seq<HotkeyView>
    decreases keys.len(),
{
    if keys.len() == 0 {
        keys
    } else if keys.last() == hotkey {
        without(keys.drop_last(), hotkey)
    } else {
        without(keys.drop_last(), hotkey).push(keys.last())
    }
}

/// The identifiers that a list of errors reports.
pub open spec fn identifiers(errors: Seq<KeyMappingError>) -> Seq<Seq<char>> {
    Seq::new(errors.len(), |i: int| errors[i]@)
}

spec fn entries_map(s: Seq<(Hotkey, String)>) -> Map<HotkeyView, Seq<char>>
    decreases s.len(),
{
    if s.len() == 0 {
        Map::empty()
    } else {
        entries_map(s.drop_last()).insert(s.last().0@, s.last().1@)
    }
}

spec fn keys_of(s: Seq<(Hotkey, String)>) -> Seq<HotkeyView> {
    Seq::new(s.len(), |i: int| s[i].0@)
}

spec fn distinct_keys(s: Seq<(Hotkey, String)>) -> bool {
    forall|i: int, j: int| #![trigger s[i], s[j]] 0 <= i < j < s.len() ==> s[i].0@ != s[j].0@
}

proof fn lemma_absent(s: Seq<(Hotkey, String)>, key: HotkeyView)
    requires
        forall|i: int| 0 <= i < s.len() ==> (#[trigger] s[i]).0@ != key,
    ensures
        !entries_map(s).contains_key(key),
    decreases s.len(),
{
    if s.len() > 0 {
        assert(s.last() == s[s.len() - 1]);
        assert forall|i: int| 0 <= i < s.drop_last().len() implies (#[trigger] s.drop_last()[i]).0@
            != key by {
            assert(s.drop_last()[i] == s[i]);
        }
        lemma_absent(s.drop_last(), key);
    }
}

proof fn lemma_distinct_prefix(s: Seq<(Hotkey, String)>)
    requires
        distinct_keys(s),
        s.len() > 0,
    ensures
        distinct_keys(s.drop_last()),
        !entries_map(s.drop_last()).contains_key(s.last().0@),
{
    let t = s.drop_last();
    assert forall|i: int, j: int| #![trigger t[i], t[j]] 0 <= i < j < t.len() implies t[i].0@
        != t[j].0@ by {
        assert(t[i] == s[i] && t[j] == s[j]);
    }
    assert forall|i: int| 0 <= i < t.len() implies (#[trigger] t[i]).0@ != s.last().0@ by {
        assert(t[i] == s[i]);
        assert(s.last() == s[s.len() - 1]);
    }
    lemma_absent(t, s.last().0@);
}

proof fn lemma_present(s: Seq<(Hotkey, String)>, i: int)
    requires
        distinct_keys(s),
        0 <= i < s.len(),
    ensures
        entries_map(s).contains_key(s[i].0@),
        entries_map(s)[s[i].0@] == s[i].1@,
    decreases s.len(),
{
    lemma_distinct_prefix(s);
    if i < s.len() - 1 {
        assert(s.drop_last()[i] == s[i]);
        assert(s.last() == s[s.len() - 1]);
        lemma_present(s.drop_last(), i);
    }
}

proof fn lemma_replace(s: Seq<(Hotkey, String)>, i: int, e: (Hotkey, String))
    requires
        distinct_keys(s),
        0 <= i < s.len(),
        e.0@ == s[i].0@,
    ensures
        distinct_keys(s.update(i, e)),
        entries_map(s.update(i, e)) == entries_map(s).insert(e.0@, e.1@),
    decreases s.len(),
{
    let t = s.update(i, e);
    assert forall|a: int, b: int| #![trigger t[a], t[b]] 0 <= a < b < t.len() implies t[a].0@
        != t[b].0@ by {
        assert(t[a].0@ == s[a].0@ && t[b].0@ == s[b].0@);
    }
    lemma_distinct_prefix(s);
    if i == s.len() - 1 {
        assert(t.drop_last() =~= s.drop_last());
        assert(entries_map(t) =~= entries_map(s).insert(e.0@, e.1@));
    } else {
        assert(t.drop_last() =~= s.drop_last().update(i, e));
        assert(t.last() == s.last());
        assert(s.drop_last()[i] == s[i]);
        assert(s.last() == s[s.len() - 1]);
        lemma_replace(s.drop_last(), i, e);
        assert(entries_map(t) =~= entries_map(s).insert(e.0@, e.1@));
    }
}

proof fn lemma_remove(s: Seq<(Hotkey, String)>, i: int)
    requires
        distinct_keys(s),
        0 <= i < s.len(),
    ensures
        distinct_keys(s.remove(i)),
        entries_map(s.remove(i)) == entries_map(s).remove(s[i].0@),
    decreases s.len(),
{
    let t = s.remove(i);
    assert forall|a: int, b: int| #![trigger t[a], t[b]] 0 <= a < b < t.len() implies t[a].0@
        != t[b].0@ by {
        let a0 = if a < i { a } else { a + 1 };
        let b0 = if b < i { b } else { b + 1 };
        assert(t[a] == s[a0] && t[b] == s[b0]);
    }
    lemma_distinct_prefix(s);
    if i == s.len() - 1 {
        assert(t =~= s.drop_last());
        assert(entries_map(t) =~= entries_map(s).remove(s[i].0@));
    } else {
        assert(t.drop_last() =~= s.drop_last().remove(i));
        assert(t.last() == s.last());
        assert(s.drop_last()[i] == s[i]);
        assert(s.last() == s[s.len() - 1]);
        lemma_remove(s.drop_last(), i);
        assert(entries_map(t) =~= entries_map(s).remove(s[i].0@));
    }
}

proof fn lemma_without_absent(keys: Seq<HotkeyView>, hotkey: HotkeyView)
    requires
        forall|i: int| 0 <= i < keys.len() ==> #[trigger] keys[i] != hotkey,
    ensures
        without(keys, hotkey) == keys,
    decreases keys.len(),
{
    if keys.len() > 0 {
        assert(keys.last() == keys[keys.len() - 1]);
        assert forall|i: int| 0 <= i < keys.drop_last().len() implies #[trigger] keys.drop_last()[i]
            != hotkey by {
            assert(keys.drop_last()[i] == keys[i]);
        }
        lemma_without_absent(keys.drop_last(), hotkey);
        assert(keys.drop_last().push(keys.last()) =~= keys);
    }
}

proof fn lemma_without_at(keys: Seq<HotkeyView>, i: int)
    requires
        0 <= i < keys.len(),
        forall|a: int, b: int| 0 <= a < b < keys.len() ==> #[trigger] keys[a] != #[trigger] keys[b],
    ensures
        without(keys, keys[i]) == keys.remove(i),
    decreases keys.len(),
{
    let earlier = keys.drop_last();
    let last = keys.len() - 1;
    assert(keys.last() == keys[last]);
    if i == last {
        assert forall|a: int| 0 <= a < earlier.len() implies #[trigger] earlier[a] != keys[i] by {
            assert(earlier[a] == keys[a]);
        }
        lemma_without_absent(earlier, keys[i]);
        assert(keys.remove(i) =~= earlier);
    } else {
        assert(earlier[i] == keys[i]);
        assert forall|a: int, b: int| 0 <= a < b < earlier.len() implies #[trigger] earlier[a]
            != #[trigger] earlier[b] by {
            assert(earlier[a] == keys[a] && earlier[b] == keys[b]);
        }
        lemma_without_at(earlier, i);
        assert(keys[i] != keys[last]);
        assert(earlier.remove(i).push(keys.last()) =~= keys.remove(i));
    }
}

proof fn lemma_size(s: Seq<(Hotkey, String)>)
    requires
        distinct_keys(s),
    ensures
        entries_map(s).dom().finite(),
        entries_map(s).dom().len() == s.len(),
    decreases s.len(),
{
    if s.len() > 0 {
        lemma_distinct_prefix(s);
        lemma_size(s.drop_last());
    }
}

/// The scripts bound to hotkeys: at most one script for a hotkey.
#[derive(Debug)]
pub struct KeyScriptMap {
    entries: Vec<(Hotkey, String)>,
}

impl View for KeyScriptMap {
    type V = Map<HotkeyView, Seq<char>>;

    closed spec fn view(&self) -> Map<HotkeyView, Seq<char>> {
        entries_map(self.entries@)
    }
}

impl KeyScriptMap {
    /// No hotkey is held twice.
    pub closed spec fn wf(&self) -> bool {
        distinct_keys(self.entries@)
    }

    /// The hotkeys held, in the order in which they were first bound.
    pub closed spec fn keys(&self) -> Seq<HotkeyView> {
        keys_of(self.entries@)
    }

    /// The list of keys holds each bound hotkey once, and no other.
    pub proof fn lemma_keys(&self)
        requires
            self.wf(),
        ensures
            self@.dom().finite(),
            self.keys().len() == self@.dom().len(),
            forall|i: int|
                0 <= i < self.keys().len() ==> self@.contains_key(#[trigger] self.keys()[i]),
            forall|i: int, j: int|
                0 <= i < j < self.keys().len() ==> #[trigger] self.keys()[i]
                    != #[trigger] self.keys()[j],
    {
        lemma_size(self.entries@);
        assert forall|i: int| 0 <= i < self.keys().len() implies self@.contains_key(
            #[trigger] self.keys()[i],
        ) by {
            lemma_present(self.entries@, i);
        }
        assert forall|i: int, j: int| 0 <= i < j < self.keys().len() implies #[trigger] self.keys()[i]
            != #[trigger] self.keys()[j] by {
            assert(self.entries@[i].0@ != self.entries@[j].0@);
        }
    }

    /// The map without any binding.
    pub fn new() -> (r: KeyScriptMap)
        ensures
            r.wf(),
            r@ == Map::<HotkeyView, Seq<char>>::empty(),
            r.keys() == Seq::<HotkeyView>::empty(),
    {
        let r = KeyScriptMap { entries: Vec::new() };
        assert(r.keys() =~= Seq::<HotkeyView>::empty());
        r
    }

    fn position(&self, key: &Hotkey) -> (r: Option<usize>)
        ensures
            match r {
                Some(i) => i < self.entries@.len() && self.entries@[i as int].0@ == key@,
                None => forall|i: int|
                    0 <= i < self.entries@.len() ==> (#[trigger] self.entries@[i]).0@ != key@,
            },
    {
        let mut i: usize = 0;
        while i < self.entries.len()
            invariant
                i <= self.entries@.len(),
                forall|j: int| 0 <= j < i ==> (#[trigger] self.entries@[j]).0@ != key@,
            decreases self.entries@.len() - i,
        {
            if self.entries[i].0.same(key) {
                return Some(i);
            }
            i += 1;
        }
        None
    }

    /// The number of hotkeys bound.
    pub fn len(&self) -> (r: usize)
        requires
            self.wf(),
        ensures
            self@.dom().finite(),
            r == self@.dom().len(),
    {
        proof {
            lemma_size(self.entries@);
        }
        self.entries.len()
    }

    /// The hotkey at a position and its script.
    pub fn entry(&self, i: usize) -> (r: (&Hotkey, &String))
        requires
            self.wf(),
            i < self@.dom().len(),
        ensures
            r.0@ == self.keys()[i as int],
            self@.contains_key(r.0@),
            self@[r.0@] == r.1@,
    {
        proof {
            lemma_size(self.entries@);
            lemma_present(self.entries@, i as int);
        }
        (&self.entries[i].0, &self.entries[i].1)
    }

    /// The script bound to a hotkey.
    pub fn get(&self, key: &Hotkey) -> (r: Option<&String>)
        requires
            self.wf(),
        ensures
            match r {
                Some(script) => self@.contains_key(key@) && self@[key@] == script@,
                None => !self@.contains_key(key@),
            },
    {
        match self.position(key) {
            Some(i) => {
                proof {
                    lemma_present(self.entries@, i as int);
                }
                Some(&self.entries[i].1)
            },
            None => {
                proof {
                    lemma_absent(self.entries@, key@);
                }
                None
            },
        }
    }

    /// Binds a script to a hotkey, in place of the script bound to it before.
    pub fn insert(&mut self, key: Hotkey, script: String)
        requires
            old(self).wf(),
        ensures
            final(self).wf(),
            final(self)@ == old(self)@.insert(key@, script@),
            final(self).keys() == if old(self)@.contains_key(key@) {
                old(self).keys()
            } else {
                old(self).keys().push(key@)
            },
    {
        match self.position(&key) {
            Some(i) => {
                proof {
                    lemma_replace(self.entries@, i as int, (key, script));
                    lemma_present(self.entries@, i as int);
                    assert(keys_of(self.entries@.update(i as int, (key, script))) =~= keys_of(
                        self.entries@,
                    ));
                }
                self.entries.set(i, (key, script));
            },
            None => {
                proof {
                    let s = self.entries@;
                    let t = s.push((key, script));
                    assert(t.drop_last() =~= s);
                    lemma_absent(s, key@);
                    assert(keys_of(t) =~= keys_of(s).push(key@));
                    assert forall|a: int, b: int| #![trigger t[a], t[b]] 0 <= a < b
                        < t.len() implies t[a].0@ != t[b].0@ by {
                        if b < s.len() {
                            assert(t[a] == s[a] && t[b] == s[b]);
                        } else {
                            assert(t[a] == s[a]);
                        }
                    }
                }
                self.entries.push((key, script));
            },
        }
    }

    /// Takes a hotkey's binding away, if it has one.
    pub fn remove(&mut self, key: &Hotkey)
        requires
            old(self).wf(),
        ensures
            final(self).wf(),
            final(self)@ == old(self)@.remove(key@),
            final(self).keys() == without(old(self).keys(), key@),
    {
        match self.position(key) {
            Some(i) => {
                proof {
                    lemma_remove(self.entries@, i as int);
                    self.lemma_keys();
                    lemma_without_at(self.keys(), i as int);
                    assert(keys_of(self.entries@.remove(i as int)) =~= keys_of(
                        self.entries@,
                    ).remove(i as int));
                }
                let _ = self.entries.remove(i);
            },
            None => {
                proof {
                    lemma_absent(self.entries@, key@);
                    assert(self@.remove(key@) =~= self@);
                    lemma_without_absent(self.keys(), key@);
                }
            },
        }
    }

    /// The bindings that a configuration declares, and a report of each
    /// declaration that was left out because its key identifier names no key.
    pub fn from_config(config: Config) -> (r: (KeyScriptMap, Vec<KeyMappingError>))
        ensures
            r.0.wf(),
            r.0@ == bindings_of(config@),
            r.0.keys() == declared_order(config@),
            identifiers(r.1@) == rejected_of(config@),
    {
        let mut map = KeyScriptMap::new();
        let mut rejected: Vec<KeyMappingError> = Vec::new();
        let mut i: usize = 0;
        assert(config@.take(0) =~= Seq::<CommandView>::empty());
        assert(identifiers(rejected@) =~= Seq::<Seq<char>>::empty());
        while i < config.commands.len()
            invariant
                i <= config.commands@.len(),
                map.wf(),
                map@ == bindings_of(config@.take(i as int)),
                map.keys() == declared_order(config@.take(i as int)),
                identifiers(rejected@) == rejected_of(config@.take(i as int)),
            decreases config.commands@.len() - i,
        {
            let command = &config.commands[i];
            proof {
                let next = config@.take(i + 1);
                assert(next.drop_last() =~= config@.take(i as int));
                assert(next.last() == command@);
            }
            let ghost before = rejected@;
            match command.as_hotkey() {
                Ok(hotkey) => {
                    map.insert(hotkey, command.script.clone());
                },
                Err(e) => {
                    rejected.push(e);
                    assert(identifiers(rejected@) =~= identifiers(before).push(e@));
                },
            }
            i += 1;
        }
        assert(config@.take(i as int) =~= config@);
        (map, rejected)
    }
}

} // verus!
