//! The set of live registrations that is built from one configuration.

use vstd::prelude::*;
use crate::bindings::{
    bindings_of, declared_order, identifiers, rejected_of, without, KeyScriptMap,
};
use crate::config::{CommandView, Config, KeyMappingError};
use crate::keys::{exit_key, exit_key_view, Hotkey, HotkeyView};

verus! {

/// What a registered hotkey does when it is pressed.
#[derive(Clone, Debug, PartialEq, Eq)]
pub enum Action {
    /// Hand the script to the dispatch pool.
    Run(String),
    /// Set the termination signal.
    Terminate,
}

pub enum ActionView {
    Run(Seq<char>),
    Terminate,
}

impl View for Action {
    type V = ActionView;

    open spec fn view(&self) -> ActionView {
        match self {
            Action::Run(script) => ActionView::Run(script@),
            Action::Terminate => ActionView::Terminate,
        }
    }
}

/// Why a registry could not be installed.
#[derive(Clone, Copy, Debug, PartialEq, Eq, Structural)]
pub enum RegistryError {
    /// The hook could not be installed at all.
    HookUnavailable,
    /// The reserved combination could not be registered.
    ReservedRegistrationFailed,
}

/// The registrations that stand once the reserved combination has been
/// registered over a set of user bindings: the reserved combination
/// terminates, whatever a user bound to it, and every other bound hotkey runs
/// its script.
pub open spec fn with_exit_key(user: Map<HotkeyView, Seq<char>>) -> Map<HotkeyView, ActionView> {
    Map::new(
        |h: HotkeyView| h == exit_key_view() || user.contains_key(h),
        |h: HotkeyView|
            if h == exit_key_view() {
                ActionView::Terminate
            } else {
                ActionView::Run(user[h])
            },
    )
}

/// Whether the hook took the registration at a position. An answer that is
/// missing counts as a refusal.
pub open spec fn accepted_at(accepted: Seq<bool>, i: int) -> bool {
    0 <= i < accepted.len() && accepted[i]
}

/// Whether the hook refused a hotkey at one of the first `n` positions.
pub open spec fn refused_before(
    keys: Seq<HotkeyView>,
    accepted: Seq<bool>,
    n: int,
    hotkey: HotkeyView,
) -> bool {
    exists|j: int| 0 <= j < n && #[trigger] keys[j] == hotkey && !accepted_at(accepted, j)
}

/// The registrations left of `registry` once each hotkey that the hook
/// refused at one of the first `n` positions is taken away.
pub open spec fn standing_upto(
    registry: Map<HotkeyView, ActionView>,
    keys: Seq<HotkeyView>,
    accepted: Seq<bool>,
    n: int,
) -> Map<HotkeyView, ActionView> {
    Map::new(
        |h: HotkeyView| registry.contains_key(h) && !refused_before(keys, accepted, n, h),
        |h: HotkeyView| registry[h],
    )
}

/// The registrations that stand after a hook has answered for each user
/// binding: those that it took.
pub open spec fn standing(
    registry: Map<HotkeyView, ActionView>,
    keys: Seq<HotkeyView>,
    accepted: Seq<bool>,
) -> Map<HotkeyView, ActionView> {
    standing_upto(registry, keys, accepted, keys.len() as int)
}

/// The registrations that a list of declarations leads to.
pub open spec fn registry_of(commands: Seq<CommandView>) -> Map<HotkeyView, ActionView> {
    with_exit_key(bindings_of(commands))
}

/// The live registrations of one hook: the user bindings, and the reserved
/// combination, which is always there.
#[derive(Debug)]
pub struct Registry {
    bindings: KeyScriptMap,
}

impl View for Registry {
    type V = Map<HotkeyView, ActionView>;

    closed spec fn view(&self) -> Map<HotkeyView, ActionView> {
        with_exit_key(self.bindings@)
    }
}

impl Registry {
    /// No hotkey is held twice, and no user binding holds the reserved
    /// combination.
    pub closed spec fn wf(&self) -> bool {
        self.bindings.wf() && !self.bindings@.contains_key(exit_key_view())
    }

    /// The hotkeys of the user bindings, in the order in which a hook is to
    /// take them.
    pub closed spec fn user_keys(&self) -> Seq<HotkeyView> {
        self.bindings.keys()
    }

    /// Every registry holds the reserved combination, and it terminates.
    pub proof fn law_exit_key_held(&self)
        ensures
            self@.contains_key(exit_key_view()),
            self@[exit_key_view()] == ActionView::Terminate,
    {
    }

    /// The registry over a set of user bindings: the reserved combination
    /// terminates, whatever was bound to it, and every other hotkey keeps its
    /// script and its place in the order.
    pub fn from_bindings(bindings: KeyScriptMap) -> (r: Registry)
        requires
            bindings.wf(),
        ensures
            r.wf(),
            r@ == with_exit_key(bindings@),
            r.user_keys() == without(bindings.keys(), exit_key_view()),
    {
        let ghost given = bindings@;
        let mut user = bindings;
        let exit = exit_key();
        user.remove(&exit);
        let registry = Registry { bindings: user };
        assert(registry@ =~= with_exit_key(given));
        registry
    }

    /// The registry of a configuration: its user bindings in the order of
    /// declaration, the later of two for one hotkey, and over them the
    /// reserved combination. With it comes a report of each declaration left
    /// out because its key identifier names no key.
    pub fn build(config: Config) -> (r: (Registry, Vec<KeyMappingError>))
        ensures
            r.0.wf(),
            r.0@ == registry_of(config@),
            r.0@[exit_key_view()] == ActionView::Terminate,
            r.0.user_keys() == without(declared_order(config@), exit_key_view()),
            identifiers(r.1@) == rejected_of(config@),
    {
        let (bindings, rejected) = KeyScriptMap::from_config(config);
        (Registry::from_bindings(bindings), rejected)
    }

    /// What pressing a hotkey does; `None` where the hotkey is not registered.
    pub fn action_for(&self, hotkey: &Hotkey) -> (r: Option<Action>)
        requires
            self.wf(),
        ensures
            match r {
                Some(action) => self@.contains_key(hotkey@) && self@[hotkey@] == action@,
                None => !self@.contains_key(hotkey@),
            },
    {
        if hotkey.is_exit_key() {
            Some(Action::Terminate)
        } else {
            match self.bindings.get(hotkey) {
                Some(script) => Some(Action::Run(script.clone())),
                None => None,
            }
        }
    }

    /// The number of user bindings: one less than the number of registered
    /// hotkeys.
    pub fn user_bindings(&self) -> (r: usize)
        requires
            self.wf(),
        ensures
            self@.dom().finite(),
            r + 1 == self@.dom().len(),
    {
        let n = self.bindings.len();
        assert(self@.dom() =~= self.bindings@.dom().insert(exit_key_view()));
        n
    }

    /// The user binding at a position.
    pub fn user_binding(&self, i: usize) -> (r: (&Hotkey, &String))
        requires
            self.wf(),
            i + 1 < self@.dom().len(),
        ensures
            r.0@ == self.user_keys()[i as int],
            r.0@ != exit_key_view(),
            self@.contains_key(r.0@),
            self@[r.0@] == ActionView::Run(r.1@),
    {
        let n = self.bindings.len();
        assert(self@.dom() =~= self.bindings@.dom().insert(exit_key_view()));
        self.bindings.entry(i)
    }

    /// The registrations in the order in which a hook is to take them: the
    /// user bindings as they were first declared, each hotkey once, and last
    /// the reserved combination.
    pub fn registrations(&self) -> (r: Vec<(Hotkey, Action)>)
        requires
            self.wf(),
        ensures
            self@.dom().finite(),
            r@.len() == self@.dom().len(),
            r@.last().0@ == exit_key_view(),
            r@.last().1@ == ActionView::Terminate,
            forall|i: int|
                0 <= i < r@.len() ==> self@.contains_key((#[trigger] r@[i]).0@) && self@[r@[i].0@]
                    == r@[i].1@,
            r@.len() == self.user_keys().len() + 1,
            forall|i: int|
                0 <= i < r@.len() - 1 ==> (#[trigger] r@[i]).0@ == self.user_keys()[i],
            forall|i: int, j: int|
                #![trigger r@[i], r@[j]]
                0 <= i < j < r@.len() ==> r@[i].0@ != r@[j].0@,
    {
        let n = self.bindings.len();
        proof {
            self.bindings.lemma_keys();
            assert(self@.dom() =~= self.bindings@.dom().insert(exit_key_view()));
        }
        let mut out: Vec<(Hotkey, Action)> = Vec::new();
        let mut i: usize = 0;
        while i < n
            invariant
                self.wf(),
                self@.dom().finite(),
                n + 1 == self@.dom().len(),
                n == self.bindings@.dom().len(),
                n == self.bindings.keys().len(),
                self.bindings@.dom().finite(),
                i <= n,
                out@.len() == i,
                forall|k: int|
                    0 <= k < i ==> (#[trigger] out@[k]).0@ == self.bindings.keys()[k]
                        && self.bindings@.contains_key(out@[k].0@) && out@[k].1@
                        == ActionView::Run(self.bindings@[out@[k].0@]),
            decreases n - i,
        {
            let (hotkey, script) = self.bindings.entry(i);
            out.push((hotkey.copy(), Action::Run(script.clone())));
            i += 1;
        }
        out.push((exit_key(), Action::Terminate));
        proof {
            assert forall|a: int, b: int| #![trigger out@[a], out@[b]] 0 <= a < b
                < out@.len() implies out@[a].0@ != out@[b].0@ by {
                self.bindings.lemma_keys();
            }
        }
        out
    }

    /// Takes away a user binding that the hook refused. The reserved
    /// combination stays.
    pub fn unbind(&mut self, hotkey: &Hotkey)
        requires
            old(self).wf(),
        ensures
            final(self).wf(),
            final(self)@ == if hotkey@ == exit_key_view() {
                old(self)@
            } else {
                old(self)@.remove(hotkey@)
            },
            final(self).user_keys() == without(old(self).user_keys(), hotkey@),
    {
        self.bindings.remove(hotkey);
        assert(self@ =~= if hotkey@ == exit_key_view() {
            old(self)@
        } else {
            old(self)@.remove(hotkey@)
        });
    }

    /// The outcome of installing a registry into a hook, from what the hook
    /// answered: whether it could be created, and for each of the
    /// registrations, in their order, whether it was taken. An answer that is
    /// missing counts as a refusal. Without a hook, or without the reserved
    /// combination, the installation fails. Otherwise the registry stands,
    /// less the user bindings that the hook refused.
    pub fn installed(self, hook_created: bool, accepted: &Vec<bool>) -> (r: Result<
        Registry,
        RegistryError,
    >)
        requires
            self.wf(),
        ensures
            match r {
                Ok(registry) => hook_created && accepted_at(
                    accepted@,
                    self.user_keys().len() as int,
                ) && registry.wf() && registry@ == standing(
                    self@,
                    self.user_keys(),
                    accepted@,
                ),
                Err(RegistryError::HookUnavailable) => !hook_created,
                Err(RegistryError::ReservedRegistrationFailed) => hook_created && !accepted_at(
                    accepted@,
                    self.user_keys().len() as int,
                ),
            },
    {
        if !hook_created {
            return Err(RegistryError::HookUnavailable);
        }
        let order = self.registrations();
        let n = order.len() - 1;
        if !(n < accepted.len() && accepted[n]) {
            return Err(RegistryError::ReservedRegistrationFailed);
        }
        let ghost before = self@;
        let ghost keys = self.user_keys();
        let mut registry = self;
        let mut i: usize = 0;
        assert(registry@ =~= standing_upto(before, keys, accepted@, 0));
        while i < n
            invariant
                i <= n,
                n < accepted@.len(),
                n == keys.len(),
                order@.len() == n + 1,
                order@[n as int].0@ == exit_key_view(),
                forall|k: int| 0 <= k < n ==> (#[trigger] order@[k]).0@ == keys[k],
                forall|a: int, b: int|
                    #![trigger order@[a], order@[b]]
                    0 <= a < b < order@.len() ==> order@[a].0@ != order@[b].0@,
                registry.wf(),
                registry@ == standing_upto(before, keys, accepted@, i as int),
            decreases n - i,
        {
            let ghost earlier = registry@;
            if !accepted[i] {
                registry.unbind(&order[i].0);
            }
            proof {
                assert(order@[i as int].0@ != order@[n as int].0@);
                assert(keys[i as int] != exit_key_view());
                assert forall|h: HotkeyView|
                    refused_before(keys, accepted@, i + 1, h) <==> (refused_before(
                        keys,
                        accepted@,
                        i as int,
                        h,
                    ) || (keys[i as int] == h && !accepted@[i as int])) by {
                    if refused_before(keys, accepted@, i + 1, h) {
                        let j = choose|j: int|
                            0 <= j < i + 1 && #[trigger] keys[j] == h && !accepted_at(
                                accepted@,
                                j,
                            );
                        if j < i {
                            assert(refused_before(keys, accepted@, i as int, h));
                        }
                    }
                    if refused_before(keys, accepted@, i as int, h) {
                        let j = choose|j: int|
                            0 <= j < i && #[trigger] keys[j] == h && !accepted_at(accepted@, j);
                        assert(0 <= j < i + 1 && keys[j] == h && !accepted_at(accepted@, j));
                    }
                    if keys[i as int] == h && !accepted@[i as int] {
                        assert(0 <= i < i + 1 && keys[i as int] == h && !accepted_at(
                            accepted@,
                            i as int,
                        ));
                    }
                }
                assert(registry@ =~= standing_upto(before, keys, accepted@, i + 1));
            }
            i += 1;
        }
        Ok(registry)
    }
}

} // verus!
