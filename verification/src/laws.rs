//! What holds of every configuration and of every state of the daemon.

use vstd::prelude::*;
use crate::bindings::{bindings_of, rejected_of};
use crate::config::{hotkey_of, CommandView};
use crate::daemon::{pressed, reloaded, started, SupervisorView};
use crate::keys::{exit_key_view, HotkeyView};
use crate::registry::{accepted_at, registry_of, standing, ActionView, RegistryError};

verus! {

/// The number of declarations whose key identifier names a key.
pub open spec fn valid_count(commands: Seq<CommandView>) -> nat
    decreases commands.len(),
{
    if commands.len() == 0 {
        0
    } else {
        let earlier = valid_count(commands.drop_last());
        match hotkey_of(commands.last()) {
            Some(_) => earlier + 1,
            None => earlier,
        }
    }
}

/// No two declarations name the same hotkey.
pub open spec fn distinct_hotkeys(commands: Seq<CommandView>) -> bool {
    forall|i: int, j: int|
        #![trigger commands[i], commands[j]]
        0 <= i < j < commands.len() && hotkey_of(commands[i]).is_some() ==> hotkey_of(commands[i])
            != hotkey_of(commands[j])
}

/// No declaration names the reserved combination.
pub open spec fn spares_exit_key(commands: Seq<CommandView>) -> bool {
    forall|i: int|
        0 <= i < commands.len() ==> hotkey_of(#[trigger] commands[i]) != Some(exit_key_view())
}

/// A hotkey is bound exactly when a declaration names it.
pub proof fn law_bound_iff_declared(commands: Seq<CommandView>, hotkey: HotkeyView)
    ensures
        bindings_of(commands).contains_key(hotkey) <==> exists|i: int|
            0 <= i < commands.len() && hotkey_of(#[trigger] commands[i]) == Some(hotkey),
    decreases commands.len(),
{
    if commands.len() > 0 {
        let earlier = commands.drop_last();
        let last = commands.len() - 1;
        law_bound_iff_declared(earlier, hotkey);
        assert(commands.last() == commands[last]);
        if bindings_of(commands).contains_key(hotkey) {
            if hotkey_of(commands[last]) == Some(hotkey) {
            } else {
                let i = choose|i: int|
                    0 <= i < earlier.len() && hotkey_of(#[trigger] earlier[i]) == Some(hotkey);
                assert(earlier[i] == commands[i]);
            }
        }
        if exists|i: int|
            0 <= i < commands.len() && hotkey_of(#[trigger] commands[i]) == Some(hotkey) {
            let i = choose|i: int|
                0 <= i < commands.len() && hotkey_of(#[trigger] commands[i]) == Some(hotkey);
            if i < last {
                assert(earlier[i] == commands[i]);
            }
        }
    }
}

/// Of the declarations of one hotkey the last one stands: the hotkey is bound
/// to the script of a declaration that no later declaration of the same
/// hotkey follows.
pub proof fn law_last_declaration_wins(commands: Seq<CommandView>, i: int)
    requires
        0 <= i < commands.len(),
        hotkey_of(commands[i]).is_some(),
        forall|j: int|
            i < j < commands.len() ==> hotkey_of(#[trigger] commands[j]) != hotkey_of(commands[i]),
    ensures
        bindings_of(commands).contains_key(hotkey_of(commands[i]).unwrap()),
        bindings_of(commands)[hotkey_of(commands[i]).unwrap()] == commands[i].script,
    decreases commands.len(),
{
    let last = commands.len() - 1;
    assert(commands.last() == commands[last]);
    if i < last {
        let earlier = commands.drop_last();
        assert(earlier[i] == commands[i]);
        assert forall|j: int| i < j < earlier.len() implies hotkey_of(#[trigger] earlier[j])
            != hotkey_of(earlier[i]) by {
            assert(earlier[j] == commands[j]);
        }
        law_last_declaration_wins(earlier, i);
    }
}

/// Every declaration is either bound or reported, never both.
pub proof fn law_valid_and_rejected_add_up(commands: Seq<CommandView>)
    ensures
        valid_count(commands) + rejected_of(commands).len() == commands.len(),
    decreases commands.len(),
{
    if commands.len() > 0 {
        law_valid_and_rejected_add_up(commands.drop_last());
    }
}

/// Where the declarations name distinct hotkeys, and none the reserved
/// combination, the registry holds one hotkey for each declaration that names
/// a key, and the reserved combination besides; the declarations that name no
/// key are all reported and take nothing away from the others.
pub proof fn law_registered_count(commands: Seq<CommandView>)
    requires
        distinct_hotkeys(commands),
        spares_exit_key(commands),
    ensures
        registry_of(commands).dom().finite(),
        registry_of(commands).dom().len() == valid_count(commands) + 1,
        rejected_of(commands).len() == commands.len() - valid_count(commands),
{
    law_valid_and_rejected_add_up(commands);
    lemma_bound_count(commands);
    law_bound_iff_declared(commands, exit_key_view());
    assert(registry_of(commands).dom() =~= bindings_of(commands).dom().insert(exit_key_view()));
}

proof fn lemma_bound_count(commands: Seq<CommandView>)
    requires
        distinct_hotkeys(commands),
    ensures
        bindings_of(commands).dom().finite(),
        bindings_of(commands).dom().len() == valid_count(commands),
    decreases commands.len(),
{
    if commands.len() > 0 {
        let earlier = commands.drop_last();
        let last = commands.len() - 1;
        assert(commands.last() == commands[last]);
        assert forall|i: int, j: int|
            #![trigger earlier[i], earlier[j]]
            0 <= i < j < earlier.len() && hotkey_of(earlier[i]).is_some() implies hotkey_of(
            earlier[i],
        ) != hotkey_of(earlier[j]) by {
            assert(earlier[i] == commands[i] && earlier[j] == commands[j]);
        }
        lemma_bound_count(earlier);
        match hotkey_of(commands[last]) {
            Some(hotkey) => {
                law_bound_iff_declared(earlier, hotkey);
                if bindings_of(earlier).contains_key(hotkey) {
                    let i = choose|i: int|
                        0 <= i < earlier.len() && hotkey_of(#[trigger] earlier[i]) == Some(hotkey);
                    assert(earlier[i] == commands[i]);
                    assert(hotkey_of(commands[i]) != hotkey_of(commands[last]));
                }
            },
            None => {},
        }
    }
}

/// Where the hook takes every user binding, the registry stands as it was
/// built.
pub proof fn law_accepted_registry_stands(
    registry: Map<HotkeyView, ActionView>,
    keys: Seq<HotkeyView>,
    accepted: Seq<bool>,
)
    requires
        forall|j: int| 0 <= j < keys.len() ==> accepted_at(accepted, j),
    ensures
        standing(registry, keys, accepted) == registry,
{
    assert(standing(registry, keys, accepted) =~= registry);
}

/// A user binding that the hook refuses takes nothing away from the others:
/// a registered hotkey that the hook did not refuse stays, with its action.
pub proof fn law_refusal_spares_the_others(
    registry: Map<HotkeyView, ActionView>,
    keys: Seq<HotkeyView>,
    accepted: Seq<bool>,
    hotkey: HotkeyView,
)
    requires
        registry.contains_key(hotkey),
        forall|j: int| 0 <= j < keys.len() && keys[j] == hotkey ==> accepted_at(accepted, j),
    ensures
        standing(registry, keys, accepted).contains_key(hotkey),
        standing(registry, keys, accepted)[hotkey] == registry[hotkey],
{
}

/// Whatever a configuration declares, the reserved combination is registered
/// and terminates; pressing it sets the signal and runs no script, also
/// where a declaration names that combination.
pub proof fn law_exit_key_terminates(commands: Seq<CommandView>, s: SupervisorView)
    requires
        s.active == Some(registry_of(commands)),
    ensures
        registry_of(commands).contains_key(exit_key_view()),
        registry_of(commands)[exit_key_view()] == ActionView::Terminate,
        pressed(s, exit_key_view()).0.signal,
        pressed(s, exit_key_view()).1.is_none(),
{
}

/// The signal is set by the reserved combination and by a failed first
/// build, and by nothing else: a press sets it exactly when it is the
/// reserved combination, and a first build exactly when it fails.
pub proof fn law_only_exit_key_and_failed_start_signal(
    commands: Seq<CommandView>,
    s: SupervisorView,
    hotkey: HotkeyView,
    first: Result<Map<HotkeyView, ActionView>, RegistryError>,
    reload_ms: u64,
)
    requires
        s.active == Some(registry_of(commands)),
    ensures
        pressed(s, hotkey).0.signal == (s.signal || hotkey == exit_key_view()),
        started(first, reload_ms).signal == first.is_err(),
{
}

/// Pressing any other bound hotkey runs the script of its last declaration
/// and leaves the daemon's state as it is.
pub proof fn law_press_runs_last_declaration(
    commands: Seq<CommandView>,
    i: int,
    s: SupervisorView,
)
    requires
        0 <= i < commands.len(),
        hotkey_of(commands[i]).is_some(),
        hotkey_of(commands[i]) != Some(exit_key_view()),
        forall|j: int|
            i < j < commands.len() ==> hotkey_of(#[trigger] commands[j]) != hotkey_of(commands[i]),
        s.active == Some(registry_of(commands)),
    ensures
        pressed(s, hotkey_of(commands[i]).unwrap()) == (s, Some(commands[i].script)),
{
    law_last_declaration_wins(commands, i);
}

/// A reload from an unchanged source leaves the same hotkeys bound to the
/// same actions, and the signal as it was.
pub proof fn law_reload_of_unchanged_source(commands: Seq<CommandView>, s: SupervisorView)
    requires
        s.active == Some(registry_of(commands)),
    ensures
        reloaded(s, Ok(registry_of(commands))) == s,
{
}

/// A reload whose build fails leaves the live registry and the signal as
/// they were: every hotkey still does what it did.
pub proof fn law_failed_build_keeps_registry(s: SupervisorView, e: RegistryError)
    ensures
        reloaded(s, Err(e)) == s,
{
}

/// No reload sets or clears the signal, and after any reload of a running
/// daemon the reserved combination still terminates, whatever the source
/// held, a source without any declaration included.
pub proof fn law_reload_keeps_signal_and_exit_key(
    s: SupervisorView,
    commands: Seq<CommandView>,
)
    requires
        s.active.is_some(),
    ensures
        reloaded(s, Ok(registry_of(commands))).signal == s.signal,
        reloaded(s, Ok(registry_of(commands))).active == Some(registry_of(commands)),
        registry_of(commands)[exit_key_view()] == ActionView::Terminate,
        commands.len() == 0 ==> registry_of(commands) =~= map![exit_key_view() => ActionView::Terminate],
{
}

/// Once set, the signal stays set: neither a reload nor a key press clears
/// it.
pub proof fn law_signal_is_monotonic(
    s: SupervisorView,
    outcome: Result<Map<HotkeyView, ActionView>, RegistryError>,
    hotkey: HotkeyView,
)
    requires
        s.signal,
    ensures
        reloaded(s, outcome).signal,
        pressed(s, hotkey).0.signal,
{
}

} // verus!
