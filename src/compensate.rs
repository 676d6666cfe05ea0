use vstd::prelude::*;

use crate::action::KeyOutput;
use crate::action::KeyState;
use crate::keys::HeldKeys;
use crate::keys::MODIFIER_COUNT;
use crate::keys::modifier_key;
use crate::keys::modifier_keys;

verus! {

/// A press of `code` followed by its release.
pub open spec fn tap(code: i32) -> Seq<KeyOutput> {
    seq![KeyOutput { code, state: KeyState::Down }, KeyOutput { code, state: KeyState::Up }]
}

/// `actions` after compensating for the first `n` tracked modifiers: each one
/// that `held` reports held puts a tap of itself at the front.
pub open spec fn compensated_upto(held: HeldKeys, actions: Seq<KeyOutput>, n: nat) -> Seq<
    KeyOutput,
>
    decreases n,
{
    if n == 0 {
        actions
    } else {
        let before = compensated_upto(held, actions, (n - 1) as nat);
        let m = modifier_keys()[n - 1];
        if held.holds(m) {
            tap(m) + before
        } else {
            before
        }
    }
}

/// `actions` compensated for all six tracked modifiers.
pub open spec fn compensated(held: HeldKeys, actions: Seq<KeyOutput>) -> Seq<KeyOutput> {
    compensated_upto(held, actions, MODIFIER_COUNT as nat)
}

/// If `vk` is reported held, puts a press and a release of it at the front of
/// `actions`.
fn compensate_key(held: &HeldKeys, vk: i32, actions: &mut Vec<KeyOutput>)
    ensures
        held.holds(vk) ==> final(actions)@ == tap(vk) + old(actions)@,
        !held.holds(vk) ==> final(actions)@ == old(actions)@,
{
    if held.is_held(vk) {
        actions.insert(0, KeyOutput::up(vk));
        actions.insert(0, KeyOutput::down(vk));
        assert(actions@ =~= tap(vk) + old(actions)@);
    }
}

/// Brackets a chord that is about to be emitted with a tap of each tracked
/// modifier that is reported held, the last examined ending up in front.
pub fn compensate(held: &HeldKeys, actions: &mut Vec<KeyOutput>)
    ensures
        final(actions)@ == compensated(*held, old(actions)@),
{
    let mut i: usize = 0;
    while i < MODIFIER_COUNT
        invariant
            i <= MODIFIER_COUNT,
            actions@ == compensated_upto(*held, old(actions)@, i as nat),
        decreases MODIFIER_COUNT - i,
    {
        compensate_key(held, modifier_key(i), actions);
        i = i + 1;
    }
}

} // verus!
