use vstd::multiset::Multiset;
use vstd::prelude::*;
use vstd::std_specs::hash::group_hash_axioms;

use crate::action::KeyOutput;
use crate::action::KeyStroke;
use crate::action::resolve_batch;
use crate::action::strokes_of;
use crate::compensate::compensate;
use crate::compensate::compensated;
use crate::keys::HeldKeys;
use crate::keys::MODIFIER_COUNT;
use crate::keys::REMAP_MODIFIER;
use crate::keys::TOGGLE_KEY;
use crate::keys::modifier_key;
use crate::keys::modifier_keys;
use crate::suppression::SuppressionSet;
use crate::suppression::codes_of;
use crate::table::ExtensionMap;

verus! {

broadcast use {group_hash_axioms, vstd::multiset::group_multiset_axioms};

/// Which rule decides an event; the first that matches, in this order.
pub enum Route {
    /// The toggle key: drives the remap modifier.
    Toggle,
    /// A code that the interceptor injected itself and now sees again.
    Suppressed,
    /// The press of a trigger whose entry holds several actions.
    Chord,
    /// The release of a trigger whose entry holds several actions.
    ChordRelease,
    /// A press or release of a trigger whose entry holds one action.
    Single,
    /// Anything else.
    Pass,
}

/// The rule that decides an event on `vk` (a release if `is_release`), given the
/// table, the suppressed codes and the keys held at that moment.
pub open spec fn route_of(
    table: Map<i32, Seq<KeyOutput>>,
    pending: Multiset<i32>,
    held: HeldKeys,
    vk: i32,
    is_release: bool,
) -> Route {
    if vk == TOGGLE_KEY {
        Route::Toggle
    } else if pending.contains(vk) {
        Route::Suppressed
    } else if held.holds(REMAP_MODIFIER) && table.contains_key(vk) {
        if table[vk].len() > 1 {
            if is_release {
                Route::ChordRelease
            } else {
                Route::Chord
            }
        } else {
            Route::Single
        }
    } else {
        Route::Pass
    }
}

/// Releases of those of `keys` that `held` reports held, in order.
pub open spec fn releases_of_held(held: HeldKeys, keys: Seq<i32>) -> Seq<KeyStroke> {
    keys.filter(|m: i32| held.holds(m)).map_values(|m: i32| KeyStroke { code: m, is_release: true })
}

/// What the toggle key emits: the remap modifier, pressed or released as the
/// toggle key was; on a release, also a release of each tracked modifier that
/// is still reported held.
pub open spec fn toggle_strokes(held: HeldKeys, is_release: bool) -> Seq<KeyStroke> {
    let own = seq![KeyStroke { code: REMAP_MODIFIER, is_release }];
    if is_release {
        own + releases_of_held(held, modifier_keys())
    } else {
        own
    }
}

/// The synthetic events emitted for an event, as one batch, in order.
pub open spec fn strokes_for(
    table: Map<i32, Seq<KeyOutput>>,
    pending: Multiset<i32>,
    held: HeldKeys,
    vk: i32,
    is_release: bool,
) -> Seq<KeyStroke> {
    match route_of(table, pending, held, vk, is_release) {
        Route::Toggle => toggle_strokes(held, is_release),
        Route::Chord => strokes_of(compensated(held, table[vk]), false),
        Route::Single => seq![KeyStroke { code: table[vk][0].code, is_release }],
        _ => Seq::empty(),
    }
}

/// Whether the event is handed on, unmodified, to the next handler; otherwise
/// it is consumed.
pub open spec fn forwards(
    table: Map<i32, Seq<KeyOutput>>,
    pending: Multiset<i32>,
    held: HeldKeys,
    vk: i32,
    is_release: bool,
) -> bool {
    match route_of(table, pending, held, vk, is_release) {
        Route::Suppressed | Route::Pass => true,
        _ => false,
    }
}

/// The suppressed codes after the event: one copy of `vk` less when it was
/// suppressed, one more copy of each code of the batch when a chord went out.
pub open spec fn pending_after(
    table: Map<i32, Seq<KeyOutput>>,
    pending: Multiset<i32>,
    held: HeldKeys,
    vk: i32,
    is_release: bool,
) -> Multiset<i32> {
    match route_of(table, pending, held, vk, is_release) {
        Route::Suppressed => pending.remove(vk),
        Route::Chord => pending.add(codes_of(compensated(held, table[vk])).to_multiset()),
        _ => pending,
    }
}

/// What the interceptor does with one event: the batch to submit, and whether
/// to hand the event on to the next handler.
pub struct Reaction {
    pub strokes: Vec<KeyStroke>,
    pub forward: bool,
}

/// The toggle key's batch.
fn toggle_reaction(held: &HeldKeys, is_release: bool) -> (r: Vec<KeyStroke>)
    ensures
        r@ == toggle_strokes(*held, is_release),
{
    let mut out: Vec<KeyStroke> = Vec::new();
    out.push(KeyStroke { code: REMAP_MODIFIER, is_release });
    let ghost own = out@;
    if is_release {
        // a modifier pressed while remapping was active must not stay down
        let mut i: usize = 0;
        while i < MODIFIER_COUNT
            invariant
                i <= MODIFIER_COUNT,
                own == seq![KeyStroke { code: REMAP_MODIFIER, is_release }],
                out@ == own + releases_of_held(*held, modifier_keys().subrange(0, i as int)),
            decreases MODIFIER_COUNT - i,
        {
            let m = modifier_key(i);
            let ghost done = modifier_keys().subrange(0, i as int);
            assert(modifier_keys().subrange(0, i as int + 1) =~= done.push(m));
            proof {
                done.lemma_filter_push(m, |k: i32| held.holds(k));
            }
            if held.is_held(m) {
                out.push(KeyStroke { code: m, is_release: true });
            }
            assert(out@ =~= own + releases_of_held(*held, modifier_keys().subrange(0, i as int + 1)));
            i = i + 1;
        }
        assert(modifier_keys().subrange(0, MODIFIER_COUNT as int) =~= modifier_keys());
    } else {
        assert(out@ =~= toggle_strokes(*held, is_release));
    }
    out
}

/// Decides one keyboard event on `vk` (a release if `is_release`), given the
/// table and the keys held at this moment, and updates the suppressed codes.
pub fn handle_key_event(
    table: &ExtensionMap,
    pending: &mut SuppressionSet,
    held: &HeldKeys,
    vk: i32,
    is_release: bool,
) -> (r: Reaction)
    requires
        table.wf(),
    ensures
        r.strokes@ == strokes_for(table@, old(pending)@, *held, vk, is_release),
        r.forward == forwards(table@, old(pending)@, *held, vk, is_release),
        final(pending)@ == pending_after(table@, old(pending)@, *held, vk, is_release),
{
    if vk == TOGGLE_KEY {
        return Reaction { strokes: toggle_reaction(held, is_release), forward: false };
    }
    if pending.take(vk) {
        return Reaction { strokes: Vec::new(), forward: true };
    }
    assert(pending@ =~= old(pending)@);
    if held.is_held(REMAP_MODIFIER) {
        match table.key_map.get(&vk) {
            Some(entry) => {
                assert(table@.contains_key(vk) && table@[vk] == entry@);
                if entry.len() > 1 {
                    if is_release {
                        // the chord went out whole on the press
                        return Reaction { strokes: Vec::new(), forward: false };
                    }
                    let mut batch = entry.clone();
                    assert(batch@ =~= entry@);
                    compensate(held, &mut batch);
                    pending.register(&batch);
                    return Reaction { strokes: resolve_batch(&batch, false), forward: false };
                } else {
                    let mut strokes: Vec<KeyStroke> = Vec::new();
                    strokes.push(KeyStroke { code: entry[0].code, is_release });
                    assert(strokes@ =~= strokes_for(table@, old(pending)@, *held, vk, is_release));
                    return Reaction { strokes, forward: false };
                }
            },
            None => {},
        }
    }
    Reaction { strokes: Vec::new(), forward: true }
}

} // verus!
