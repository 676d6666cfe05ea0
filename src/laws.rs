//! Laws of the event handler, stated over the functions that
//! `handle_key_event`'s contract speaks of.
use vstd::multiset::Multiset;
use vstd::prelude::*;

use crate::action::KeyOutput;
use crate::action::KeyState;
use crate::action::KeyStroke;
use crate::action::strokes_of;
use crate::compensate::compensated;
use crate::compensate::compensated_upto;
use crate::dispatch::Route;
use crate::dispatch::forwards;
use crate::dispatch::pending_after;
use crate::dispatch::releases_of_held;
use crate::dispatch::route_of;
use crate::dispatch::strokes_for;
use crate::keys::HeldKeys;
use crate::keys::MODIFIER_COUNT;
use crate::keys::REMAP_MODIFIER;
use crate::keys::TOGGLE_KEY;
use crate::keys::modifier_keys;
use crate::suppression::codes_of;

verus! {

broadcast use vstd::multiset::group_multiset_axioms;

/// A trigger mapped to `[FollowExisting(x)]` follows its own edges: while the
/// remap modifier is held, its press emits exactly one press of `x` and its
/// release, right after, exactly one release of `x`. Both are consumed and
/// nothing is added to the suppressed codes.
pub proof fn lemma_follow_tracks_edges(
    table: Map<i32, Seq<KeyOutput>>,
    pending: Multiset<i32>,
    held: HeldKeys,
    vk: i32,
    x: i32,
)
    requires
        vk != TOGGLE_KEY,
        !pending.contains(vk),
        held.holds(REMAP_MODIFIER),
        table.contains_key(vk),
        table[vk] == seq![KeyOutput { code: x, state: KeyState::FollowExisting }],
    ensures
        strokes_for(table, pending, held, vk, false) == seq![KeyStroke { code: x, is_release: false }],
        !forwards(table, pending, held, vk, false),
        pending_after(table, pending, held, vk, false) == pending,
        strokes_for(table, pending_after(table, pending, held, vk, false), held, vk, true)
            == seq![KeyStroke { code: x, is_release: true }],
        !forwards(table, pending_after(table, pending, held, vk, false), held, vk, true),
        pending_after(table, pending_after(table, pending, held, vk, false), held, vk, true)
            == pending,
{
}

/// While the remap modifier is held, the press of a trigger with several
/// actions emits the whole compensated batch, in order, and adds one copy of
/// each of its codes to the suppressed codes; the release of that trigger
/// emits nothing, is consumed, and changes nothing.
pub proof fn lemma_chord_fires_on_press(
    table: Map<i32, Seq<KeyOutput>>,
    pending: Multiset<i32>,
    held: HeldKeys,
    vk: i32,
)
    requires
        vk != TOGGLE_KEY,
        !pending.contains(vk),
        held.holds(REMAP_MODIFIER),
        table.contains_key(vk),
        table[vk].len() > 1,
    ensures
        strokes_for(table, pending, held, vk, false) == strokes_of(
            compensated(held, table[vk]),
            false,
        ),
        !forwards(table, pending, held, vk, false),
        pending_after(table, pending, held, vk, false) == pending.add(
            codes_of(compensated(held, table[vk])).to_multiset(),
        ),
        strokes_for(table, pending, held, vk, true) == Seq::<KeyStroke>::empty(),
        !forwards(table, pending, held, vk, true),
        pending_after(table, pending, held, vk, true) == pending,
{
}

/// A suppressed code is let through once: its next event is handed on
/// unmodified, emits nothing and removes exactly one copy. When that was the
/// last copy, a later event on the same code is not suppressed.
pub proof fn lemma_suppressed_once(
    table: Map<i32, Seq<KeyOutput>>,
    pending: Multiset<i32>,
    held: HeldKeys,
    later: HeldKeys,
    code: i32,
    is_release: bool,
    later_release: bool,
)
    requires
        code != TOGGLE_KEY,
        pending.contains(code),
    ensures
        forwards(table, pending, held, code, is_release),
        strokes_for(table, pending, held, code, is_release) == Seq::<KeyStroke>::empty(),
        pending_after(table, pending, held, code, is_release) == pending.remove(code),
        pending_after(table, pending, held, code, is_release).count(code) == pending.count(code) - 1,
        pending.count(code) == 1 ==> route_of(
            table,
            pending_after(table, pending, held, code, is_release),
            later,
            code,
            later_release,
        ) != Route::Suppressed,
{
}

/// What a filter keeps satisfies the predicate, is kept from the sequence,
/// and nothing that satisfies it is dropped.
proof fn lemma_filter_pred_and_subset(s: Seq<i32>, pred: spec_fn(i32) -> bool)
    ensures
        forall|i: int| 0 <= i < s.filter(pred).len() ==> pred(#[trigger] s.filter(pred)[i]),
        forall|i: int| 0 <= i < s.filter(pred).len() ==> s.contains(#[trigger] s.filter(pred)[i]),
        forall|i: int| 0 <= i < s.len() && pred(s[i]) ==> #[trigger] s.filter(pred).contains(s[i]),
    decreases s.len(),
{
    broadcast use vstd::seq_lib::group_filter_ensures;

    if s.len() == 0 {
        reveal(Seq::filter);
    } else {
        let init = s.drop_last();
        lemma_filter_pred_and_subset(init, pred);
        assert(s =~= init.push(s.last()));
        init.lemma_filter_push(s.last(), pred);
        assert forall|i: int| 0 <= i < s.filter(pred).len() implies s.contains(
            #[trigger] s.filter(pred)[i],
        ) by {
            if i < init.filter(pred).len() {
                assert(init.contains(init.filter(pred)[i]));
                let j = choose|j: int| 0 <= j < init.len() && init[j] == init.filter(pred)[i];
                assert(s[j] == init[j]);
            } else {
                assert(s[s.len() - 1] == s.last());
            }
        }
    }
}

/// The toggle key drives the remap modifier: a press emits a press of it and
/// nothing else; a release emits a release of it first, then a release of
/// exactly those tracked modifiers that are reported held. It is always
/// consumed and leaves the suppressed codes alone.
pub proof fn lemma_toggle_drives_modifier(
    table: Map<i32, Seq<KeyOutput>>,
    pending: Multiset<i32>,
    held: HeldKeys,
    is_release: bool,
)
    ensures
        !forwards(table, pending, held, TOGGLE_KEY, is_release),
        pending_after(table, pending, held, TOGGLE_KEY, is_release) == pending,
        !is_release ==> strokes_for(table, pending, held, TOGGLE_KEY, is_release) == seq![
            KeyStroke { code: REMAP_MODIFIER, is_release: false },
        ],
        is_release ==> strokes_for(table, pending, held, TOGGLE_KEY, is_release)[0] == (KeyStroke {
            code: REMAP_MODIFIER,
            is_release: true,
        }),
        is_release ==> forall|m: i32|
            modifier_keys().contains(m) && held.holds(m) ==> strokes_for(
                table,
                pending,
                held,
                TOGGLE_KEY,
                is_release,
            ).contains(KeyStroke { code: m, is_release: true }),
        is_release ==> forall|i: int|
            1 <= i < strokes_for(table, pending, held, TOGGLE_KEY, is_release).len() ==> {
                let s = #[trigger] strokes_for(table, pending, held, TOGGLE_KEY, is_release)[i];
                s.is_release && modifier_keys().contains(s.code) && held.holds(s.code)
            },
{
    let s = strokes_for(table, pending, held, TOGGLE_KEY, is_release);
    if is_release {
        let pred = |m: i32| held.holds(m);
        let kept = modifier_keys().filter(pred);
        let rel = releases_of_held(held, modifier_keys());
        lemma_filter_pred_and_subset(modifier_keys(), pred);
        assert(s == seq![KeyStroke { code: REMAP_MODIFIER, is_release: true }] + rel);
        assert forall|m: i32| modifier_keys().contains(m) && held.holds(m) implies s.contains(
            KeyStroke { code: m, is_release: true },
        ) by {
            let j = choose|j: int| 0 <= j < modifier_keys().len() && modifier_keys()[j] == m;
            assert(pred(modifier_keys()[j]));
            assert(kept.contains(m));
            let k = choose|k: int| 0 <= k < kept.len() && kept[k] == m;
            assert(rel[k] == KeyStroke { code: m, is_release: true });
            assert(s[k + 1] == KeyStroke { code: m, is_release: true });
        }
        assert forall|i: int| 1 <= i < s.len() implies {
            let t = #[trigger] s[i];
            t.is_release && modifier_keys().contains(t.code) && held.holds(t.code)
        } by {
            assert(s[i] == rel[i - 1]);
            assert(pred(kept[i - 1]));
            assert(modifier_keys().contains(kept[i - 1]));
        }
    }
}

/// An event on a key without an entry, or while the remap modifier is not
/// held, is handed on unmodified, emits nothing and changes nothing, unless it
/// is the toggle key or a suppressed code.
pub proof fn lemma_unmapped_passes(
    table: Map<i32, Seq<KeyOutput>>,
    pending: Multiset<i32>,
    held: HeldKeys,
    vk: i32,
    is_release: bool,
)
    requires
        vk != TOGGLE_KEY,
        !pending.contains(vk),
        !table.contains_key(vk) || !held.holds(REMAP_MODIFIER),
    ensures
        forwards(table, pending, held, vk, is_release),
        strokes_for(table, pending, held, vk, is_release) == Seq::<KeyStroke>::empty(),
        pending_after(table, pending, held, vk, is_release) == pending,
{
}

/// The suppressed codes after `events` are fed in order, starting from
/// `pending`.
pub open spec fn pending_after_all(
    table: Map<i32, Seq<KeyOutput>>,
    pending: Multiset<i32>,
    held: HeldKeys,
    events: Seq<KeyStroke>,
) -> Multiset<i32>
    decreases events.len(),
{
    if events.len() == 0 {
        pending
    } else {
        let e = events[0];
        pending_after_all(
            table,
            pending_after(table, pending, held, e.code, e.is_release),
            held,
            events.drop_first(),
        )
    }
}

/// Whether each of `events`, fed in order starting from `pending`, is handed
/// on unmodified and emits nothing.
pub open spec fn all_let_through(
    table: Map<i32, Seq<KeyOutput>>,
    pending: Multiset<i32>,
    held: HeldKeys,
    events: Seq<KeyStroke>,
) -> bool
    decreases events.len(),
{
    if events.len() == 0 {
        true
    } else {
        let e = events[0];
        forwards(table, pending, held, e.code, e.is_release) && strokes_for(
            table,
            pending,
            held,
            e.code,
            e.is_release,
        ) == Seq::<KeyStroke>::empty() && all_let_through(
            table,
            pending_after(table, pending, held, e.code, e.is_release),
            held,
            events.drop_first(),
        )
    }
}

/// The codes of a batch of events, in order.
pub open spec fn stroke_codes(events: Seq<KeyStroke>) -> Seq<i32> {
    events.map_values(|e: KeyStroke| e.code)
}

/// A batch whose codes were all registered comes back through the handler
/// without being taken for new input: each of its events is handed on
/// unmodified and emits nothing, and once all are through the suppressed
/// codes are what they were before the registration.
pub proof fn lemma_injected_batch_returns(
    table: Map<i32, Seq<KeyOutput>>,
    pending: Multiset<i32>,
    held: HeldKeys,
    events: Seq<KeyStroke>,
)
    requires
        forall|i: int| 0 <= i < events.len() ==> (#[trigger] events[i]).code != TOGGLE_KEY,
    ensures
        all_let_through(table, pending.add(stroke_codes(events).to_multiset()), held, events),
        pending_after_all(table, pending.add(stroke_codes(events).to_multiset()), held, events)
            == pending,
    decreases events.len(),
{
    broadcast use vstd::seq_lib::group_to_multiset_ensures;

    let all = pending.add(stroke_codes(events).to_multiset());
    if events.len() == 0 {
        assert(stroke_codes(events).to_multiset() =~= Multiset::<i32>::empty()) by {
            assert(stroke_codes(events) =~= Seq::<i32>::empty());
            vstd::multiset::lemma_multiset_empty_len(stroke_codes(events).to_multiset());
        }
        assert(all =~= pending);
    } else {
        let e = events[0];
        let rest = events.drop_first();
        assert(stroke_codes(events).remove(0) =~= stroke_codes(rest));
        assert(stroke_codes(events)[0] == e.code);
        assert(stroke_codes(events).to_multiset().contains(e.code)) by {
            assert(stroke_codes(events).contains(e.code));
        }
        assert(all.contains(e.code));
        assert(all.remove(e.code) =~= pending.add(stroke_codes(rest).to_multiset()));
        assert forall|i: int| 0 <= i < rest.len() implies (#[trigger] rest[i]).code != TOGGLE_KEY by {
            assert(rest[i] == events[i + 1]);
        }
        lemma_injected_batch_returns(table, pending, held, rest);
    }
}

/// A chord's whole round: while the remap modifier is held, the press of a
/// trigger with several actions emits the compensated batch; that batch, coming
/// back through the handler, is let through event by event and leaves the
/// suppressed codes as they were; the release of the trigger that follows emits
/// nothing and is consumed.
pub proof fn lemma_chord_round(
    table: Map<i32, Seq<KeyOutput>>,
    pending: Multiset<i32>,
    held: HeldKeys,
    vk: i32,
)
    requires
        vk != TOGGLE_KEY,
        !pending.contains(vk),
        held.holds(REMAP_MODIFIER),
        table.contains_key(vk),
        table[vk].len() > 1,
        forall|i: int| 0 <= i < table[vk].len() ==> (#[trigger] table[vk][i]).code != TOGGLE_KEY,
    ensures
        ({
            let batch = strokes_for(table, pending, held, vk, false);
            let registered = pending_after(table, pending, held, vk, false);
            &&& batch == strokes_of(compensated(held, table[vk]), false)
            &&& all_let_through(table, registered, held, batch)
            &&& pending_after_all(table, registered, held, batch) == pending
            &&& strokes_for(table, pending, held, vk, true) == Seq::<KeyStroke>::empty()
            &&& !forwards(table, pending, held, vk, true)
        }),
{
    let chord = compensated(held, table[vk]);
    let batch = strokes_of(chord, false);
    lemma_compensated_keeps_codes(held, table[vk]);
    assert(stroke_codes(batch) =~= codes_of(chord));
    assert forall|i: int| 0 <= i < batch.len() implies (#[trigger] batch[i]).code != TOGGLE_KEY by {
        assert(batch[i].code == chord[i].code);
    }
    lemma_injected_batch_returns(table, pending, held, batch);
}

/// Compensation only adds taps of tracked modifiers in front: every code of
/// the result is a tracked modifier or a code of the original sequence.
pub proof fn lemma_compensated_keeps_codes(held: HeldKeys, actions: Seq<KeyOutput>)
    ensures
        forall|i: int|
            0 <= i < compensated(held, actions).len() ==> {
                let c = (#[trigger] compensated(held, actions)[i]).code;
                modifier_keys().contains(c) || exists|j: int|
                    0 <= j < actions.len() && actions[j].code == c
            },
{
    lemma_compensated_upto_keeps_codes(held, actions, MODIFIER_COUNT as nat);
}

proof fn lemma_compensated_upto_keeps_codes(held: HeldKeys, actions: Seq<KeyOutput>, n: nat)
    requires
        n <= MODIFIER_COUNT,
    ensures
        forall|i: int|
            0 <= i < compensated_upto(held, actions, n).len() ==> {
                let c = (#[trigger] compensated_upto(held, actions, n)[i]).code;
                modifier_keys().contains(c) || exists|j: int|
                    0 <= j < actions.len() && actions[j].code == c
            },
    decreases n,
{
    if n > 0 {
        lemma_compensated_upto_keeps_codes(held, actions, (n - 1) as nat);
        let before = compensated_upto(held, actions, (n - 1) as nat);
        let m = modifier_keys()[n - 1];
        assert(modifier_keys().contains(m));
        if held.holds(m) {
            assert forall|i: int| 0 <= i < compensated_upto(held, actions, n).len() implies {
                let c = (#[trigger] compensated_upto(held, actions, n)[i]).code;
                modifier_keys().contains(c) || exists|j: int|
                    0 <= j < actions.len() && actions[j].code == c
            } by {
                if i >= 2 {
                    assert(compensated_upto(held, actions, n)[i] == before[i - 2]);
                }
            }
        }
    }
}

} // verus!
