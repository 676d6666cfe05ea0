use vstd::multiset::Multiset;
use vstd::prelude::*;

use crate::action::KeyOutput;

verus! {

broadcast use {vstd::seq_lib::group_to_multiset_ensures, vstd::multiset::group_multiset_axioms};

/// The key codes of `actions`, in order.
pub open spec fn codes_of(actions: Seq<KeyOutput>) -> Seq<i32> {
    actions.map_values(|k: KeyOutput| k.code)
}

/// Key codes that the interceptor injected itself and must let through, once
/// each, when they come back through the event stream. A code that was
/// injected twice is held twice.
pub struct SuppressionSet {
    codes: Vec<i32>,
}

impl View for SuppressionSet {
    type V = Multiset<i32>;

    closed spec fn view(&self) -> Multiset<i32> {
        self.codes@.to_multiset()
    }
}

impl SuppressionSet {
    /// An empty set.
    pub fn new() -> (r: SuppressionSet)
        ensures
            r@ == Multiset::<i32>::empty(),
    {
        let r = SuppressionSet { codes: Vec::new() };
        assert(r@ =~= Multiset::<i32>::empty()) by {
            assert(r.codes@ =~= Seq::<i32>::empty());
            vstd::multiset::lemma_multiset_empty_len::<i32>(r@);
        }
        r
    }

    /// Number of entries, counting each copy.
    pub fn len(&self) -> (r: usize)
        ensures
            r == self@.len(),
    {
        self.codes.len()
    }

    /// Whether `code` awaits its re-entrant event.
    pub fn contains(&self, code: i32) -> (r: bool)
        ensures
            r == self@.contains(code),
    {
        let mut i: usize = 0;
        while i < self.codes.len()
            invariant
                i <= self.codes@.len(),
                forall|j: int| 0 <= j < i ==> self.codes@[j] != code,
            decreases self.codes@.len() - i,
        {
            if self.codes[i] == code {
                assert(self.codes@.contains(code));
                return true;
            }
            i = i + 1;
        }
        assert(!self.codes@.contains(code));
        false
    }

    /// Removes one copy of `code`, if there is one, and says whether there was.
    pub fn take(&mut self, code: i32) -> (found: bool)
        ensures
            found == old(self)@.contains(code),
            final(self)@ == old(self)@.remove(code),
    {
        let mut i: usize = 0;
        while i < self.codes.len()
            invariant
                self.codes@ == old(self).codes@,
                i <= self.codes@.len(),
                forall|j: int| 0 <= j < i ==> self.codes@[j] != code,
            decreases self.codes@.len() - i,
        {
            if self.codes[i] == code {
                assert(self.codes@.contains(code));
                self.codes.remove(i);
                assert(self@ =~= old(self)@.remove(code));
                return true;
            }
            i = i + 1;
        }
        assert(!self.codes@.contains(code));
        assert(self@ =~= old(self)@.remove(code));
        false
    }

    /// Adds one copy of the code of each action in `actions`.
    pub fn register(&mut self, actions: &Vec<KeyOutput>)
        ensures
            final(self)@ == old(self)@.add(codes_of(actions@).to_multiset()),
    {
        let mut i: usize = 0;
        while i < actions.len()
            invariant
                i <= actions@.len(),
                self@ == old(self)@.add(codes_of(actions@.subrange(0, i as int)).to_multiset()),
            decreases actions@.len() - i,
        {
            let ghost before = self@;
            let ghost done = codes_of(actions@.subrange(0, i as int));
            self.codes.push(actions[i].code);
            assert(codes_of(actions@.subrange(0, i as int + 1)) =~= done.push(actions@[i as int].code));
            assert(self@ =~= old(self)@.add(codes_of(actions@.subrange(0, i as int + 1)).to_multiset()));
            i = i + 1;
        }
        assert(actions@.subrange(0, actions@.len() as int) =~= actions@);
    }
}

} // verus!
