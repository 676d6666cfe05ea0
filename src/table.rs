use std::collections::HashMap;
use vstd::prelude::*;
use vstd::std_specs::hash::group_hash_axioms;

use crate::action::KeyOutput;
use crate::action::KeyState;
use crate::keys::{
    VK_0,
    VK_1,
    VK_2,
    VK_3,
    VK_4,
    VK_5,
    VK_6,
    VK_7,
    VK_8,
    VK_9,
    VK_A,
    VK_BACK,
    VK_BROWSER_BACK,
    VK_BROWSER_FORWARD,
    VK_C,
    VK_CAPITAL,
    VK_D,
    VK_DELETE,
    VK_DOWN,
    VK_E,
    VK_END,
    VK_ESCAPE,
    VK_F,
    VK_F1,
    VK_F10,
    VK_F11,
    VK_F12,
    VK_F2,
    VK_F3,
    VK_F4,
    VK_F5,
    VK_F6,
    VK_F7,
    VK_F8,
    VK_F9,
    VK_G,
    VK_H,
    VK_HOME,
    VK_I,
    VK_INSERT,
    VK_J,
    VK_K,
    VK_L,
    VK_LCONTROL,
    VK_LEFT,
    VK_LMENU,
    VK_LSHIFT,
    VK_LWIN,
    VK_M,
    VK_NEXT,
    VK_O,
    VK_OEM_3,
    VK_OEM_4,
    VK_OEM_COMMA,
    VK_OEM_MINUS,
    VK_P,
    VK_PRIOR,
    VK_Q,
    VK_R,
    VK_RETURN,
    VK_RIGHT,
    VK_RMENU,
    VK_S,
    VK_SPACE,
    VK_T,
    VK_U,
    VK_UP,
    VK_V,
    VK_W,
    VK_X,
    VK_Y,
    VK_Z,
};

verus! {

broadcast use group_hash_axioms;

/// `[FollowExisting(code)]`: the trigger is rewritten into `code`.
pub open spec fn follows(code: i32) -> Seq<KeyOutput> {
    seq![KeyOutput { code, state: KeyState::FollowExisting }]
}

/// `modifier + key` as one chord: press the modifier, press and release the
/// key, release the modifier.
pub open spec fn chord(modifier: i32, key: i32) -> Seq<KeyOutput> {
    seq![
        KeyOutput { code: modifier, state: KeyState::Down },
        KeyOutput { code: key, state: KeyState::Down },
        KeyOutput { code: key, state: KeyState::Up },
        KeyOutput { code: modifier, state: KeyState::Up },
    ]
}

/// The built-in remap table.
pub open spec fn remap_table() -> Map<i32, Seq<KeyOutput>> {
    Map::empty()
        // number row: function keys
        .insert(VK_1, follows(VK_F1))
        .insert(VK_2, follows(VK_F2))
        .insert(VK_3, follows(VK_F3))
        .insert(VK_4, follows(VK_F4))
        .insert(VK_5, follows(VK_F5))
        .insert(VK_6, follows(VK_F6))
        .insert(VK_7, follows(VK_F7))
        .insert(VK_8, follows(VK_F8))
        .insert(VK_9, follows(VK_F9))
        .insert(VK_0, follows(VK_F10))
        .insert(VK_OEM_4, follows(VK_F11))
        .insert(VK_OEM_MINUS, follows(VK_F12))
        // top row
        .insert(VK_A, follows(VK_ESCAPE))
        .insert(VK_Z, follows(VK_BROWSER_BACK))
        .insert(VK_E, chord(VK_LCONTROL, VK_F))
        .insert(VK_R, follows(VK_BROWSER_FORWARD))
        .insert(VK_T, follows(VK_INSERT))
        .insert(VK_Y, follows(VK_PRIOR))
        .insert(VK_U, follows(VK_HOME))
        .insert(VK_I, follows(VK_UP))
        .insert(VK_O, follows(VK_END))
        .insert(VK_P, chord(VK_LSHIFT, VK_F10))
        // middle row
        .insert(VK_Q, follows(VK_LMENU))
        .insert(VK_S, follows(VK_LWIN))
        .insert(VK_D, follows(VK_LSHIFT))
        .insert(VK_F, follows(VK_LCONTROL))
        .insert(VK_G, follows(VK_RMENU))
        .insert(VK_H, follows(VK_NEXT))
        .insert(VK_J, follows(VK_LEFT))
        .insert(VK_K, follows(VK_DOWN))
        .insert(VK_L, follows(VK_RIGHT))
        .insert(VK_M, follows(VK_DELETE))
        .insert(VK_OEM_3, follows(VK_CAPITAL))
        // bottom row
        .insert(VK_W, chord(VK_LCONTROL, VK_Z))
        .insert(VK_X, chord(VK_LCONTROL, VK_X))
        .insert(VK_C, chord(VK_LCONTROL, VK_C))
        .insert(VK_V, chord(VK_LCONTROL, VK_V))
        .insert(VK_OEM_COMMA, follows(VK_BACK))
        .insert(VK_SPACE, follows(VK_RETURN))
}

/// A remap table: trigger key code to the ordered, non-empty sequence of
/// actions that replaces it.
pub struct ExtensionMap {
    pub key_map: HashMap<i32, Vec<KeyOutput>>,
}

impl View for ExtensionMap {
    type V = Map<i32, Seq<KeyOutput>>;

    open spec fn view(&self) -> Map<i32, Seq<KeyOutput>> {
        self.key_map@.map_values(|v: Vec<KeyOutput>| v@)
    }
}

/// Every entry of `table` holds at least one action.
pub open spec fn entries_non_empty(table: Map<i32, Seq<KeyOutput>>) -> bool {
    forall|c: i32| #[trigger] table.contains_key(c) ==> table[c].len() > 0
}

fn follow_one(code: i32) -> (r: Vec<KeyOutput>)
    ensures
        r@ == follows(code),
{
    let mut v: Vec<KeyOutput> = Vec::new();
    v.push(KeyOutput::follow(code));
    assert(v@ =~= follows(code));
    v
}

fn chord_of(modifier: i32, key: i32) -> (r: Vec<KeyOutput>)
    ensures
        r@ == chord(modifier, key),
{
    let mut v: Vec<KeyOutput> = Vec::new();
    v.push(KeyOutput::down(modifier));
    v.push(KeyOutput::down(key));
    v.push(KeyOutput::up(key));
    v.push(KeyOutput::up(modifier));
    assert(v@ =~= chord(modifier, key));
    v
}

impl ExtensionMap {
    /// Every entry holds at least one action.
    pub open spec fn wf(&self) -> bool {
        entries_non_empty(self@)
    }

    /// The built-in table.
    #[verifier::rlimit(50)]
    pub fn new() -> (r: ExtensionMap)
        ensures
            r@ == remap_table(),
            r.wf(),
    {
        let mut key_map: HashMap<i32, Vec<KeyOutput>> = HashMap::new();

        // number row: function keys
        key_map.insert(VK_1, follow_one(VK_F1));
        key_map.insert(VK_2, follow_one(VK_F2));
        key_map.insert(VK_3, follow_one(VK_F3));
        key_map.insert(VK_4, follow_one(VK_F4));
        key_map.insert(VK_5, follow_one(VK_F5));
        key_map.insert(VK_6, follow_one(VK_F6));
        key_map.insert(VK_7, follow_one(VK_F7));
        key_map.insert(VK_8, follow_one(VK_F8));
        key_map.insert(VK_9, follow_one(VK_F9));
        key_map.insert(VK_0, follow_one(VK_F10));
        key_map.insert(VK_OEM_4, follow_one(VK_F11));
        key_map.insert(VK_OEM_MINUS, follow_one(VK_F12));

        // top row
        key_map.insert(VK_A, follow_one(VK_ESCAPE));
        key_map.insert(VK_Z, follow_one(VK_BROWSER_BACK));
        key_map.insert(VK_E, chord_of(VK_LCONTROL, VK_F));
        key_map.insert(VK_R, follow_one(VK_BROWSER_FORWARD));
        key_map.insert(VK_T, follow_one(VK_INSERT));
        key_map.insert(VK_Y, follow_one(VK_PRIOR));
        key_map.insert(VK_U, follow_one(VK_HOME));
        key_map.insert(VK_I, follow_one(VK_UP));
        key_map.insert(VK_O, follow_one(VK_END));
        // shift + F10 opens the context menu
        key_map.insert(VK_P, chord_of(VK_LSHIFT, VK_F10));

        // middle row
        key_map.insert(VK_Q, follow_one(VK_LMENU));
        key_map.insert(VK_S, follow_one(VK_LWIN));
        key_map.insert(VK_D, follow_one(VK_LSHIFT));
        key_map.insert(VK_F, follow_one(VK_LCONTROL));
        key_map.insert(VK_G, follow_one(VK_RMENU));
        key_map.insert(VK_H, follow_one(VK_NEXT));
        key_map.insert(VK_J, follow_one(VK_LEFT));
        key_map.insert(VK_K, follow_one(VK_DOWN));
        key_map.insert(VK_L, follow_one(VK_RIGHT));
        key_map.insert(VK_M, follow_one(VK_DELETE));
        key_map.insert(VK_OEM_3, follow_one(VK_CAPITAL));

        // bottom row: undo, cut, copy, paste
        key_map.insert(VK_W, chord_of(VK_LCONTROL, VK_Z));
        key_map.insert(VK_X, chord_of(VK_LCONTROL, VK_X));
        key_map.insert(VK_C, chord_of(VK_LCONTROL, VK_C));
        key_map.insert(VK_V, chord_of(VK_LCONTROL, VK_V));
        key_map.insert(VK_OEM_COMMA, follow_one(VK_BACK));
        key_map.insert(VK_SPACE, follow_one(VK_RETURN));

        let r = ExtensionMap { key_map };
        assert(r@ =~= remap_table());
        r
    }
    /// A table without entries.
    pub fn empty() -> (r: ExtensionMap)
        ensures
            r@ == Map::<i32, Seq<KeyOutput>>::empty(),
            r.wf(),
    {
        let r = ExtensionMap { key_map: HashMap::new() };
        assert(r@ =~= Map::<i32, Seq<KeyOutput>>::empty());
        r
    }

    /// Maps `trigger` to `actions`, replacing any earlier entry; an empty
    /// action sequence is refused and leaves the table as it was.
    pub fn insert(&mut self, trigger: i32, actions: Vec<KeyOutput>) -> (added: bool)
        ensures
            added == (actions@.len() > 0),
            added ==> final(self)@ == old(self)@.insert(trigger, actions@),
            !added ==> final(self)@ == old(self)@,
            old(self).wf() ==> final(self).wf(),
    {
        if actions.len() == 0 {
            return false;
        }
        let ghost seq = actions@;
        self.key_map.insert(trigger, actions);
        assert(self@ =~= old(self)@.insert(trigger, seq));
        true
    }
}

} // verus!
