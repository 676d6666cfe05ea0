use vstd::prelude::*;

verus! {

/// How a synthetic action sets its key.
#[derive(Clone, Copy, Debug, PartialEq, Eq, Hash, Structural)]
pub enum KeyState {
    /// Always a release.
    Up,
    /// Always a press.
    Down,
    /// A press or a release, as the triggering event was.
    FollowExisting,
}

/// One action of a remap entry: a virtual-key code and how to set it.
#[derive(Clone, Copy, Debug, PartialEq, Eq, Hash, Structural)]
pub struct KeyOutput {
    pub code: i32,
    pub state: KeyState,
}

/// One synthetic key event, ready for submission.
#[derive(Clone, Copy, Debug, PartialEq, Eq, Hash, Structural)]
pub struct KeyStroke {
    pub code: i32,
    pub is_release: bool,
}

impl KeyOutput {
    /// A release of `code`.
    pub fn up(code: i32) -> (r: KeyOutput)
        ensures
            r == (KeyOutput { code, state: KeyState::Up }),
    {
        KeyOutput { code, state: KeyState::Up }
    }

    /// A press of `code`.
    pub fn down(code: i32) -> (r: KeyOutput)
        ensures
            r == (KeyOutput { code, state: KeyState::Down }),
    {
        KeyOutput { code, state: KeyState::Down }
    }

    /// A press or release of `code` that mirrors the triggering event.
    pub fn follow(code: i32) -> (r: KeyOutput)
        ensures
            r == (KeyOutput { code, state: KeyState::FollowExisting }),
    {
        KeyOutput { code, state: KeyState::FollowExisting }
    }
}

/// The event that `k` stands for when the triggering event was a release
/// (`is_release`) or a press.
pub open spec fn stroke_of(k: KeyOutput, is_release: bool) -> KeyStroke {
    KeyStroke {
        code: k.code,
        is_release: match k.state {
            KeyState::Up => true,
            KeyState::Down => false,
            KeyState::FollowExisting => is_release,
        },
    }
}

/// The batch that `keys` stands for, in the same order.
pub open spec fn strokes_of(keys: Seq<KeyOutput>, is_release: bool) -> Seq<KeyStroke> {
    keys.map_values(|k: KeyOutput| stroke_of(k, is_release))
}

/// Resolves one action against the triggering event's press/release state.
fn resolve_one(k: KeyOutput, is_release: bool) -> (r: KeyStroke)
    ensures
        r == stroke_of(k, is_release),
{
    let release = match k.state {
        KeyState::Up => true,
        KeyState::Down => false,
        KeyState::FollowExisting => is_release,
    };
    KeyStroke { code: k.code, is_release: release }
}

/// Resolves a whole action sequence into the batch to submit, order kept.
pub fn resolve_batch(keys: &Vec<KeyOutput>, is_release: bool) -> (r: Vec<KeyStroke>)
    ensures
        r@ == strokes_of(keys@, is_release),
{
    let mut out: Vec<KeyStroke> = Vec::new();
    let mut i: usize = 0;
    while i < keys.len()
        invariant
            i <= keys@.len(),
            out@ == strokes_of(keys@.subrange(0, i as int), is_release),
        decreases keys@.len() - i,
    {
        out.push(resolve_one(keys[i], is_release));
        assert(keys@.subrange(0, i as int + 1) =~= keys@.subrange(0, i as int).push(keys@[i as int]));
        i = i + 1;
    }
    assert(keys@.subrange(0, keys@.len() as int) =~= keys@);
    out
}

} // verus!
