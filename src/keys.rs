use vstd::prelude::*;

verus! {

// Windows virtual-key codes used by the remapper.
pub const VK_BACK: i32 = 0x08;
pub const VK_RETURN: i32 = 0x0D;
pub const VK_CAPITAL: i32 = 0x14;
pub const VK_ESCAPE: i32 = 0x1B;
pub const VK_SPACE: i32 = 0x20;
pub const VK_PRIOR: i32 = 0x21;
pub const VK_NEXT: i32 = 0x22;
pub const VK_END: i32 = 0x23;
pub const VK_HOME: i32 = 0x24;
pub const VK_LEFT: i32 = 0x25;
pub const VK_UP: i32 = 0x26;
pub const VK_RIGHT: i32 = 0x27;
pub const VK_DOWN: i32 = 0x28;
pub const VK_INSERT: i32 = 0x2D;
pub const VK_DELETE: i32 = 0x2E;
pub const VK_0: i32 = 0x30;
pub const VK_1: i32 = 0x31;
pub const VK_2: i32 = 0x32;
pub const VK_3: i32 = 0x33;
pub const VK_4: i32 = 0x34;
pub const VK_5: i32 = 0x35;
pub const VK_6: i32 = 0x36;
pub const VK_7: i32 = 0x37;
pub const VK_8: i32 = 0x38;
pub const VK_9: i32 = 0x39;
pub const VK_A: i32 = 0x41;
pub const VK_C: i32 = 0x43;
pub const VK_D: i32 = 0x44;
pub const VK_E: i32 = 0x45;
pub const VK_F: i32 = 0x46;
pub const VK_G: i32 = 0x47;
pub const VK_H: i32 = 0x48;
pub const VK_I: i32 = 0x49;
pub const VK_J: i32 = 0x4A;
pub const VK_K: i32 = 0x4B;
pub const VK_L: i32 = 0x4C;
pub const VK_M: i32 = 0x4D;
pub const VK_N: i32 = 0x4E;
pub const VK_O: i32 = 0x4F;
pub const VK_P: i32 = 0x50;
pub const VK_Q: i32 = 0x51;
pub const VK_R: i32 = 0x52;
pub const VK_S: i32 = 0x53;
pub const VK_T: i32 = 0x54;
pub const VK_U: i32 = 0x55;
pub const VK_V: i32 = 0x56;
pub const VK_W: i32 = 0x57;
pub const VK_X: i32 = 0x58;
pub const VK_Y: i32 = 0x59;
pub const VK_Z: i32 = 0x5A;
pub const VK_LWIN: i32 = 0x5B;
pub const VK_F1: i32 = 0x70;
pub const VK_F2: i32 = 0x71;
pub const VK_F3: i32 = 0x72;
pub const VK_F4: i32 = 0x73;
pub const VK_F5: i32 = 0x74;
pub const VK_F6: i32 = 0x75;
pub const VK_F7: i32 = 0x76;
pub const VK_F8: i32 = 0x77;
pub const VK_F9: i32 = 0x78;
pub const VK_F10: i32 = 0x79;
pub const VK_F11: i32 = 0x7A;
pub const VK_F12: i32 = 0x7B;
pub const VK_F22: i32 = 0x85;
pub const VK_LSHIFT: i32 = 0xA0;
pub const VK_RSHIFT: i32 = 0xA1;
pub const VK_LCONTROL: i32 = 0xA2;
pub const VK_RCONTROL: i32 = 0xA3;
pub const VK_LMENU: i32 = 0xA4;
pub const VK_RMENU: i32 = 0xA5;
pub const VK_BROWSER_BACK: i32 = 0xA6;
pub const VK_BROWSER_FORWARD: i32 = 0xA7;
pub const VK_OEM_COMMA: i32 = 0xBC;
pub const VK_OEM_MINUS: i32 = 0xBD;
pub const VK_OEM_3: i32 = 0xC0;
pub const VK_OEM_4: i32 = 0xDB;

/// The physical key that drives the remap modifier (the Caps Lock position).
pub const TOGGLE_KEY: i32 = VK_CAPITAL;

/// The otherwise unused key that stands for the remap modifier.
pub const REMAP_MODIFIER: i32 = VK_F22;

/// Number of modifier keys that are tracked.
pub const MODIFIER_COUNT: usize = 6;

/// The tracked modifiers, in the order in which they are examined: left and
/// right shift, left and right control, left and right alt.
pub open spec fn modifier_keys() -> Seq<i32> {
    seq![VK_LSHIFT, VK_RSHIFT, VK_LCONTROL, VK_RCONTROL, VK_LMENU, VK_RMENU]
}

/// The `i`-th tracked modifier.
pub fn modifier_key(i: usize) -> (r: i32)
    requires
        i < MODIFIER_COUNT,
    ensures
        r == modifier_keys()[i as int],
{
    if i == 0 {
        VK_LSHIFT
    } else if i == 1 {
        VK_RSHIFT
    } else if i == 2 {
        VK_LCONTROL
    } else if i == 3 {
        VK_RCONTROL
    } else if i == 4 {
        VK_LMENU
    } else {
        VK_RMENU
    }
}

/// Whether a raw asynchronous key state reports the key as held: its most
/// significant bit is set.
pub fn key_state_is_held(raw: i16) -> (r: bool)
    ensures
        r == (raw as u16 >= 0x8000u16),
{
    let bits = raw as u16;
    assert((bits & 0x8000u16) == 0x8000u16 <==> bits >= 0x8000u16) by (bit_vector);
    (bits & 0x8000u16) == 0x8000u16
}

/// The live state, read at one moment, of the keys that the decisions depend
/// on: the remap modifier and the six tracked modifiers.
#[derive(Clone, Copy, Debug, PartialEq, Eq, Structural)]
pub struct HeldKeys {
    pub remap: bool,
    pub lshift: bool,
    pub rshift: bool,
    pub lcontrol: bool,
    pub rcontrol: bool,
    pub lalt: bool,
    pub ralt: bool,
}

impl HeldKeys {
    /// Whether `code` is reported held; keys that are not tracked never are.
    pub open spec fn holds(self, code: i32) -> bool {
        if code == REMAP_MODIFIER {
            self.remap
        } else if code == VK_LSHIFT {
            self.lshift
        } else if code == VK_RSHIFT {
            self.rshift
        } else if code == VK_LCONTROL {
            self.lcontrol
        } else if code == VK_RCONTROL {
            self.rcontrol
        } else if code == VK_LMENU {
            self.lalt
        } else if code == VK_RMENU {
            self.ralt
        } else {
            false
        }
    }

    /// Whether `code` is reported held.
    pub fn is_held(&self, code: i32) -> (r: bool)
        ensures
            r == self.holds(code),
    {
        if code == REMAP_MODIFIER {
            self.remap
        } else if code == VK_LSHIFT {
            self.lshift
        } else if code == VK_RSHIFT {
            self.rshift
        } else if code == VK_LCONTROL {
            self.lcontrol
        } else if code == VK_RCONTROL {
            self.rcontrol
        } else if code == VK_LMENU {
            self.lalt
        } else if code == VK_RMENU {
            self.ralt
        } else {
            false
        }
    }
}

} // verus!
