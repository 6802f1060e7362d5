//! The sixteen keys and the keyboard keys that stand for them.
//!
//! The keypad is laid out as on the COSMAC VIP and mapped onto the left of
//! a keyboard:
//!
//! ```text
//! 1 2 3 C        1 2 3 4
//! 4 5 6 D        Q W E R
//! 7 8 9 E        A S D F
//! A 0 B F        Z X C V
//! ```

use vstd::prelude::*;

verus! {

/// For each key of the keypad, by its number, the scancode of the keyboard
/// key that stands for it.
pub const SCANCODES: [u32; 16] = [45, 2, 3, 4, 16, 17, 18, 30, 31, 32, 44, 46, 5, 19, 33, 47];

/// The keys after a keyboard key has gone down or come up: every key that
/// `scancode` stands for is down if `pressed` and up if not, and every other
/// key is as it was.
pub open spec fn keys_after(keys: Seq<bool>, scancode: u32, pressed: bool) -> Seq<bool> {
    Seq::new(
        16,
        |k: int|
            if SCANCODES[k] == scancode {
                pressed
            } else {
                keys[k]
            },
    )
}

/// Records in `keys` that the keyboard key with `scancode` has gone down
/// (`pressed`) or come up. A scancode that stands for no key changes
/// nothing.
pub fn key_event(keys: &mut [bool; 16], scancode: u32, pressed: bool)
    ensures
        final(keys)@ == keys_after(old(keys)@, scancode, pressed),
{
    let mut k: usize = 0;
    while k < 16
        invariant
            k <= 16,
            forall|j: int|
                0 <= j < 16 ==> keys[j] == if j < k && SCANCODES[j] == scancode {
                    pressed
                } else {
                    old(keys)[j]
                },
        decreases 16 - k,
    {
        if SCANCODES[k] == scancode {
            keys[k] = pressed;
        }
        k += 1;
    }
    assert(keys@ =~= keys_after(old(keys)@, scancode, pressed));
}

/// No two keys share a keyboard key, so a key event changes at most one
/// key.
pub proof fn lemma_scancodes_distinct(j: int, k: int)
    requires
        0 <= j < 16,
        0 <= k < 16,
        j != k,
    ensures
        SCANCODES[j] != SCANCODES[k],
{
}

} // verus!
