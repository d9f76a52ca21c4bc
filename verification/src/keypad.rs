//! The 16-key hex keypad: sixteen boolean slots indexed 0x0..=0xF, written by
//! the host between cycles and read by the key-skip and wait-for-key
//! instructions.

use vstd::prelude::*;

verus! {

/// One of the sixteen keypad keys, named after its hex key code.
#[derive(Clone, Copy, Debug, PartialEq, Eq, Structural)]
pub enum Key {
    Zero,
    One,
    Two,
    Three,
    Four,
    Five,
    Six,
    Seven,
    Eight,
    Nine,
    A,
    B,
    C,
    D,
    E,
    F,
}

impl Key {
    /// The key code of this key, which is also its slot index in the keypad.
    pub open spec fn addr_spec(self) -> int {
        match self {
            Key::Zero => 0,
            Key::One => 1,
            Key::Two => 2,
            Key::Three => 3,
            Key::Four => 4,
            Key::Five => 5,
            Key::Six => 6,
            Key::Seven => 7,
            Key::Eight => 8,
            Key::Nine => 9,
            Key::A => 0xA,
            Key::B => 0xB,
            Key::C => 0xC,
            Key::D => 0xD,
            Key::E => 0xE,
            Key::F => 0xF,
        }
    }

    /// The key code of this key as a slot index.
    pub fn addr(&self) -> (r: usize)
        ensures
            r == self.addr_spec(),
            r < 16,
    {
        match self {
            Key::Zero => 0,
            Key::One => 1,
            Key::Two => 2,
            Key::Three => 3,
            Key::Four => 4,
            Key::Five => 5,
            Key::Six => 6,
            Key::Seven => 7,
            Key::Eight => 8,
            Key::Nine => 9,
            Key::A => 0xA,
            Key::B => 0xB,
            Key::C => 0xC,
            Key::D => 0xD,
            Key::E => 0xE,
            Key::F => 0xF,
        }
    }
}

/// The sixteen key slots, packed into the bits of one word: bit `k` is set
/// exactly when key `k` is pressed. Every bit pattern is a valid keypad, so a
/// host may rewrite it freely between cycles.
pub struct KeyPad {
    bits: u16,
}

impl View for KeyPad {
    type V = Seq<bool>;

    closed spec fn view(&self) -> Seq<bool> {
        Seq::new(16, |i: int| (self.bits >> (i as u16)) & 1 == 1)
    }
}

/// The lowest pressed key code at or above slot `k`, if any.
pub open spec fn lowest_pressed_from(keys: Seq<bool>, k: int) -> Option<u8>
    decreases 16 - k,
{
    if k < 0 || k >= 16 {
        None
    } else if keys[k] {
        Some(k as u8)
    } else {
        lowest_pressed_from(keys, k + 1)
    }
}

/// The lowest pressed key code, if any key is pressed at all.
pub open spec fn lowest_pressed(keys: Seq<bool>) -> Option<u8> {
    lowest_pressed_from(keys, 0)
}

/// A keypad's view always has exactly sixteen slots, whatever its bits hold.
pub proof fn lemma_keypad_view_len(kp: &KeyPad)
    ensures
        kp@.len() == 16,
{
}

/// After setting bit `a` of `b`, bit `i` reads as set iff `i == a` or it was
/// set before.
proof fn lemma_bit_set(b: u16, a: u16, i: u16)
    by (bit_vector)
    requires
        a < 16,
        i < 16,
    ensures
        ((b | (1u16 << a)) >> i) & 1 == 1 <==> (i == a || (b >> i) & 1 == 1),
{
}

/// After clearing bit `a` of `b`, bit `i` reads as set iff `i != a` and it
/// was set before.
proof fn lemma_bit_clear(b: u16, a: u16, i: u16)
    by (bit_vector)
    requires
        a < 16,
        i < 16,
    ensures
        ((b & !(1u16 << a)) >> i) & 1 == 1 <==> (i != a && (b >> i) & 1 == 1),
{
}

impl Default for KeyPad {
    /// A keypad with every key released.
    fn default() -> (r: Self)
        ensures
            r@ == Seq::new(16, |i: int| false),
    {
        let r = KeyPad { bits: 0 };
        proof {
            assert forall|i: int| 0 <= i < 16 implies !r@[i] by {
                let j = i as u16;
                assert((0u16 >> j) & 1 != 1) by (bit_vector);
            }
            assert(r@ =~= Seq::new(16, |i: int| false));
        }
        r
    }
}

impl KeyPad {
    /// Mark `key` as pressed.
    pub fn press_key(&mut self, key: Key)
        ensures
            final(self)@ == old(self)@.update(key.addr_spec(), true),
    {
        self.handle_key(key, 1)
    }

    /// Mark `key` as released.
    pub fn release_key(&mut self, key: Key)
        ensures
            final(self)@ == old(self)@.update(key.addr_spec(), false),
    {
        self.handle_key(key, 0)
    }

    /// Mark `key` as pressed or released according to `is_pressed`.
    pub fn set_key(&mut self, key: Key, is_pressed: bool)
        ensures
            final(self)@ == old(self)@.update(key.addr_spec(), is_pressed),
    {
        self.handle_key(key, if is_pressed { 1 } else { 0 })
    }

    /// Write a raw slot flag: the slot of `key` reads as pressed afterwards
    /// exactly when `flag` is 1.
    pub fn handle_key(&mut self, key: Key, flag: u8)
        ensures
            final(self)@ == old(self)@.update(key.addr_spec(), flag == 1),
    {
        let a = key.addr();
        let ghost prev = self.bits;
        if flag == 1 {
            self.bits = self.bits | (1u16 << (a as u16));
        } else {
            self.bits = self.bits & !(1u16 << (a as u16));
        }
        proof {
            assert forall|i: int| 0 <= i < 16 implies self@[i] == old(self)@.update(
                key.addr_spec(),
                flag == 1,
            )[i] by {
                if flag == 1 {
                    lemma_bit_set(prev, a as u16, i as u16);
                } else {
                    lemma_bit_clear(prev, a as u16, i as u16);
                }
            }
            assert(self@ =~= old(self)@.update(key.addr_spec(), flag == 1));
        }
    }

    /// Whether the key with code `key` is pressed.
    pub fn is_pressed(&self, key: u8) -> (r: bool)
        requires
            key < 16,
        ensures
            r == self@[key as int],
    {
        (self.bits >> (key as u16)) & 1 == 1
    }

    /// The lowest key code whose key is pressed, if any key is pressed at all.
    pub fn get_pressed(&self) -> (r: Option<u8>)
        ensures
            r == lowest_pressed(self@),
            r is Some <==> exists|i: int| 0 <= i < 16 && self@[i],
            r matches Some(k) ==> k < 16 && self@[k as int] && forall|j: int|
                0 <= j < k ==> !self@[j],
    {
        let mut k: u8 = 0;
        while k < 16
            invariant
                k <= 16,
                forall|j: int| 0 <= j < k ==> !self@[j],
                lowest_pressed(self@) == lowest_pressed_from(self@, k as int),
            decreases 16 - k,
        {
            if (self.bits >> (k as u16)) & 1 == 1 {
                proof {
                    assert(self@[k as int]);
                    assert(exists|i: int| 0 <= i < 16 && self@[i]);
                }
                return Some(k);
            }
            k = k + 1;
        }
        proof {
            assert forall|i: int| 0 <= i < 16 implies !self@[i] by {}
        }
        None
    }
}

} // verus!
