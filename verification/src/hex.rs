//! Hexadecimal text of native unsigned integers and of 256-bit words.

use vstd::prelude::*;
use vstd::arithmetic::power2::pow2;
use crate::shift::lemma_shr_limb;
use crate::word::{UPrimitive, U256};

verus! {

/// The sixteen hexadecimal digits, in lower case.
pub open spec fn hex_alphabet() -> Seq<char> {
    seq!['0', '1', '2', '3', '4', '5', '6', '7', '8', '9', 'a', 'b', 'c', 'd', 'e', 'f']
}

/// The digit for a number below sixteen.
pub open spec fn hex_digit(d: nat) -> char {
    hex_alphabet()[d as int]
}

/// The hexadecimal digit of `v` at position `k`, counted from the least
/// significant one.
pub open spec fn nibble_at(v: nat, k: nat) -> nat {
    (v / pow2(4 * k)) % 16
}

/// The `width` least significant hexadecimal digits of `v`, the most
/// significant of them first.
pub open spec fn hex_digits(v: nat, width: nat) -> Seq<char> {
    Seq::new(width, |i: int| hex_digit(nibble_at(v, (width - 1 - i) as nat)))
}

/// The text of a word: `0x`, then the 32 digits of the higher limb, then the
/// 32 digits of the lower limb.
pub open spec fn word_text(w: U256) -> Seq<char> {
    seq!['0', 'x'] + hex_digits(w.higher as nat, 32) + hex_digits(w.lower as nat, 32)
}

/// `String::push` appends one character to the text.
pub assume_specification[ String::push ](s: &mut String, ch: char)
    ensures
        final(s)@ == old(s)@.push(ch),
;

/// The character for a number below sixteen.
pub fn hex_char(d: u8) -> (c: char)
    requires
        d < 16,
    ensures
        c == hex_digit(d as nat),
{
    match d {
        0 => '0',
        1 => '1',
        2 => '2',
        3 => '3',
        4 => '4',
        5 => '5',
        6 => '6',
        7 => '7',
        8 => '8',
        9 => '9',
        10 => 'a',
        11 => 'b',
        12 => 'c',
        13 => 'd',
        14 => 'e',
        _ => 'f',
    }
}

/// Appends the `width` least significant hexadecimal digits of `v` to the
/// text, padded with zeros on the left.
pub fn push_hex(s: &mut String, v: u128, width: usize)
    requires
        width <= 32,
    ensures
        final(s)@ == old(s)@ + hex_digits(v as nat, width as nat),
{
    let ghost before = s@;
    let mut i: usize = 0;
    while i < width
        invariant
            i <= width <= 32,
            s@ == before + hex_digits(v as nat, width as nat).subrange(0, i as int),
        decreases width - i,
    {
        let shift: u8 = (4 * (width - 1 - i)) as u8;
        let nibble = (v >> shift) & 0xF;
        proof {
            lemma_shr_limb(v, shift);
            let y = v >> shift;
            assert(y & 0xF == y % 16) by (bit_vector);
            assert(nibble == nibble_at(v as nat, (width - 1 - i) as nat));
        }
        s.push(hex_char(nibble as u8));
        proof {
            let all = hex_digits(v as nat, width as nat);
            assert(all.subrange(0, i + 1) =~= all.subrange(0, i as int).push(all[i as int]));
        }
        i = i + 1;
    }
    proof {
        let all = hex_digits(v as nat, width as nat);
        assert(all.subrange(0, width as int) =~= all);
    }
}

/// The hexadecimal text of a native unsigned integer: two digits for each
/// byte of its type, padded with zeros on the left.
pub fn fhstr<T: UPrimitive>(input: T) -> (buf: String)
    ensures
        buf@ == hex_digits(input.widened() as nat, 2 * T::byte_size()),
{
    let num_hex_chars = T::bytes() * 2;
    let mut buf = String::new();
    push_hex(&mut buf, input.widen(), num_hex_chars);
    buf
}

impl U256 {
    /// The hexadecimal text of the word: `0x` and 64 digits.
    pub fn to_string(&self) -> (text: String)
        ensures
            text@ == word_text(*self),
    {
        let mut text = String::new();
        text.push('0');
        text.push('x');
        push_hex(&mut text, self.higher, 32);
        push_hex(&mut text, self.lower, 32);
        text
    }
}

} // verus!
