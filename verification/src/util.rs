use vstd::prelude::*;

use crate::text::chars_of;

verus! {

/// The UTF-16 code units of one character.
pub open spec fn utf16_of_char(c: char) -> Seq<u16> {
    let v = c as u32;
    if v < 0x10000 {
        seq![v as u16]
    } else {
        let w = v - 0x10000;
        seq![(0xD800 + w / 0x400) as u16, (0xDC00 + w % 0x400) as u16]
    }
}

/// UTF-16 encoding of a character sequence (`str::encode_utf16`).
pub open spec fn utf16_encode(s: Seq<char>) -> Seq<u16>
    decreases s.len(),
{
    if s.len() == 0 {
        Seq::empty()
    } else {
        utf16_encode(s.drop_last()) + utf16_of_char(s.last())
    }
}

/// The UTF-16 code units of `s`.
pub fn encode_utf16(s: &str) -> (r: Vec<u16>)
    ensures
        r@ == utf16_encode(s@),
{
    let cs = chars_of(s);
    let mut r: Vec<u16> = Vec::new();
    let n = cs.len();
    let mut i: usize = 0;
    while i < n
        invariant
            n == cs.len(),
            cs@ == s@,
            i <= n,
            r@ == utf16_encode(cs@.take(i as int)),
        decreases n - i,
    {
        let c = cs[i];
        let v = c as u32;
        assert(cs@.take(i + 1).drop_last() =~= cs@.take(i as int));
        assert(cs@.take(i + 1).last() == c);
        if v < 0x10000 {
            r.push(v as u16);
            assert(r@ =~= utf16_encode(cs@.take(i as int)) + utf16_of_char(c));
        } else {
            assert(v <= 0x10FFFF) by {
                vstd::utf8::char_is_scalar(c);
            }
            let w = v - 0x10000;
            r.push((0xD800 + w / 0x400) as u16);
            r.push((0xDC00 + w % 0x400) as u16);
            assert(r@ =~= utf16_encode(cs@.take(i as int)) + utf16_of_char(c));
        }
        i = i + 1;
    }
    assert(cs@.take(n as int) =~= cs@);
    r
}

/// Converts a string to a null-terminated UTF-16 wide string.
pub fn to_wide(s: &str) -> (r: Vec<u16>)
    ensures
        r@ == utf16_encode(s@).push(0u16),
{
    let mut r = encode_utf16(s);
    r.push(0);
    r
}

/// Copies a string into a fixed-size, null-terminated UTF-16 buffer: the
/// first `N - 1` code units at most, the rest zero. A zero-length buffer
/// only holds the empty string.
pub fn to_wide_fixed<const N: usize>(s: &str) -> (r: [u16; N])
    requires
        N >= 1 || s@.len() == 0,
    ensures
        r@.len() == N,
        forall|i: int| 0 <= i < N ==> #[trigger] r@[i] == if i < N - 1 && i < utf16_encode(s@).len() {
            utf16_encode(s@)[i]
        } else {
            0u16
        },
{
    let units = encode_utf16(s);
    let mut buf = [0u16; N];
    let mut i: usize = 0;
    while i < units.len() && i + 1 < N
        invariant
            units@ == utf16_encode(s@),
            N >= 1 || units@.len() == 0,
            i <= units.len(),
            i == 0 || i < N,
            buf@.len() == N,
            forall|j: int| 0 <= j < N ==> #[trigger] buf@[j] == if j < i {
                units@[j]
            } else {
                0u16
            },
        decreases units.len() - i,
    {
        buf.set(i, units[i]);
        i = i + 1;
    }
    buf
}

} // verus!
