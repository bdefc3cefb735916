//! UTF-16 as the volume stores it: labels and file names are sequences of
//! 16-bit code units, each stored least significant byte first.

use crate::codec::le_bytes;
use vstd::prelude::*;
use vstd::string::StrSliceExecFns;

verus! {

/// The code units of one character: itself below the supplementary planes, a
/// pair of surrogates above.
pub open spec fn units_of_char(c: char) -> Seq<u16> {
    let v = c as u32;
    if v < 0x1_0000 {
        seq![v as u16]
    } else {
        seq![(0xD800 + (v - 0x1_0000) / 0x400) as u16, (0xDC00 + (v - 0x1_0000) % 0x400) as u16]
    }
}

/// The code units of a text.
pub open spec fn units_of(s: Seq<char>) -> Seq<u16>
    decreases s.len(),
{
    if s.len() == 0 {
        Seq::empty()
    } else {
        units_of(s.drop_last()) + units_of_char(s.last())
    }
}

/// The bytes of a sequence of code units, two for each.
pub open spec fn unit_bytes(u: Seq<u16>) -> Seq<u8>
    decreases u.len(),
{
    if u.len() == 0 {
        Seq::empty()
    } else {
        unit_bytes(u.drop_last()) + le_bytes(u.last() as nat, 2)
    }
}

/// The code units that a sequence of bytes spells, two bytes for each; a
/// trailing single byte is left out.
pub open spec fn bytes_units(b: Seq<u8>) -> Seq<u16> {
    Seq::new(b.len() / 2, |i: int| (b[2 * i] as u16 + 256 * b[2 * i + 1] as u16) as u16)
}

pub open spec fn is_high_surrogate(u: u16) -> bool {
    0xD800 <= u <= 0xDBFF
}

pub open spec fn is_low_surrogate(u: u16) -> bool {
    0xDC00 <= u <= 0xDFFF
}

/// Strict decoding: every surrogate must be one half of a well-formed pair.
/// Gives the text, or nothing where a surrogate stands alone.
pub open spec fn text_of_units(u: Seq<u16>) -> Option<Seq<char>>
    decreases u.len(),
{
    if u.len() == 0 {
        Some(Seq::empty())
    } else if is_high_surrogate(u[0]) {
        if u.len() >= 2 && is_low_surrogate(u[1]) {
            match text_of_units(u.skip(2)) {
                Some(rest) => Some(
                    seq![
                        ((0x1_0000 + (u[0] - 0xD800) * 0x400 + (u[1] - 0xDC00)) as u32) as char,
                    ] + rest,
                ),
                None => None,
            }
        } else {
            None
        }
    } else if is_low_surrogate(u[0]) {
        None
    } else {
        match text_of_units(u.skip(1)) {
            Some(rest) => Some(seq![(u[0] as u32) as char] + rest),
            None => None,
        }
    }
}

pub proof fn lemma_units_len(s: Seq<char>)
    ensures
        s.len() <= units_of(s).len() <= 2 * s.len(),
    decreases s.len(),
{
    if s.len() > 0 {
        lemma_units_len(s.drop_last());
    }
}

pub proof fn lemma_unit_bytes_len(u: Seq<u16>)
    ensures
        unit_bytes(u).len() == 2 * u.len(),
    decreases u.len(),
{
    if u.len() > 0 {
        lemma_unit_bytes_len(u.drop_last());
        crate::codec::lemma_le_bytes_len(u.last() as nat, 2);
    }
}

/// Encodes the first characters of a text as UTF-16, as long as no more
/// than `limit` code units come out; nothing where the whole text takes more.
pub fn encode_utf16(s: &str, limit: usize) -> (r: Option<Vec<u16>>)
    requires
        limit < 0x4000_0000,
    ensures
        units_of(s@).len() <= limit ==> r.is_some() && r.unwrap()@ == units_of(s@),
        units_of(s@).len() > limit ==> r.is_none(),
{
    let n: usize = s.unicode_len();
    proof {
        lemma_units_len(s@);
    }
    if n > limit {
        return None;
    }
    let mut out: Vec<u16> = Vec::new();
    let mut i: usize = 0;
    assert(s@.take(0) =~= Seq::<char>::empty());
    while i < n
        invariant
            i <= n,
            n == s@.len(),
            n <= limit < 0x4000_0000,
            out@ == units_of(s@.take(i as int)),
            out@.len() <= 2 * i,
        decreases n - i,
    {
        let c: char = s.get_char(i);
        let v: u32 = c as u32;
        proof {
            let t = s@.take(i + 1);
            assert(t.drop_last() =~= s@.take(i as int));
            assert(t.last() == c);
        }
        if v < 0x1_0000 {
            out.push(v as u16);
        } else {
            assert(v <= 0x10FFFF);
            out.push((0xD800 + (v - 0x1_0000) / 0x400) as u16);
            out.push((0xDC00 + (v - 0x1_0000) % 0x400) as u16);
        }
        assert(out@ =~= units_of(s@.take(i as int)) + units_of_char(c));
        i = i + 1;
    }
    assert(s@.take(n as int) =~= s@);
    if out.len() > limit {
        None
    } else {
        Some(out)
    }
}

/// Strict UTF-16 decoding through `String::from_utf16`, which gives the text
/// of well-formed input and fails where a surrogate stands alone.
#[verifier::external_body]
pub(crate) fn decode_utf16(units: &Vec<u16>) -> (r: Option<String>)
    ensures
        match r {
            Some(s) => text_of_units(units@) == Some(s@),
            None => text_of_units(units@).is_none(),
        },
{
    String::from_utf16(units.as_slice()).ok()
}

} // verus!
