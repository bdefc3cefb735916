//! Volume labels.

use crate::codec::{get_u16, le_value, put_fill, put_le, take_array};
use crate::utf16::{
    bytes_units, decode_utf16, encode_utf16, lemma_unit_bytes_len, text_of_units, unit_bytes,
    units_of,
};
use vstd::prelude::*;
use vstd::string::StringExecFns;

verus! {

/// Largest number of UTF-16 code units of a label.
pub const MAX_LABEL_UNITS: u8 = 11;

/// A volume label: up to 11 UTF-16 code units, stored least significant byte
/// first in 22 bytes, and the number of code units in use.
#[derive(Copy, Clone, Debug, PartialEq, Eq)]
pub struct Label(pub [u8; 22], pub u8);

/// The two bytes of a code unit spell its value.
pub proof fn lemma_le_value_pair(s: Seq<u8>)
    requires
        s.len() == 2,
    ensures
        le_value(s) == s[0] + 256 * s[1],
{
    reveal_with_fuel(le_value, 3);
    let t = s.drop_first();
    assert(t.len() == 1);
    assert(t[0] == s[1]);
    assert(t.drop_first().len() == 0);
}

impl Label {
    /// Number of code units in use, never more than the 11 that fit.
    pub open spec fn unit_count(&self) -> int {
        if self.1 <= MAX_LABEL_UNITS {
            self.1 as int
        } else {
            MAX_LABEL_UNITS as int
        }
    }

    /// The code units in use.
    pub open spec fn units(&self) -> Seq<u16> {
        bytes_units(self.0@.take(2 * self.unit_count()))
    }

    /// What a label of the given code units looks like.
    pub open spec fn holds(&self, units: Seq<u16>) -> bool {
        &&& units.len() <= MAX_LABEL_UNITS
        &&& self.1 == units.len()
        &&& self.0@ == unit_bytes(units) + Seq::new((22 - 2 * units.len()) as nat, |i: int| 0u8)
    }

    /// A label of the given text, or nothing where the text takes more than
    /// 11 UTF-16 code units.
    pub fn new(label: String) -> (r: Option<Label>)
        ensures
            units_of(label@).len() > MAX_LABEL_UNITS ==> r.is_none(),
            units_of(label@).len() <= MAX_LABEL_UNITS ==> r.is_some() && r.unwrap().holds(
                units_of(label@),
            ),
    {
        match encode_utf16(label.as_str(), 11) {
            None => None,
            Some(units) => {
                let n: usize = units.len();
                let mut bytes: Vec<u8> = Vec::new();
                let mut i: usize = 0;
                assert(units@.take(0) =~= Seq::<u16>::empty());
                while i < n
                    invariant
                        i <= n,
                        n == units@.len(),
                        bytes@ == unit_bytes(units@.take(i as int)),
                    decreases n - i,
                {
                    proof {
                        let t = units@.take(i + 1);
                        assert(t.drop_last() =~= units@.take(i as int));
                        assert(t.last() == units@[i as int]);
                    }
                    put_le(&mut bytes, units[i] as u128, 2);
                    i = i + 1;
                }
                proof {
                    assert(units@.take(n as int) =~= units@);
                    lemma_unit_bytes_len(units@);
                }
                put_fill(&mut bytes, 0, 22 - 2 * n);
                let array: [u8; 22] = take_array::<22>(bytes.as_slice(), 0);
                assert(bytes@.subrange(0, 22) =~= bytes@);
                Some(Label(array, n as u8))
            },
        }
    }

    /// The label's text, or `<invalid utf16>` where its code units are not
    /// well-formed UTF-16.
    pub fn to_string(&self) -> (r: String)
        ensures
            match text_of_units(self.units()) {
                Some(t) => r@ == t,
                None => r@ == "<invalid utf16>"@,
            },
    {
        let n: usize = if self.1 <= MAX_LABEL_UNITS {
            self.1 as usize
        } else {
            MAX_LABEL_UNITS as usize
        };
        let mut units: Vec<u16> = Vec::new();
        let mut i: usize = 0;
        let ghost used = self.0@.take(2 * n);
        while i < n
            invariant
                i <= n <= 11,
                n == self.unit_count(),
                used == self.0@.take(2 * n),
                units@.len() == i,
                forall|j: int| 0 <= j < i ==> units@[j] == bytes_units(used)[j],
            decreases n - i,
        {
            let u: u16 = get_u16(&self.0, 2 * i);
            proof {
                lemma_le_value_pair(self.0@.subrange(2 * i, 2 * i + 2));
            }
            units.push(u);
            i = i + 1;
        }
        assert(units@ =~= bytes_units(used));
        match decode_utf16(&units) {
            Some(s) => s,
            None => String::from_str("<invalid utf16>"),
        }
    }
}

impl Default for Label {
    /// The empty label.
    fn default() -> (r: Label)
        ensures
            r.1 == 0,
            r.0@ == Seq::new(22, |i: int| 0u8),
    {
        let zeros: [u8; 22] = [0u8; 22];
        assert(zeros@ =~= Seq::new(22, |i: int| 0u8));
        Label(zeros, 0)
    }
}

} // verus!
