//! The times of a file.

use vstd::prelude::*;

verus! {

/// A point in time as a directory entry records it: a packed date and time
/// with a resolution of two seconds, hundredths of a second to add, and the
/// offset from UTC in quarters of an hour.
#[derive(Debug, Clone, Copy, PartialEq, Eq)]
pub struct Timestamp {
    /// The packed date and time.
    pub timestamp: u32,
    /// Hundredths of a second to add, 0 to 199.
    pub ten_ms_increment: u8,
    /// Offset from UTC, in quarters of an hour.
    pub utc_offset: i8,
}

/// The offset from UTC that an offset byte stands for: where the high bit is
/// set, the low seven bits as a number in two's complement, from -64 to 63;
/// otherwise 0.
pub open spec fn spec_utc_offset(raw: u8) -> i8 {
    if raw >= 128 {
        if raw - 128 >= 64 {
            (raw - 256) as i8
        } else {
            (raw - 128) as i8
        }
    } else {
        0
    }
}

/// The offset from UTC that an offset byte stands for.
pub fn utc_offset(raw: u8) -> (r: i8)
    ensures
        r == spec_utc_offset(raw),
        -64 <= r <= 63,
{
    if raw >= 128 {
        let low: u8 = raw - 128;
        if low >= 64 {
            (low as i16 - 128) as i8
        } else {
            low as i8
        }
    } else {
        0
    }
}

impl Timestamp {
    pub fn new(timestamp: u32, ten_ms_increment: u8, utc_offset: i8) -> (r: Timestamp)
        ensures
            r == (Timestamp { timestamp, ten_ms_increment, utc_offset }),
    {
        Timestamp { timestamp, ten_ms_increment, utc_offset }
    }

    /// The year, from 1980 on: the seven high bits of the packed value.
    pub fn year(&self) -> (r: u16)
        ensures
            r == 1980 + self.timestamp / 0x200_0000,
    {
        (1980 + self.timestamp / 0x200_0000) as u16
    }

    /// The month: four bits of the packed value.
    pub fn month(&self) -> (r: u8)
        ensures
            r == (self.timestamp / 0x20_0000) % 16,
    {
        ((self.timestamp / 0x20_0000) % 16) as u8
    }

    /// The day of the month: five bits of the packed value.
    pub fn day(&self) -> (r: u8)
        ensures
            r == (self.timestamp / 0x1_0000) % 32,
    {
        ((self.timestamp / 0x1_0000) % 32) as u8
    }

    /// The hour: five bits of the packed value.
    pub fn hour(&self) -> (r: u8)
        ensures
            r == (self.timestamp / 0x800) % 32,
    {
        ((self.timestamp / 0x800) % 32) as u8
    }

    /// The minute: six bits of the packed value.
    pub fn minute(&self) -> (r: u8)
        ensures
            r == (self.timestamp / 32) % 64,
    {
        ((self.timestamp / 32) % 64) as u8
    }

    /// The second, an even number: twice the five low bits of the packed
    /// value.
    pub fn second(&self) -> (r: u8)
        ensures
            r == (self.timestamp % 32) * 2,
    {
        ((self.timestamp % 32) * 2) as u8
    }
}

/// The times of a file: of its creation, its last change and its last access.
#[derive(Debug, Clone, Copy, PartialEq, Eq)]
pub struct Timestamps {
    pub created: Timestamp,
    pub modified: Timestamp,
    pub accessed: Timestamp,
}

impl Timestamps {
    pub fn new(created: Timestamp, modified: Timestamp, accessed: Timestamp) -> (r: Timestamps)
        ensures
            r == (Timestamps { created, modified, accessed }),
    {
        Timestamps { created, modified, accessed }
    }

    pub fn created(&self) -> (r: &Timestamp)
        ensures
            *r == self.created,
    {
        &self.created
    }

    pub fn modified(&self) -> (r: &Timestamp)
        ensures
            *r == self.modified,
    {
        &self.modified
    }

    pub fn accessed(&self) -> (r: &Timestamp)
        ensures
            *r == self.accessed,
    {
        &self.accessed
    }
}

} // verus!
