//! Thinning out a series of dated records: the older a block of records, the
//! more time must pass before another block is kept.

use vstd::prelude::*;
use vstd::string::StringExecFns;
use crate::datetime::{
    date_numbers, datetime_difference, is_countable, is_datetime, seconds_of,
};

verus! {

/// The seconds that one unit of the rollup value stands for.
pub const DENSITY_FACTOR: i32 = 299;

/// No two dates are further apart than this many seconds.
pub const MAX_DIFFERENCE: u128 = 0x400_0000_0000;

/// The seconds between two dates, whichever comes first.
pub open spec fn seconds_between(first: Seq<char>, second: Seq<char>) -> int {
    let a = seconds_of(date_numbers(first).unwrap());
    let b = seconds_of(date_numbers(second).unwrap());
    if a > b {
        a - b
    } else {
        b - a
    }
}

/// Where the thinning stands after some records.
pub struct Rollup {
    /// The date of the record seen last.
    pub previous_date: String,
    /// Whether the records of the current block are kept.
    pub write: bool,
    /// The number of blocks begun.
    pub number_blocks: u64,
    /// The seconds that have gone by since a block was last kept.
    pub last_write_time: u128,
    /// The number of blocks dropped.
    pub deleted_count: u64,
}

impl Rollup {
    /// What holds between records: the date seen last is a date, and the
    /// time gone by is no more than the blocks begun can account for.
    pub open spec fn well_formed(&self) -> bool {
        &&& is_datetime(self.previous_date@)
        &&& self.last_write_time <= self.number_blocks * MAX_DIFFERENCE
        &&& self.deleted_count <= self.number_blocks
    }

    /// The state before the first record: the reference date has been seen,
    /// and records are kept.
    pub fn new() -> (rollup: Self)
        ensures
            rollup.previous_date@ == "2025-03-07 23:39:44"@,
            rollup.write,
            rollup.number_blocks == 0,
            rollup.last_write_time == 0,
            rollup.deleted_count == 0,
    {
        Rollup {
            previous_date: String::from_str("2025-03-07 23:39:44"),
            write: true,
            number_blocks: 0,
            last_write_time: 0,
            deleted_count: 0,
        }
    }

    /// Tells whether the state is one that records can be added to.
    pub fn is_well_formed(&self) -> (yes: bool)
        ensures
            yes == self.well_formed(),
    {
        is_countable(self.previous_date.as_str()) && self.last_write_time
            <= self.number_blocks as u128 * MAX_DIFFERENCE && self.deleted_count
            <= self.number_blocks
    }

    /// Tells whether a record with the given date begins a new block: it
    /// does when its date is not that of the record before.
    pub fn opens_block(&self, record_date: &String) -> (opens: bool)
        ensures
            opens == (record_date@ != self.previous_date@),
    {
        !(*record_date == self.previous_date)
    }

    /// Takes note of a record and says whether it is kept.
    ///
    /// A record with the date of the one before belongs to the same block
    /// and shares its fate. A record with a new date begins a block: the
    /// seconds since the record before are added to the time gone by, and
    /// the block is kept if that time is more than the rollup value of the
    /// block times the density factor; the count of time then starts anew.
    /// Otherwise the block is dropped.
    pub fn observe(&mut self, record_date: String, rollup_value: i32) -> (keep: bool)
        requires
            old(self).well_formed(),
            is_datetime(record_date@),
            0 <= rollup_value,
            rollup_value * DENSITY_FACTOR <= i32::MAX,
            old(self).number_blocks < u64::MAX,
        ensures
            final(self).well_formed(),
            final(self).previous_date@ == record_date@,
            keep == final(self).write,
            record_date@ == old(self).previous_date@ ==> {
                &&& final(self).write == old(self).write
                &&& final(self).number_blocks == old(self).number_blocks
                &&& final(self).last_write_time == old(self).last_write_time
                &&& final(self).deleted_count == old(self).deleted_count
            },
            record_date@ != old(self).previous_date@ ==> {
                let gone_by = old(self).last_write_time + seconds_between(
                    old(self).previous_date@,
                    record_date@,
                );
                &&& final(self).number_blocks == old(self).number_blocks + 1
                &&& final(self).write == (gone_by > rollup_value * DENSITY_FACTOR)
                &&& final(self).last_write_time == if final(self).write {
                    0
                } else {
                    gone_by
                }
                &&& final(self).deleted_count == if final(self).write {
                    old(self).deleted_count as int
                } else {
                    old(self).deleted_count + 1
                }
            },
    {
        if self.opens_block(&record_date) {
            self.write = false;
            self.number_blocks = self.number_blocks + 1;
            let time_density: u128 = (rollup_value * DENSITY_FACTOR) as u128;
            let step = datetime_difference(self.previous_date.as_str(), record_date.as_str());
            proof {
                lemma_difference_bound(self.previous_date@, record_date@);
                let before = old(self).number_blocks as int;
                let after = self.number_blocks as int;
                let bound = MAX_DIFFERENCE as int;
                assert(before * bound + bound == after * bound) by (nonlinear_arith)
                    requires
                        after == before + 1,
                ;
                assert(after * bound <= 0xffff_ffff_ffff_ffff * 0x400_0000_0000)
                    by (nonlinear_arith)
                    requires
                        0 <= after <= 0xffff_ffff_ffff_ffff,
                        bound == 0x400_0000_0000,
                ;
            }
            self.last_write_time = self.last_write_time + step;
            if self.last_write_time > time_density {
                self.write = true;
                self.last_write_time = 0;
            } else {
                self.deleted_count = self.deleted_count + 1;
            }
        }
        self.previous_date = record_date;
        self.write
    }
}

/// Two dates are never further apart than the bound.
proof fn lemma_difference_bound(first: Seq<char>, second: Seq<char>)
    requires
        is_datetime(first),
        is_datetime(second),
    ensures
        0 <= seconds_between(first, second) <= MAX_DIFFERENCE,
{
}

} // verus!
