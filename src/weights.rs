use vstd::prelude::*;
use crate::types::Weight;

verus! {

/// `a + b`, clamped at the largest weight.
pub open spec fn sat_add(a: u64, b: u64) -> u64 {
    if a + b > u64::MAX {
        u64::MAX
    } else {
        (a + b) as u64
    }
}

/// `a * b`, clamped at the largest weight.
pub open spec fn sat_mul(a: u64, b: u64) -> u64 {
    if a * b > u64::MAX {
        u64::MAX
    } else {
        (a * b) as u64
    }
}

fn saturating_mul(a: u64, b: u64) -> (r: u64)
    ensures
        r == sat_mul(a, b),
{
    match a.checked_mul(b) {
        Some(v) => v,
        None => u64::MAX,
    }
}

/// Cost of one storage read and of one storage write.
#[derive(Copy, Clone, PartialEq, Eq, Debug, Structural)]
pub struct RuntimeDbWeight {
    pub read: Weight,
    pub write: Weight,
}

impl RuntimeDbWeight {
    /// Cost of one read followed by one write.
    pub open spec fn spec_read_write(self) -> Weight {
        sat_add(self.read, self.write)
    }

    pub fn reads(&self, r: u64) -> (w: Weight)
        ensures
            w == sat_mul(self.read, r),
    {
        saturating_mul(self.read, r)
    }

    pub fn writes(&self, w: u64) -> (c: Weight)
        ensures
            c == sat_mul(self.write, w),
    {
        saturating_mul(self.write, w)
    }

    pub fn reads_writes(&self, r: u64, w: u64) -> (c: Weight)
        ensures
            c == sat_add(sat_mul(self.read, r), sat_mul(self.write, w)),
    {
        saturating_mul(self.read, r).saturating_add(saturating_mul(self.write, w))
    }
}

/// Cost model of the tick processor.
pub trait WeightInfo {
    fn do_execute_subscriptions(&self, itts: u32) -> Weight;
}

/// Cost model that charges one read and one write per tick.
#[derive(Copy, Clone, PartialEq, Eq, Debug, Structural)]
pub struct SubstrateWeight {
    pub db_weight: RuntimeDbWeight,
}

impl WeightInfo for SubstrateWeight {
    fn do_execute_subscriptions(&self, itts: u32) -> (c: Weight)
        ensures
            c == sat_add(self.db_weight.read, self.db_weight.write),
    {
        let zero: u64 = 0;
        zero.saturating_add(self.db_weight.reads(1)).saturating_add(self.db_weight.writes(1))
    }
}

} // verus!
