//! Amounts of resources: CPU cores and memory.

use std::ops::{Add, Sub};
use vstd::prelude::*;
use vstd::std_specs::ops::{AddSpecImpl, SubSpecImpl};

verus! {

/// An amount of resources as a mathematical value: CPU cores and GiB of
/// memory, each an unbounded integer that may be negative.
pub struct Budget {
    pub cpus: int,
    pub mem_gb: int,
}

impl Budget {
    /// Nothing of either resource.
    pub open spec fn zero() -> Budget {
        Budget { cpus: 0, mem_gb: 0 }
    }

    /// The sum of two amounts, dimension by dimension.
    pub open spec fn plus(self, other: Budget) -> Budget {
        Budget { cpus: self.cpus + other.cpus, mem_gb: self.mem_gb + other.mem_gb }
    }

    /// The difference of two amounts, dimension by dimension.
    pub open spec fn minus(self, other: Budget) -> Budget {
        Budget { cpus: self.cpus - other.cpus, mem_gb: self.mem_gb - other.mem_gb }
    }

    /// Whether this demand is at most `available` in both dimensions.
    pub open spec fn fits_within(self, available: Budget) -> bool {
        self.cpus <= available.cpus && self.mem_gb <= available.mem_gb
    }

    /// Whether neither dimension is negative.
    pub open spec fn is_demand(self) -> bool {
        0 <= self.cpus && 0 <= self.mem_gb
    }

    /// Whether both dimensions can be stored in an `i64`.
    pub open spec fn representable(self) -> bool {
        &&& i64::MIN <= self.cpus <= i64::MAX
        &&& i64::MIN <= self.mem_gb <= i64::MAX
    }
}

/// Resource consumption profile for a rate-limited process.
///
/// The components are signed: a free budget may be driven below zero when a
/// process is admitted although it does not fit.
#[derive(Clone, Copy, Debug, PartialEq, Eq, Structural)]
pub struct ResourceProfile {
    /// Number of CPU cores this process consumes.
    pub cpus: i64,
    /// Memory this process consumes in GiB.
    pub mem_gb: i64,
}

impl View for ResourceProfile {
    type V = Budget;

    open spec fn view(&self) -> Budget {
        Budget { cpus: self.cpus as int, mem_gb: self.mem_gb as int }
    }
}

impl ResourceProfile {
    /// The profile with the given number of cores and GiB of memory.
    pub fn new(cpus: i64, mem_gb: i64) -> (profile: Self)
        ensures
            profile.cpus == cpus,
            profile.mem_gb == mem_gb,
    {
        Self { cpus, mem_gb }
    }

    /// Returns true if the provided available resources can satisfy this profile's requirements.
    pub fn has_free_resources(&self, available: &ResourceProfile) -> (fits: bool)
        ensures
            fits == self@.fits_within(available@),
    {
        self.cpus <= available.cpus && self.mem_gb <= available.mem_gb
    }
}

impl AddSpecImpl for ResourceProfile {
    open spec fn obeys_add_spec() -> bool {
        true
    }

    open spec fn add_req(self, other: ResourceProfile) -> bool {
        self@.plus(other@).representable()
    }

    open spec fn add_spec(self, other: ResourceProfile) -> ResourceProfile {
        ResourceProfile {
            cpus: (self.cpus + other.cpus) as i64,
            mem_gb: (self.mem_gb + other.mem_gb) as i64,
        }
    }
}

impl Add for ResourceProfile {
    type Output = Self;

    /// The sum, dimension by dimension. It must fit the components.
    fn add(self, other: Self) -> (sum: Self)
        ensures
            sum@ == self@.plus(other@),
    {
        Self { cpus: self.cpus + other.cpus, mem_gb: self.mem_gb + other.mem_gb }
    }
}

impl SubSpecImpl for ResourceProfile {
    open spec fn obeys_sub_spec() -> bool {
        true
    }

    open spec fn sub_req(self, other: ResourceProfile) -> bool {
        self@.minus(other@).representable()
    }

    open spec fn sub_spec(self, other: ResourceProfile) -> ResourceProfile {
        ResourceProfile {
            cpus: (self.cpus - other.cpus) as i64,
            mem_gb: (self.mem_gb - other.mem_gb) as i64,
        }
    }
}

impl Sub for ResourceProfile {
    type Output = Self;

    /// The difference, dimension by dimension, which may go below zero.
    /// It must fit the components.
    fn sub(self, other: Self) -> (difference: Self)
        ensures
            difference@ == self@.minus(other@),
    {
        Self { cpus: self.cpus - other.cpus, mem_gb: self.mem_gb - other.mem_gb }
    }
}

} // verus!
