//! Lengths of time.
use vstd::prelude::*;

verus! {

/// The longest length of time that whole seconds and the nanoseconds of a
/// fraction make, in nanoseconds.
pub const MAX_DURATION_NANOS: u128 = 18_446_744_073_709_551_615_999_999_999;

/// A non-negative length of time with nanosecond precision: whole seconds and
/// the nanoseconds that come on top.
///
/// Its view is the number of nanoseconds.
#[derive(Debug, Clone, Copy, Eq)]
pub struct Duration {
    pub secs: u64,
    pub nanos: u32,
}

impl View for Duration {
    type V = nat;

    open spec fn view(&self) -> nat {
        (self.secs * 1_000_000_000 + self.nanos) as nat
    }
}

impl PartialEq for Duration {
    fn eq(&self, other: &Self) -> (same: bool) {
        self.as_nanos() == other.as_nanos()
    }
}

impl vstd::std_specs::cmp::PartialEqSpecImpl for Duration {
    open spec fn obeys_eq_spec() -> bool {
        true
    }

    open spec fn eq_spec(&self, other: &Self) -> bool {
        self@ == other@
    }
}

/// The whole milliseconds of a length of time given in nanoseconds.
pub open spec fn whole_millis(nanos: nat) -> nat {
    nanos / 1_000_000
}

impl Duration {
    /// `secs` whole seconds.
    pub fn from_secs(secs: u64) -> (duration: Self)
        ensures
            duration@ == secs * 1_000_000_000,
    {
        Duration { secs, nanos: 0 }
    }

    /// `millis` whole milliseconds.
    pub fn from_millis(millis: u64) -> (duration: Self)
        ensures
            duration@ == millis * 1_000_000,
    {
        Duration { secs: millis / 1000, nanos: (millis % 1000) as u32 * 1_000_000 }
    }

    /// The number of whole milliseconds.
    pub fn as_millis(&self) -> (millis: u128)
        ensures
            millis == whole_millis(self@),
    {
        self.as_nanos() / 1_000_000
    }

    /// The number of nanoseconds.
    pub fn as_nanos(&self) -> (nanos: u128)
        ensures
            nanos == self@,
    {
        self.secs as u128 * 1_000_000_000 + self.nanos as u128
    }

    /// Whether no time passes.
    pub fn is_zero(&self) -> (zero: bool)
        ensures
            zero == (self@ == 0),
    {
        self.secs == 0 && self.nanos == 0
    }
}

/// What `{:?}` renders of a length of time of the standard library.
pub uninterp spec fn debug_duration(secs: u64, nanos: u32) -> Seq<char>;

/// Calls the `Debug` formatting of [`std::time::Duration`], whose result depends
/// on the seconds and nanoseconds alone; which unit and how many digits it
/// chooses is left to the standard library.
#[verifier::external_body]
pub(crate) fn duration_text(secs: u64, nanos: u32) -> (text: String)
    requires
        nanos < 1_000_000_000,
    ensures
        text@ == debug_duration(secs, nanos),
{
    format!("{:?}", std::time::Duration::new(secs, nanos))
}

/// What `{:?}` renders of so many nanoseconds.
pub open spec fn debug_nanos(nanos: nat) -> Seq<char> {
    debug_duration((nanos / 1_000_000_000) as u64, (nanos % 1_000_000_000) as u32)
}

impl Duration {
    /// The length of time as it is shown to people.
    pub fn display(&self) -> (text: String)
        requires
            self@ <= MAX_DURATION_NANOS,
        ensures
            text@ == debug_nanos(self@),
    {
        let total: u128 = self.as_nanos();
        duration_text((total / 1_000_000_000) as u64, (total % 1_000_000_000) as u32)
    }
}

/// The whole milliseconds of a duration are the most that fit into it.
pub proof fn law_whole_millis_fit(nanos: nat)
    ensures
        whole_millis(nanos) * 1_000_000 <= nanos < (whole_millis(nanos) + 1) * 1_000_000,
{
}

} // verus!
