//! Registration instants, and their passage between the calendar clock of the
//! application and the native timestamp of the database.

use time::Timespec;
use vstd::prelude::*;
use vstd::std_specs::cmp::PartialEqSpec;
use vstd::std_specs::convert::{FromSpecImpl, TryFromSpecImpl};

verus! {

/// The native timestamp of the database driver: whole seconds since the Unix
/// epoch and the nanoseconds past that second.
#[verifier::external_type_specification]
pub struct ExTimespec(Timespec);

/// An instant of the UTC calendar clock: the whole non-leap seconds since the
/// Unix epoch, and the nanoseconds since the last second boundary. During a
/// leap second the nanoseconds run on from 1_000_000_000.
#[derive(Copy, Clone, Debug, PartialEq, Eq, Structural)]
pub struct CalendarTime {
    /// Whole seconds since January 1, 1970.
    pub seconds: i64,
    /// Nanoseconds since the last second boundary.
    pub subsec_nanos: u32,
}

/// The sub-second part of a calendar time does not fit the signed 32 bits in
/// which a registration timestamp keeps its nanoseconds.
#[derive(Copy, Clone, Debug, PartialEq, Eq, Structural)]
pub struct OutOfRange {
    /// The nanoseconds that did not fit.
    pub subsec_nanos: u32,
}

/// The instant at which a user registered (UTC).
#[derive(Copy, Clone, Debug)]
pub struct RegistrationTimestamp {
    sec: i64,
    nsec: i32,
}

/// The whole milliseconds in `nsec` nanoseconds, rounded towards zero.
pub open spec fn whole_millis(nsec: i32) -> int {
    if nsec >= 0 {
        nsec as int / 1_000_000
    } else {
        -((-(nsec as int)) / 1_000_000)
    }
}

/// Signed nanoseconds read as an unsigned number of the same 32 bits.
pub open spec fn unsigned_nanos(nsec: i32) -> u32 {
    if nsec >= 0 {
        nsec as u32
    } else {
        (nsec + 0x1_0000_0000) as u32
    }
}

impl RegistrationTimestamp {
    /// The whole seconds since January 1, 1970.
    pub closed spec fn spec_seconds(&self) -> i64 {
        self.sec
    }

    /// The nanoseconds past the whole second.
    pub closed spec fn spec_nanoseconds(&self) -> i32 {
        self.nsec
    }

    /// The timestamp of `sec` seconds and `nsec` nanoseconds.
    pub closed spec fn at(sec: i64, nsec: i32) -> RegistrationTimestamp {
        RegistrationTimestamp { sec, nsec }
    }

    /// A timestamp as the data model has it: less than a second's worth of
    /// nanoseconds, and none of them negative.
    pub open spec fn is_normal(&self) -> bool {
        0 <= self.nanoseconds() < 1_000_000_000
    }

    /// Two timestamps are the same registration instant when they agree on
    /// the second and on the millisecond within it: what lies below the
    /// millisecond is lost in a column of millisecond precision.
    pub open spec fn same_instant(&self, other: &RegistrationTimestamp) -> bool {
        &&& self.seconds() == other.seconds()
        &&& whole_millis(self.nanoseconds()) == whole_millis(other.nanoseconds())
    }

    /// The native representation of the timestamp.
    pub open spec fn native(&self) -> Timespec {
        Timespec { sec: self.seconds(), nsec: self.nanoseconds() }
    }

    /// The calendar time of the timestamp.
    pub open spec fn calendar_time(&self) -> CalendarTime {
        CalendarTime {
            seconds: self.seconds(),
            subsec_nanos: unsigned_nanos(self.nanoseconds()),
        }
    }

    /// What a calendar time becomes as a timestamp.
    pub open spec fn of_calendar_time(time: CalendarTime) -> Result<
        RegistrationTimestamp,
        OutOfRange,
    > {
        if time.subsec_nanos <= i32::MAX {
            Ok(Self::at(time.seconds, time.subsec_nanos as i32))
        } else {
            Err(OutOfRange { subsec_nanos: time.subsec_nanos })
        }
    }

    /// Gets the number of whole seconds since January 1, 1970 represented by
    /// this timestamp.
    #[verifier::when_used_as_spec(spec_seconds)]
    pub fn seconds(&self) -> (sec: i64)
        ensures
            sec == self.spec_seconds(),
    {
        self.sec
    }

    /// Gets the number of remaining nanoseconds since January 1, 1970
    /// represented by this timestamp.
    #[verifier::when_used_as_spec(spec_nanoseconds)]
    pub fn nanoseconds(&self) -> (nsec: i32)
        ensures
            nsec == self.spec_nanoseconds(),
    {
        self.nsec
    }
}

/// A timestamp is its seconds and its nanoseconds, and nothing else.
pub broadcast proof fn lemma_timestamp_parts(sec: i64, nsec: i32)
    ensures
        (#[trigger] RegistrationTimestamp::at(sec, nsec)).seconds() == sec,
        RegistrationTimestamp::at(sec, nsec).nanoseconds() == nsec,
{
}

/// Timestamps with the same seconds and the same nanoseconds are one
/// timestamp.
pub proof fn lemma_timestamp_extensional(a: RegistrationTimestamp, b: RegistrationTimestamp)
    requires
        a.seconds() == b.seconds(),
        a.nanoseconds() == b.nanoseconds(),
    ensures
        a == b,
        a == RegistrationTimestamp::at(a.seconds(), a.nanoseconds()),
{
}

impl PartialEq for RegistrationTimestamp {
    /// Equality at millisecond granularity.
    fn eq(&self, other: &Self) -> (same: bool) {
        self.sec == other.sec && self.nsec / 1_000_000 == other.nsec / 1_000_000
    }
}

impl vstd::std_specs::cmp::PartialEqSpecImpl for RegistrationTimestamp {
    open spec fn obeys_eq_spec() -> bool {
        true
    }

    open spec fn eq_spec(&self, other: &Self) -> bool {
        self.same_instant(other)
    }
}

impl Default for RegistrationTimestamp {
    /// The epoch itself.
    fn default() -> (epoch: Self)
        ensures
            epoch == RegistrationTimestamp::at(0, 0),
    {
        Self { sec: 0, nsec: 0 }
    }
}

impl From<Timespec> for RegistrationTimestamp {
    /// Takes over the native timestamp as it stands.
    fn from(timestamp: Timespec) -> (r: Self)
        ensures
            r == RegistrationTimestamp::at(timestamp.sec, timestamp.nsec),
    {
        Self { sec: timestamp.sec, nsec: timestamp.nsec }
    }
}

impl FromSpecImpl<Timespec> for RegistrationTimestamp {
    open spec fn obeys_from_spec() -> bool {
        true
    }

    open spec fn from_spec(timestamp: Timespec) -> Self {
        RegistrationTimestamp::at(timestamp.sec, timestamp.nsec)
    }
}

impl From<&RegistrationTimestamp> for Timespec {
    /// Hands the timestamp out in its native form, as it stands.
    fn from(timestamp: &RegistrationTimestamp) -> (r: Self)
        ensures
            r == timestamp.native(),
    {
        Self { sec: timestamp.sec, nsec: timestamp.nsec }
    }
}

impl FromSpecImpl<&RegistrationTimestamp> for Timespec {
    open spec fn obeys_from_spec() -> bool {
        true
    }

    open spec fn from_spec(timestamp: &RegistrationTimestamp) -> Self {
        timestamp.native()
    }
}

impl From<RegistrationTimestamp> for Timespec {
    /// Hands an owned timestamp out in its native form.
    fn from(timestamp: RegistrationTimestamp) -> (r: Self)
        ensures
            r == timestamp.native(),
    {
        <Timespec as From<&RegistrationTimestamp>>::from(&timestamp)
    }
}

impl FromSpecImpl<RegistrationTimestamp> for Timespec {
    open spec fn obeys_from_spec() -> bool {
        true
    }

    open spec fn from_spec(timestamp: RegistrationTimestamp) -> Self {
        timestamp.native()
    }
}

impl From<&RegistrationTimestamp> for CalendarTime {
    /// The calendar time of the timestamp. Negative nanoseconds, which no
    /// calendar time has, come out as the unsigned number of the same bits.
    fn from(timestamp: &RegistrationTimestamp) -> (r: Self)
        ensures
            r == timestamp.calendar_time(),
    {
        let subsec_nanos: u32 = if timestamp.nsec >= 0 {
            timestamp.nsec as u32
        } else {
            (timestamp.nsec as i64 + 0x1_0000_0000i64) as u32
        };
        CalendarTime { seconds: timestamp.sec, subsec_nanos }
    }
}

impl FromSpecImpl<&RegistrationTimestamp> for CalendarTime {
    open spec fn obeys_from_spec() -> bool {
        true
    }

    open spec fn from_spec(timestamp: &RegistrationTimestamp) -> Self {
        timestamp.calendar_time()
    }
}

impl From<RegistrationTimestamp> for CalendarTime {
    /// The calendar time of an owned timestamp.
    fn from(timestamp: RegistrationTimestamp) -> (r: Self)
        ensures
            r == timestamp.calendar_time(),
    {
        <CalendarTime as From<&RegistrationTimestamp>>::from(&timestamp)
    }
}

impl FromSpecImpl<RegistrationTimestamp> for CalendarTime {
    open spec fn obeys_from_spec() -> bool {
        true
    }

    open spec fn from_spec(timestamp: RegistrationTimestamp) -> Self {
        timestamp.calendar_time()
    }
}

impl TryFrom<CalendarTime> for RegistrationTimestamp {
    type Error = OutOfRange;

    /// Splits a calendar time into seconds and nanoseconds. The seconds are
    /// kept as they are; the nanoseconds are kept if they fit in a signed 32
    /// bit number, and are out of range otherwise.
    fn try_from(timestamp: CalendarTime) -> (r: Result<Self, OutOfRange>)
        ensures
            r == RegistrationTimestamp::of_calendar_time(timestamp),
    {
        if timestamp.subsec_nanos <= 0x7fff_ffffu32 {
            Ok(Self { sec: timestamp.seconds, nsec: timestamp.subsec_nanos as i32 })
        } else {
            Err(OutOfRange { subsec_nanos: timestamp.subsec_nanos })
        }
    }
}

impl TryFromSpecImpl<CalendarTime> for RegistrationTimestamp {
    open spec fn obeys_try_from_spec() -> bool {
        true
    }

    open spec fn try_from_spec(timestamp: CalendarTime) -> Result<Self, OutOfRange> {
        RegistrationTimestamp::of_calendar_time(timestamp)
    }
}

/// Timestamps of one second whose nanoseconds lie in the same millisecond
/// `m` are equal, however they differ below the millisecond.
pub proof fn lemma_equal_within_millisecond(
    a: RegistrationTimestamp,
    b: RegistrationTimestamp,
    m: int,
)
    requires
        a.seconds() == b.seconds(),
        0 <= m,
        m * 1_000_000 <= a.nanoseconds() < (m + 1) * 1_000_000,
        m * 1_000_000 <= b.nanoseconds() < (m + 1) * 1_000_000,
    ensures
        a.same_instant(&b),
        a.eq_spec(&b),
{
}

/// Equality of timestamps is an equivalence.
pub proof fn lemma_same_instant_is_equivalence(
    a: RegistrationTimestamp,
    b: RegistrationTimestamp,
    c: RegistrationTimestamp,
)
    ensures
        a.same_instant(&a),
        a.same_instant(&b) ==> b.same_instant(&a),
        a.same_instant(&b) && b.same_instant(&c) ==> a.same_instant(&c),
{
}

/// The native form loses nothing: a timestamp made from a native timestamp
/// hands the same native timestamp out again, and the other way round.
pub proof fn lemma_native_round_trip(native: Timespec, timestamp: RegistrationTimestamp)
    ensures
        RegistrationTimestamp::at(native.sec, native.nsec).native() == native,
        RegistrationTimestamp::at(timestamp.native().sec, timestamp.native().nsec) == timestamp,
{
}

/// The calendar time of a timestamp is the exact inverse of splitting a
/// calendar time: whatever calendar time was split comes back whole.
pub proof fn lemma_calendar_round_trip(time: CalendarTime)
    requires
        time.subsec_nanos <= i32::MAX,
    ensures
        RegistrationTimestamp::of_calendar_time(time) matches Ok(timestamp)
            && timestamp.calendar_time() == time,
{
}

/// A timestamp without negative nanoseconds is what its own calendar time is
/// split into.
pub proof fn lemma_timestamp_round_trip(timestamp: RegistrationTimestamp)
    requires
        timestamp.nanoseconds() >= 0,
    ensures
        RegistrationTimestamp::of_calendar_time(timestamp.calendar_time()) == Ok::<
            RegistrationTimestamp,
            OutOfRange,
        >(timestamp),
{
}

/// A calendar time is out of range exactly when its nanoseconds exceed the
/// largest signed 32 bit number.
pub proof fn lemma_out_of_range_iff(time: CalendarTime)
    ensures
        RegistrationTimestamp::of_calendar_time(time) is Err <==> time.subsec_nanos > i32::MAX,
        RegistrationTimestamp::of_calendar_time(time) is Err
            ==> RegistrationTimestamp::of_calendar_time(time) == Err::<
            RegistrationTimestamp,
            OutOfRange,
        >(OutOfRange { subsec_nanos: time.subsec_nanos }),
{
}

} // verus!
