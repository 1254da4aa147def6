//! Wall-clock timestamps, monotonic moments and the clock that reads both.

use vstd::prelude::*;

verus! {

pub const NANOS_PER_SECOND: u32 = 1_000_000_000;

/// A point in wall-clock time, counted from the Unix epoch.
#[derive(Debug, Clone, Copy, PartialEq, Eq, Structural)]
pub struct Timestamp {
    pub secs: i64,
    pub nanos: u32,
}

/// Nanoseconds from the Unix epoch to `t`; negative before the epoch.
pub open spec fn since_epoch(t: Timestamp) -> int {
    t.secs * NANOS_PER_SECOND + t.nanos
}

/// A point in monotonic time, in nanoseconds from the start of a [`Clock`].
#[derive(Debug, Clone, Copy, PartialEq, Eq, Structural)]
pub struct Moment {
    pub nanos: u64,
}

/// What a [`Clock`] shows at one point in time.
#[derive(Debug, Clone, Copy, PartialEq, Eq, Structural)]
pub struct Reading {
    pub moment: Moment,
    pub wall: Timestamp,
}

/// Whole seconds and remaining nanoseconds from the epoch to `t`; nothing where
/// `t` lies before the epoch.
pub open spec fn unix_parts(t: Timestamp) -> (int, int) {
    if since_epoch(t) < 0 {
        (0, 0)
    } else {
        (
            since_epoch(t) / (NANOS_PER_SECOND as int),
            since_epoch(t) % (NANOS_PER_SECOND as int),
        )
    }
}

/// The timestamp that many seconds and nanoseconds after the epoch, as far as
/// there is one.
pub open spec fn at_unix(secs: int, nanos: int) -> Option<Timestamp> {
    let whole = secs + nanos / (NANOS_PER_SECOND as int);
    if whole > i64::MAX {
        None
    } else {
        Some(Timestamp { secs: whole as i64, nanos: (nanos % (NANOS_PER_SECOND as int)) as u32 })
    }
}

impl Timestamp {
    /// The timestamp `secs` seconds and `nanos` nanoseconds after the epoch.
    /// `None` when it lies beyond the largest timestamp.
    pub fn from_unix(secs: u64, nanos: u32) -> (time: Option<Timestamp>)
        ensures
            time == at_unix(secs as int, nanos as int),
            time matches Some(t) ==> since_epoch(t) == secs * NANOS_PER_SECOND + nanos,
    {
        let carry: u64 = (nanos / NANOS_PER_SECOND) as u64;
        let rest: u32 = nanos % NANOS_PER_SECOND;
        let limit: u64 = 0x7FFF_FFFF_FFFF_FFFF;
        if secs > limit || secs + carry > limit {
            return None;
        }
        let whole: u64 = secs + carry;
        let time = Timestamp { secs: whole as i64, nanos: rest };
        assert(since_epoch(time) == secs * NANOS_PER_SECOND + nanos) by (nonlinear_arith)
            requires
                time.secs == secs + nanos / NANOS_PER_SECOND,
                time.nanos == nanos % NANOS_PER_SECOND,
                NANOS_PER_SECOND == 1_000_000_000u32,
        ;
        Some(time)
    }

    /// Whole seconds and remaining nanoseconds since the epoch. A time before
    /// the epoch counts as the epoch.
    pub fn to_unix(self) -> (parts: (u64, u32))
        ensures
            parts.0 == unix_parts(self).0,
            parts.1 == unix_parts(self).1,
    {
        let total: i128 = self.total();
        if total < 0 {
            return (0, 0);
        }
        let count: u128 = total as u128;
        let secs: u128 = count / 1_000_000_000u128;
        let nanos: u128 = count % 1_000_000_000u128;
        (secs as u64, nanos as u32)
    }

    fn total(self) -> (nanos: i128)
        ensures
            nanos == since_epoch(self),
            -0x8000_0000_0000_0000 * 1_000_000_000 <= nanos <= 0x7FFF_FFFF_FFFF_FFFF
                * 1_000_000_000 + 0xFFFF_FFFF,
    {
        let secs: i128 = self.secs as i128;
        let nanos: i128 = self.nanos as i128;
        assert(-0x8000_0000_0000_0000 * 1_000_000_000 <= secs * 1_000_000_000
            <= 0x7FFF_FFFF_FFFF_FFFF * 1_000_000_000) by (nonlinear_arith)
            requires
                -0x8000_0000_0000_0000 <= secs <= 0x7FFF_FFFF_FFFF_FFFF,
        ;
        secs * 1_000_000_000i128 + nanos
    }

    /// Nanoseconds from `earlier` to `self`. `None` when `earlier` is later.
    pub fn nanos_since(self, earlier: Timestamp) -> (age: Option<u128>)
        ensures
            age == if since_epoch(self) >= since_epoch(earlier) {
                Some((since_epoch(self) - since_epoch(earlier)) as u128)
            } else {
                None
            },
    {
        let now: i128 = self.total();
        let then: i128 = earlier.total();
        if now < then {
            None
        } else {
            Some((now - then) as u128)
        }
    }
}

/// Writing a timestamp as Unix seconds and nanoseconds and reading it back gives
/// the same point in time, for every time from the epoch on.
pub proof fn unix_parts_read_back(t: Timestamp)
    requires
        since_epoch(t) >= 0,
        t.nanos < NANOS_PER_SECOND,
    ensures
        at_unix(unix_parts(t).0, unix_parts(t).1) == Some(t),
{
    assert(t.secs >= 0);
}

/// The point `secs` seconds and `nanos` nanoseconds after the epoch or, where
/// `before_epoch`, that long before it. `None` when no timestamp is that far from
/// the epoch.
pub fn timestamp_of(before_epoch: bool, secs: u64, nanos: u32) -> (time: Option<Timestamp>)
    requires
        nanos < NANOS_PER_SECOND,
    ensures
        time is None <==> if before_epoch {
            secs >= i64::MAX
        } else {
            secs > i64::MAX
        },
        time matches Some(t) ==> t.nanos < NANOS_PER_SECOND && since_epoch(t) == if before_epoch {
            -(secs * NANOS_PER_SECOND + nanos)
        } else {
            secs * NANOS_PER_SECOND + nanos
        },
{
    if !before_epoch {
        return Timestamp::from_unix(secs, nanos);
    }
    let limit: u64 = 0x7FFF_FFFF_FFFF_FFFF;
    if secs >= limit {
        return None;
    }
    let whole: i64 = secs as i64;
    if nanos == 0 {
        Some(Timestamp { secs: -whole, nanos: 0 })
    } else {
        Some(Timestamp { secs: -whole - 1, nanos: NANOS_PER_SECOND - nanos })
    }
}

/// Whether `wall` is the timestamp at a distance from the epoch: that far after it
/// or before it or, where no timestamp is that far away, the epoch itself.
pub open spec fn shows(wall: Timestamp, before_epoch: bool, secs: u64, nanos: u32) -> bool {
    &&& wall.nanos < NANOS_PER_SECOND
    &&& since_epoch(wall) == if before_epoch {
        if secs >= i64::MAX {
            0
        } else {
            -(secs * NANOS_PER_SECOND + nanos)
        }
    } else {
        if secs > i64::MAX {
            0
        } else {
            secs * NANOS_PER_SECOND + nanos
        }
    }
}

/// What a wall clock at a distance from the epoch reads as. One set beyond the
/// range of [`Timestamp`] reads as the epoch.
pub fn wall_time(before_epoch: bool, secs: u64, nanos: u32) -> (wall: Timestamp)
    requires
        nanos < NANOS_PER_SECOND,
    ensures
        shows(wall, before_epoch, secs, nanos),
{
    match timestamp_of(before_epoch, secs, nanos) {
        Some(time) => time,
        None => Timestamp { secs: 0, nanos: 0 },
    }
}

/// Whether a wall clock can read as `wall`: some distance from the epoch does.
pub open spec fn can_be_shown(wall: Timestamp) -> bool {
    exists|before_epoch: bool, secs: u64, nanos: u32|
        nanos < NANOS_PER_SECOND && #[trigger] shows(wall, before_epoch, secs, nanos)
}

/// `std`'s monotonic instant. Values are only passed back to `std`.
#[verifier::external_type_specification]
#[verifier::external_body]
pub struct ExInstant(std::time::Instant);

/// `std`'s `Instant::now`. Nothing is known of the instant.
#[verifier::external_body]
fn instant_now() -> (now: std::time::Instant) {
    std::time::Instant::now()
}

/// `std`'s `Instant::elapsed`, in nanoseconds. Nothing is known of the number:
/// it depends on the time of the call.
#[verifier::external_body]
fn elapsed_nanos(start: &std::time::Instant) -> (nanos: u64) {
    start.elapsed().as_nanos() as u64
}

/// `std`'s `SystemTime::now`, as its distance from the Unix epoch: whether it
/// lies before the epoch, whole seconds, and nanoseconds, which `std` documents
/// to be less than a second.
#[verifier::external_body]
fn system_time_now() -> (distance: (bool, u64, u32))
    ensures
        distance.2 < NANOS_PER_SECOND,
{
    match std::time::SystemTime::now().duration_since(std::time::SystemTime::UNIX_EPOCH) {
        Ok(after) => (false, after.as_secs(), after.subsec_nanos()),
        Err(before) => (true, before.duration().as_secs(), before.duration().subsec_nanos()),
    }
}

/// Reads wall-clock and monotonic time.
pub struct Clock {
    start: std::time::Instant,
}

impl Clock {
    /// A clock whose monotonic time starts now. When that is, nothing says.
    pub fn start() -> Clock {
        Clock { start: instant_now() }
    }

    /// The monotonic time that has passed since the clock was started. How much
    /// that is depends on the time of the call.
    pub fn moment(&self) -> Moment {
        Moment { nanos: elapsed_nanos(&self.start) }
    }

    /// Both times at once. The wall clock reads as [`wall_time`] says of the
    /// distance that the system gives; what that is depends on the time of the
    /// call, and so does the moment.
    pub fn read(&self) -> (reading: Reading)
        ensures
            can_be_shown(reading.wall),
    {
        let (before_epoch, secs, nanos) = system_time_now();
        let wall = wall_time(before_epoch, secs, nanos);
        assert(shows(wall, before_epoch, secs, nanos));
        Reading { moment: self.moment(), wall }
    }
}

/// A timestamp counted from the epoch is as far from it as it was counted, and has less
/// than a second of nanoseconds; there is none only beyond the largest.
pub proof fn timestamp_is_as_far_as_counted(secs: u64, nanos: u32)
    ensures
        at_unix(secs as int, nanos as int) matches Some(t) ==> t.nanos < 1_000_000_000 && t.secs
            * 1_000_000_000 + t.nanos == secs * 1_000_000_000 + nanos,
        at_unix(secs as int, nanos as int) is None <==> secs * 1_000_000_000 + nanos
            >= 0x8000_0000_0000_0000 * 1_000_000_000,
{
}

/// The whole seconds and the nanoseconds of a time from the epoch on add up to it; a
/// time before the epoch counts as the epoch.
pub proof fn unix_parts_add_up(t: Timestamp)
    ensures
        0 <= unix_parts(t).1 < 1_000_000_000,
        t.secs * 1_000_000_000 + t.nanos >= 0 ==> unix_parts(t).0 * 1_000_000_000 + unix_parts(t).1
            == t.secs * 1_000_000_000 + t.nanos,
        t.secs * 1_000_000_000 + t.nanos < 0 ==> unix_parts(t) == (0int, 0int),
{
}

/// A wall clock that is read shows how far it is from the epoch, before it or after it;
/// one too far off shows the epoch.
pub proof fn wall_clock_shows_its_distance(wall: Timestamp, secs: u64, nanos: u32)
    ensures
        shows(wall, false, secs, nanos) && secs <= 0x7FFF_FFFF_FFFF_FFFF ==> wall.secs
            * 1_000_000_000 + wall.nanos == secs * 1_000_000_000 + nanos,
        shows(wall, true, secs, nanos) && secs < 0x7FFF_FFFF_FFFF_FFFF ==> wall.secs * 1_000_000_000
            + wall.nanos == -(secs * 1_000_000_000 + nanos),
        shows(wall, false, secs, nanos) && secs > 0x7FFF_FFFF_FFFF_FFFF ==> wall.secs
            * 1_000_000_000 + wall.nanos == 0,
        shows(wall, true, secs, nanos) && secs >= 0x7FFF_FFFF_FFFF_FFFF ==> wall.secs
            * 1_000_000_000 + wall.nanos == 0,
        shows(wall, false, secs, nanos) || shows(wall, true, secs, nanos) ==> wall.nanos
            < 1_000_000_000,
{
}

} // verus!
