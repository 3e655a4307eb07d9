//! Disc timestamps: minutes, seconds and frames, 75 frames to the second.
//!
//! Arithmetic goes through the frame count of a timestamp. A difference below
//! zero never wraps around: `subtract` has its caller rule it out,
//! `checked_subtract` answers it with `None`, and `saturating_subtract` with
//! `00:00:00`.

use vstd::arithmetic::div_mod::{
    lemma_div_pos_is_pos, lemma_fundamental_div_mod, lemma_fundamental_div_mod_converse,
    lemma_mod_bound,
};
use vstd::prelude::*;

verus! {

/// Frames in one second.
pub const FRAMES_PER_SECOND: u64 = 75;

/// Seconds in one minute.
pub const SECONDS_PER_MINUTE: u64 = 60;

/// Frames in one minute: 60 times 75.
pub const FRAMES_PER_MINUTE: u64 = 4500;

/// A position or a length on a disc, as `minutes:seconds:frames`.
///
/// Every value is normalized: `seconds` is below 60, `frames` is below 75, and
/// the total frame count fits in a `u64`. A `Time` therefore stands for exactly
/// one frame count, and every `u64` frame count for exactly one `Time`.
#[derive(Clone, Copy, Debug, PartialEq, Eq, Hash)]
pub struct Time {
    minutes: u64,
    seconds: u8,
    frames: u8,
}

impl Time {
    /// The frame count of `minutes:seconds:frames`, as a mathematical integer.
    pub open spec fn frames_of(minutes: int, seconds: int, frames: int) -> int {
        minutes * 4500 + seconds * 75 + frames
    }

    /// Whether `minutes:seconds:frames` is a normalized timestamp whose frame
    /// count fits in a `u64`.
    pub open spec fn valid(minutes: int, seconds: int, frames: int) -> bool {
        &&& 0 <= minutes
        &&& 0 <= seconds < 60
        &&& 0 <= frames < 75
        &&& Self::frames_of(minutes, seconds, frames) <= u64::MAX
    }

    /// The minutes field.
    pub closed spec fn spec_minutes(self) -> int {
        self.minutes as int
    }

    /// The seconds field.
    pub closed spec fn spec_seconds(self) -> int {
        self.seconds as int
    }

    /// The frames field.
    pub closed spec fn spec_frames(self) -> int {
        self.frames as int
    }

    /// The total frame count that this timestamp stands for.
    pub open spec fn total_frames(self) -> int {
        Self::frames_of(self.spec_minutes(), self.spec_seconds(), self.spec_frames())
    }

    /// The invariant of the type.
    #[verifier::type_invariant]
    pub open spec fn is_normalized(self) -> bool {
        Self::valid(self.spec_minutes(), self.spec_seconds(), self.spec_frames())
    }

    /// The timestamp of a frame count: `n / 4500` minutes; then, of the
    /// `n % 4500` frames that are left, `(n % 4500) / 75` seconds and
    /// `(n % 4500) % 75` frames.
    pub closed spec fn spec_from_frames(n: int) -> Time {
        Time {
            minutes: (n / 4500) as u64,
            seconds: ((n % 4500) / 75) as u8,
            frames: ((n % 4500) % 75) as u8,
        }
    }

    /// The timestamp `other` frames before `self`.
    pub open spec fn spec_subtract(self, other: Time) -> Time {
        Self::spec_from_frames(self.total_frames() - other.total_frames())
    }

    /// The timestamp `other` frames before `self`, or `00:00:00` where `other` is
    /// the longer of the two.
    pub open spec fn spec_saturating_subtract(self, other: Time) -> Time {
        if self.total_frames() >= other.total_frames() {
            self.spec_subtract(other)
        } else {
            Self::spec_from_frames(0)
        }
    }

    /// The timestamp `other` frames after `self`.
    pub open spec fn spec_add(self, other: Time) -> Time {
        Self::spec_from_frames(self.total_frames() + other.total_frames())
    }

    /// `minutes:seconds:frames`.
    pub fn new(minutes: u64, seconds: u8, frames: u8) -> (t: Time)
        requires
            Self::valid(minutes as int, seconds as int, frames as int),
        ensures
            t.spec_minutes() == minutes,
            t.spec_seconds() == seconds,
            t.spec_frames() == frames,
            t.is_normalized(),
    {
        Time { minutes, seconds, frames }
    }

    /// `minutes:seconds:frames` where that is a normalized timestamp whose frame
    /// count fits in a `u64`, and `None` where it is not.
    pub fn checked_new(minutes: u64, seconds: u8, frames: u8) -> (r: Option<Time>)
        ensures
            r is Some <==> Self::valid(minutes as int, seconds as int, frames as int),
            r matches Some(t) ==> {
                &&& t.spec_minutes() == minutes
                &&& t.spec_seconds() == seconds
                &&& t.spec_frames() == frames
                &&& t.is_normalized()
            },
    {
        if seconds as u64 >= SECONDS_PER_MINUTE || frames as u64 >= FRAMES_PER_SECOND {
            return None;
        }
        let rest: u64 = (seconds as u64) * FRAMES_PER_SECOND + (frames as u64);
        proof {
            lemma_fundamental_div_mod(u64::MAX - rest, 4500);
            lemma_mod_bound(u64::MAX - rest, 4500);
        }
        if minutes > (u64::MAX - rest) / FRAMES_PER_MINUTE {
            return None;
        }
        Some(Time { minutes, seconds, frames })
    }

    /// The minutes field.
    pub fn minutes(&self) -> (m: u64)
        ensures
            m == self.spec_minutes(),
    {
        self.minutes
    }

    /// The seconds field, below 60.
    pub fn seconds(&self) -> (s: u8)
        ensures
            s == self.spec_seconds(),
            s < 60,
    {
        proof {
            use_type_invariant(self);
        }
        self.seconds
    }

    /// The frames field, below 75.
    pub fn frames(&self) -> (f: u8)
        ensures
            f == self.spec_frames(),
            f < 75,
    {
        proof {
            use_type_invariant(self);
        }
        self.frames
    }

    /// The total number of frames: `minutes * 4500 + seconds * 75 + frames`.
    pub fn to_frames(&self) -> (n: u64)
        ensures
            n == self.total_frames(),
    {
        proof {
            use_type_invariant(self);
        }
        self.minutes * FRAMES_PER_MINUTE + (self.seconds as u64) * FRAMES_PER_SECOND + (
        self.frames as u64)
    }

    /// The timestamp of a frame count: `n / 4500` minutes; then, of the
    /// `n % 4500` frames that are left, `(n % 4500) / 75` seconds and
    /// `(n % 4500) % 75` frames.
    pub fn from_frames(n: u64) -> (t: Time)
        ensures
            t == Self::spec_from_frames(n as int),
            t.spec_minutes() == n / 4500,
            t.spec_seconds() == (n % 4500) / 75,
            t.spec_frames() == (n % 4500) % 75,
            t.total_frames() == n,
            t.is_normalized(),
    {
        proof {
            lemma_split_frames(n as int);
        }
        let rest: u64 = n % FRAMES_PER_MINUTE;
        Time {
            minutes: n / FRAMES_PER_MINUTE,
            seconds: (rest / FRAMES_PER_SECOND) as u8,
            frames: (rest % FRAMES_PER_SECOND) as u8,
        }
    }

    /// The timestamp `other` frames before `self`. The caller shows that `other`
    /// is not the longer of the two.
    pub fn subtract(self, other: Time) -> (t: Time)
        requires
            self.total_frames() >= other.total_frames(),
        ensures
            t == self.spec_subtract(other),
            t.total_frames() == self.total_frames() - other.total_frames(),
    {
        Time::from_frames(self.to_frames() - other.to_frames())
    }

    /// The timestamp `other` frames before `self`, and `None` where `other` is
    /// the longer of the two.
    pub fn checked_subtract(self, other: Time) -> (r: Option<Time>)
        ensures
            r == if self.total_frames() >= other.total_frames() {
                Some(self.spec_subtract(other))
            } else {
                None
            },
    {
        if self.to_frames() >= other.to_frames() {
            Some(self.subtract(other))
        } else {
            None
        }
    }

    /// The timestamp `other` frames before `self`, stopping at `00:00:00` where
    /// `other` is the longer of the two.
    pub fn saturating_subtract(self, other: Time) -> (t: Time)
        ensures
            t == self.spec_saturating_subtract(other),
            self.total_frames() >= other.total_frames() ==> t.total_frames()
                == self.total_frames() - other.total_frames(),
            self.total_frames() < other.total_frames() ==> t.total_frames() == 0,
    {
        if self.to_frames() >= other.to_frames() {
            self.subtract(other)
        } else {
            Time::from_frames(0)
        }
    }

    /// The timestamp `other` frames after `self`. The sum has to fit in a `u64`.
    pub fn add(self, other: Time) -> (t: Time)
        requires
            self.total_frames() + other.total_frames() <= u64::MAX,
        ensures
            t == self.spec_add(other),
            t.total_frames() == self.total_frames() + other.total_frames(),
    {
        Time::from_frames(self.to_frames() + other.to_frames())
    }

    /// The timestamp `other` frames after `self`, and `None` where the sum does
    /// not fit in a `u64`.
    pub fn checked_add(self, other: Time) -> (r: Option<Time>)
        ensures
            r == if self.total_frames() + other.total_frames() <= u64::MAX {
                Some(self.spec_add(other))
            } else {
                None
            },
    {
        let a: u64 = self.to_frames();
        let b: u64 = other.to_frames();
        if a <= u64::MAX - b {
            Some(self.add(other))
        } else {
            None
        }
    }

    /// What `spec_from_frames` gives for a frame count that fits in a `u64`: a
    /// normalized timestamp of exactly that many frames.
    pub proof fn lemma_from_frames(n: int)
        requires
            0 <= n <= u64::MAX,
        ensures
            Self::spec_from_frames(n).spec_minutes() == n / 4500,
            Self::spec_from_frames(n).spec_seconds() == (n % 4500) / 75,
            Self::spec_from_frames(n).spec_frames() == (n % 4500) % 75,
            Self::spec_from_frames(n).spec_frames() == n % 75,
            Self::spec_from_frames(n).total_frames() == n,
            Self::spec_from_frames(n).is_normalized(),
    {
        lemma_split_frames(n);
    }

    /// Two timestamps with the same three fields are the same timestamp.
    pub proof fn lemma_fields_determine(a: Time, b: Time)
        requires
            a.spec_minutes() == b.spec_minutes(),
            a.spec_seconds() == b.spec_seconds(),
            a.spec_frames() == b.spec_frames(),
        ensures
            a == b,
    {
    }

    /// Timestamps and frame counts correspond one to one: the timestamp of the
    /// frame count of `t` is `t` again.
    pub proof fn lemma_frames_round_trip(t: Time)
        requires
            t.is_normalized(),
        ensures
            Self::spec_from_frames(t.total_frames()) == t,
    {
        lemma_join_frames(t.spec_minutes(), t.spec_seconds(), t.spec_frames());
    }

    /// Two normalized timestamps of the same frame count are the same timestamp.
    pub proof fn lemma_total_frames_injective(a: Time, b: Time)
        requires
            a.is_normalized(),
            b.is_normalized(),
            a.total_frames() == b.total_frames(),
        ensures
            a == b,
    {
        Self::lemma_frames_round_trip(a);
        Self::lemma_frames_round_trip(b);
    }

    /// Subtraction undoes addition: `(a + b) - b` is `a`.
    pub proof fn lemma_add_then_subtract(a: Time, b: Time)
        requires
            a.is_normalized(),
            b.is_normalized(),
            a.total_frames() + b.total_frames() <= u64::MAX,
        ensures
            a.spec_add(b).spec_subtract(b) == a,
    {
        Self::lemma_from_frames(a.total_frames() + b.total_frames());
        Self::lemma_frames_round_trip(a);
    }
}

/// A frame count splits into minutes, seconds below 60 and frames below 75
/// that add up to it again.
proof fn lemma_split_frames(n: int)
    requires
        0 <= n,
    ensures
        0 <= n / 4500 <= n,
        0 <= (n % 4500) / 75 < 60,
        0 <= (n % 4500) % 75 < 75,
        (n / 4500) * 4500 + ((n % 4500) / 75) * 75 + (n % 4500) % 75 == n,
        (n % 4500) % 75 == n % 75,
{
    let rest = n % 4500;
    lemma_fundamental_div_mod(n, 4500);
    lemma_mod_bound(n, 4500);
    lemma_div_pos_is_pos(n, 4500);
    lemma_fundamental_div_mod(rest, 75);
    lemma_mod_bound(rest, 75);
    lemma_div_pos_is_pos(rest, 75);
    lemma_fundamental_div_mod_converse(n, 75, (n / 4500) * 60 + rest / 75, rest % 75);
}

/// Minutes, seconds below 60 and frames below 75 are what their frame count
/// splits into.
proof fn lemma_join_frames(minutes: int, seconds: int, frames: int)
    requires
        0 <= seconds < 60,
        0 <= frames < 75,
    ensures
        (minutes * 4500 + seconds * 75 + frames) / 4500 == minutes,
        ((minutes * 4500 + seconds * 75 + frames) % 4500) / 75 == seconds,
        ((minutes * 4500 + seconds * 75 + frames) % 4500) % 75 == frames,
{
    let n = minutes * 4500 + seconds * 75 + frames;
    lemma_fundamental_div_mod_converse(n, 4500, minutes, seconds * 75 + frames);
    lemma_fundamental_div_mod_converse(seconds * 75 + frames, 75, seconds, frames);
}

} // verus!
