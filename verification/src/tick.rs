//! The simulation's target update frequency (ticks per second), its raw
//! 32-bit encoding shared with the serialized format, and the real-time
//! pacing policy derived from it.

use core::time::Duration;
use vstd::prelude::*;
use vstd::string::StringExecFns;

verus! {

/// The one raw value reserved to mean "unlimited"; every other raw value,
/// zero included, is a bounded rate. Centralized so encode and decode can
/// never diverge.
pub const UNLIMITED_RAW: u32 = 0xFFFF_FFFF;

/// Target update frequency: a bounded number of ticks per second, or
/// unlimited (run as fast as possible).
#[derive(Clone, Copy, Debug, PartialEq, Eq, Structural)]
pub enum Tps {
    Limited(u32),
    Unlimited,
}

/// The number of whole microseconds a `Duration` holds. `Duration` itself is
/// opaque to the verifier; this name ties the pacing contract to the value
/// the trusted constructor below builds.
pub uninterp spec fn duration_micros(d: Duration) -> int;

/// Relies on `core::time::Duration::from_micros`, documented to create a
/// duration of exactly the given number of microseconds.
#[verifier::external_body]
fn duration_from_micros(us: u64) -> (d: Duration)
    ensures
        duration_micros(d) == us as int,
{
    Duration::from_micros(us)
}

impl Tps {
    /// Raw encoding of the rate: the reserved sentinel for `Unlimited`,
    /// the rate itself otherwise.
    pub open spec fn spec_to_raw(self) -> u32 {
        match self {
            Tps::Limited(tps) => tps,
            Tps::Unlimited => UNLIMITED_RAW,
        }
    }

    /// Inverse of `spec_to_raw`.
    pub open spec fn spec_from_raw(raw: u32) -> Tps {
        if raw == UNLIMITED_RAW {
            Tps::Unlimited
        } else {
            Tps::Limited(raw)
        }
    }

    /// Pacing delay per tick, in microseconds: `1_000_000 / rate` for bounded
    /// rates above 10; a fixed 50 millisecond floor at or below 10 (the
    /// degenerate zero rate included); zero when unlimited.
    pub open spec fn spec_sleep_micros(self) -> int {
        match self {
            Tps::Limited(tps) => if tps > 10 {
                1_000_000int / (tps as int)
            } else {
                50_000int
            },
            Tps::Unlimited => 0,
        }
    }

    /// Decodes a raw stored value; total, never fails.
    pub fn from_data(data: u32) -> (t: Tps)
        ensures
            t == Tps::spec_from_raw(data),
    {
        if data == UNLIMITED_RAW {
            Tps::Unlimited
        } else {
            Tps::Limited(data)
        }
    }

    /// Encodes into the raw stored value; total, never fails.
    pub fn to_data(self) -> (raw: u32)
        ensures
            raw == self.spec_to_raw(),
    {
        match self {
            Tps::Limited(tps) => tps,
            Tps::Unlimited => UNLIMITED_RAW,
        }
    }

    /// Real-time pacing duration per the policy of `spec_sleep_micros`.
    pub fn sleep_time(self) -> (d: Duration)
        ensures
            duration_micros(d) == self.spec_sleep_micros(),
    {
        match self {
            Tps::Limited(tps) => {
                if tps > 10 {
                    duration_from_micros(1_000_000u64 / (tps as u64))
                } else {
                    duration_from_micros(50_000)
                }
            },
            Tps::Unlimited => duration_from_micros(0),
        }
    }

    /// Status rendering: the decimal rate, or the word "unlimited". Used for
    /// user-facing status only, never for persistence.
    pub fn display_string(self) -> (s: String)
        ensures
            s@ == spec_display(self),
    {
        match self {
            Tps::Limited(tps) => decimal_string(tps),
            Tps::Unlimited => {
                proof {
                    reveal_strlit("unlimited");
                }
                let s = "unlimited".to_owned();
                assert(s@ =~= spec_display(self));
                s
            },
        }
    }
}

/// Sentinel law: re-encoding a decoded raw value returns it bit for bit,
/// for every raw value — the reservation survives the round trip — and the
/// reserved sentinel is the one raw value that decodes to `Unlimited`;
/// every other value, zero included, decodes to `Limited` of itself.
pub proof fn lemma_raw_round_trip(raw: u32)
    ensures
        Tps::spec_from_raw(raw).spec_to_raw() == raw,
        Tps::spec_from_raw(raw) is Unlimited <==> raw == UNLIMITED_RAW,
        raw != UNLIMITED_RAW ==> Tps::spec_from_raw(raw) == Tps::Limited(raw),
{
}

/// The decimal digit character for `d` in `0..10`.
pub open spec fn spec_digit_char(d: int) -> char {
    if d == 0 {
        '0'
    } else if d == 1 {
        '1'
    } else if d == 2 {
        '2'
    } else if d == 3 {
        '3'
    } else if d == 4 {
        '4'
    } else if d == 5 {
        '5'
    } else if d == 6 {
        '6'
    } else if d == 7 {
        '7'
    } else if d == 8 {
        '8'
    } else {
        '9'
    }
}

/// Decimal rendering of a non-negative integer, most significant digit
/// first, with no leading zeros (zero itself renders as "0").
pub open spec fn spec_decimal(n: int) -> Seq<char>
    decreases n,
{
    if n < 10 {
        seq![spec_digit_char(n)]
    } else {
        spec_decimal(n / 10) + seq![spec_digit_char(n % 10)]
    }
}

/// What `display_string` returns: the decimal rate, or "unlimited".
pub open spec fn spec_display(t: Tps) -> Seq<char> {
    match t {
        Tps::Limited(tps) => spec_decimal(tps as int),
        Tps::Unlimited => seq!['u', 'n', 'l', 'i', 'm', 'i', 't', 'e', 'd'],
    }
}

fn digit_str(d: u32) -> (s: &'static str)
    requires
        d < 10,
    ensures
        s@ =~= seq![spec_digit_char(d as int)],
{
    if d == 0 {
        proof {
            reveal_strlit("0");
        }
        "0"
    } else if d == 1 {
        proof {
            reveal_strlit("1");
        }
        "1"
    } else if d == 2 {
        proof {
            reveal_strlit("2");
        }
        "2"
    } else if d == 3 {
        proof {
            reveal_strlit("3");
        }
        "3"
    } else if d == 4 {
        proof {
            reveal_strlit("4");
        }
        "4"
    } else if d == 5 {
        proof {
            reveal_strlit("5");
        }
        "5"
    } else if d == 6 {
        proof {
            reveal_strlit("6");
        }
        "6"
    } else if d == 7 {
        proof {
            reveal_strlit("7");
        }
        "7"
    } else if d == 8 {
        proof {
            reveal_strlit("8");
        }
        "8"
    } else {
        proof {
            reveal_strlit("9");
        }
        "9"
    }
}

fn decimal_string(n: u32) -> (s: String)
    ensures
        s@ == spec_decimal(n as int),
    decreases n,
{
    if n < 10 {
        let s = digit_str(n).to_owned();
        assert(s@ =~= spec_decimal(n as int));
        s
    } else {
        let mut s = decimal_string(n / 10);
        let d = digit_str(n % 10);
        s.append(d);
        assert(s@ =~= spec_decimal(n as int));
        s
    }
}

} // verus!
