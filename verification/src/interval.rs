//! Candle intervals such as `1m` or `4h`, and the number of closed candles
//! that a refresh cycle needs.

use vstd::prelude::*;
use vstd::utf8::is_char_boundary;
use vstd::string::StringSliceAdditionalSpecFns;
use crate::decimal::{IntErrorKind, parse_uint, spec_parse_uint};

verus! {

/// Why a candle interval was refused.
#[derive(Clone, Copy, Debug, PartialEq, Eq, Structural)]
pub enum IntervalError {
    /// Fewer than two bytes: no room for a value and a unit.
    TooShort,
    /// The part before the unit is not an unsigned integer.
    InvalidValue(IntErrorKind),
    /// The last byte is none of `s`, `m`, `h`, `d`, `w`.
    UnsupportedUnit,
}

/// Seconds per unit byte: `s`, `m`, `h`, `d`, `w`.
pub open spec fn unit_seconds(u: u8) -> Option<int> {
    if u == 115 {
        Some(1)
    } else if u == 109 {
        Some(60)
    } else if u == 104 {
        Some(3600)
    } else if u == 100 {
        Some(86400)
    } else if u == 119 {
        Some(604800)
    } else {
        None
    }
}

/// The length in seconds that the bytes `b` of an interval name, as a
/// mathematical integer: a value followed by a one-byte unit.
pub open spec fn spec_candle_interval(b: Seq<u8>) -> Result<int, IntervalError> {
    if b.len() < 2 {
        Err(IntervalError::TooShort)
    } else {
        match spec_parse_uint(b.subrange(0, b.len() - 1), u64::MAX as int) {
            Err(k) => Err(IntervalError::InvalidValue(k)),
            Ok(v) => match unit_seconds(b[b.len() - 1]) {
                Some(m) => Ok(v * m),
                None => Err(IntervalError::UnsupportedUnit),
            },
        }
    }
}

/// The inputs on which the interval can be computed without splitting a
/// character in two and without the product leaving `u64`.
pub open spec fn candle_interval_defined(interval: &str) -> bool {
    let b = interval.spec_bytes();
    b.len() >= 2 ==> {
        &&& is_char_boundary(b, b.len() - 1)
        &&& spec_candle_interval(b) matches Ok(v) ==> v <= u64::MAX
    }
}

/// Seconds per unit byte, executable.
fn unit_secs(u: u8) -> (r: Option<u64>)
    ensures
        r matches Some(m) ==> unit_seconds(u) == Some(m as int),
        r is None ==> unit_seconds(u) is None,
{
    if u == 115 {
        Some(1)
    } else if u == 109 {
        Some(60)
    } else if u == 104 {
        Some(3600)
    } else if u == 100 {
        Some(86400)
    } else if u == 119 {
        Some(604800)
    } else {
        None
    }
}

/// Tells whether `candle_interval_secs` is defined on `interval`.
pub fn candle_interval_is_defined(interval: &str) -> (r: bool)
    ensures
        r == candle_interval_defined(interval),
{
    let bytes = interval.as_bytes();
    let n = bytes.len();
    if n < 2 {
        return true;
    }
    if !interval.is_char_boundary(n - 1) {
        return false;
    }
    match parse_uint(bytes, 0, n - 1, u64::MAX) {
        Err(_) => true,
        Ok(v) => match unit_secs(bytes[n - 1]) {
            None => true,
            Some(m) => v.checked_mul(m).is_some(),
        },
    }
}

/// Parses a candle interval such as `15m` into seconds: a decimal value
/// followed by one of the units `s`, `m`, `h`, `d`, `w`.
pub fn candle_interval_secs(interval: &str) -> (r: Result<u64, IntervalError>)
    requires
        candle_interval_defined(interval),
    ensures
        r matches Ok(v) ==> spec_candle_interval(interval.spec_bytes()) == Ok::<int, IntervalError>(v as int),
        r matches Err(e) ==> spec_candle_interval(interval.spec_bytes()) == Err::<int, IntervalError>(e),
{
    let bytes = interval.as_bytes();
    let n = bytes.len();
    if n < 2 {
        return Err(IntervalError::TooShort);
    }
    match parse_uint(bytes, 0, n - 1, u64::MAX) {
        Err(k) => Err(IntervalError::InvalidValue(k)),
        Ok(v) => match unit_secs(bytes[n - 1]) {
            None => Err(IntervalError::UnsupportedUnit),
            Some(m) => Ok(v * m),
        },
    }
}


/// Candles that cover `interval_secs` when each lasts `candle_secs`: the
/// quotient rounded up, taken into `usize` by truncation as `as` does.
pub open spec fn spec_lookback_candles(interval_secs: u64, candle_secs: u64) -> usize {
    let q: int = if interval_secs % candle_secs == 0 {
        (interval_secs / candle_secs) as int
    } else {
        interval_secs / candle_secs + 1
    };
    q as u64 as usize
}

/// Closed candles to keep per symbol: enough to cover a refresh cycle and
/// at least a full streak, plus the candle that the first change starts from.
pub open spec fn spec_required_closed_klines(interval_secs: u64, candle_secs: u64, streak_len: usize) -> int {
    let lookback = spec_lookback_candles(interval_secs, candle_secs);
    (if lookback >= streak_len { lookback } else { streak_len }) + 1
}

/// The inputs on which the count is defined: a division by zero and an
/// addition past `usize::MAX` are left out.
pub open spec fn required_closed_klines_defined(interval_secs: u64, candle_secs: u64, streak_len: usize) -> bool {
    &&& candle_secs > 0
    &&& spec_required_closed_klines(interval_secs, candle_secs, streak_len) <= usize::MAX
}

/// Tells whether `required_closed_klines` is defined on these inputs.
pub fn required_closed_klines_is_defined(interval_secs: u64, candle_secs: u64, streak_len: usize) -> (r: bool)
    ensures
        r == required_closed_klines_defined(interval_secs, candle_secs, streak_len),
{
    if candle_secs == 0 {
        return false;
    }
    let lookback = lookback_candles(interval_secs, candle_secs);
    let m = if lookback >= streak_len { lookback } else { streak_len };
    m < usize::MAX
}

fn lookback_candles(interval_secs: u64, candle_secs: u64) -> (r: usize)
    requires
        candle_secs > 0,
    ensures
        r == spec_lookback_candles(interval_secs, candle_secs),
{
    let q = interval_secs / candle_secs;
    let q2: u64 = if interval_secs % candle_secs == 0 {
        q
    } else {
        assert(q < u64::MAX) by (nonlinear_arith)
            requires candle_secs > 0, q == interval_secs / candle_secs, interval_secs % candle_secs != 0;
        q + 1
    };
    q2 as usize
}

/// Number of closed candles kept per symbol in a refresh cycle of
/// `interval_secs` seconds with candles of `candle_secs` seconds and streaks
/// of `streak_len` changes.
pub fn required_closed_klines(interval_secs: u64, candle_secs: u64, streak_len: usize) -> (r: usize)
    requires
        required_closed_klines_defined(interval_secs, candle_secs, streak_len),
    ensures
        r == spec_required_closed_klines(interval_secs, candle_secs, streak_len),
{
    let lookback = lookback_candles(interval_secs, candle_secs);
    let m = if lookback >= streak_len { lookback } else { streak_len };
    m + 1
}

/// The closes kept per symbol always cover a full streak of `streak_len`
/// changes and the candles of one refresh cycle, each with the close the
/// first change starts from.
pub proof fn law_required_covers_streak_and_cycle(interval_secs: u64, candle_secs: u64, streak_len: usize)
    requires
        candle_secs > 0,
    ensures
        spec_required_closed_klines(interval_secs, candle_secs, streak_len) >= streak_len + 1,
        spec_required_closed_klines(interval_secs, candle_secs, streak_len)
            >= spec_lookback_candles(interval_secs, candle_secs) + 1,
{
}

/// Length of a refresh cycle: the configured seconds, at least one.
pub fn refresh_window_secs(interval_secs: u64) -> (r: u64)
    ensures
        r == (if interval_secs >= 1 { interval_secs } else { 1 }),
{
    if interval_secs >= 1 { interval_secs } else { 1 }
}


/// Why a refresh cycle cannot start.
#[derive(Clone, Copy, Debug, PartialEq, Eq, Structural)]
pub enum RefreshError {
    /// No symbol passed the selection.
    NoSymbols,
    /// A streak must hold at least one change.
    ZeroStreak,
}

/// Checks, in this order, that some symbol was selected and that streaks
/// hold at least one change.
pub fn check_refresh(symbol_count: usize, streak_len: usize) -> (r: Result<(), RefreshError>)
    ensures
        r == (if symbol_count == 0 {
            Err::<(), RefreshError>(RefreshError::NoSymbols)
        } else if streak_len == 0 {
            Err(RefreshError::ZeroStreak)
        } else {
            Ok(())
        }),
{
    if symbol_count == 0 {
        Err(RefreshError::NoSymbols)
    } else if streak_len == 0 {
        Err(RefreshError::ZeroStreak)
    } else {
        Ok(())
    }
}

} // verus!
