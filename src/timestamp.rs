//! Conversion of timestamps into the (seconds, nanoseconds) pair that the
//! storage schema keys entries by.
use crate::entry::Timestamp;
use vstd::prelude::*;

verus! {

/// Nanoseconds in one second.
pub const NANOS_PER_SEC: u128 = 1_000_000_000;

/// `n` rounded up to a whole microsecond.
pub open spec fn rounded_to_micros(n: int) -> int {
    if n % 1000 == 0 {
        n
    } else {
        n - n % 1000 + 1000
    }
}

/// Whole seconds and remaining nanoseconds of `r`, both rounded toward zero
/// (so both carry the sign of `r`).
pub open spec fn split_seconds(r: int) -> (int, int) {
    if r >= 0 {
        (r / 1_000_000_000, r % 1_000_000_000)
    } else {
        (-((-r) / 1_000_000_000), -((-r) % 1_000_000_000))
    }
}

/// `v` fits in an `i64`.
pub open spec fn fits_i64(v: int) -> bool {
    i64::MIN <= v <= i64::MAX
}

/// Converts `ts` into seconds and nanoseconds, rounding the nanoseconds up to
/// the next microsecond.  Fails when the seconds do not fit in an `i64`.
pub fn unpack_timestamp(ts: Timestamp) -> (r: Result<(i64, i64), String>)
    ensures
        r is Ok <==> fits_i64(split_seconds(rounded_to_micros(ts.unix_nanos as int)).0),
        r matches Ok((s, ns)) ==> (s as int, ns as int) == split_seconds(
            rounded_to_micros(ts.unix_nanos as int),
        ),
        r matches Err(e) ==> e@ == "timestamp too large"@,
{
    proof {
        reveal_strlit("timestamp too large");
    }
    let n = ts.unix_nanos;
    let ghost rn = rounded_to_micros(n as int);
    if n >= 0 {
        let m = n as u128;
        let rem = m % 1000;
        let c: u128 = if rem > 0 {
            m - rem + 1000
        } else {
            m
        };
        assert(c == rn);
        let sec = c / NANOS_PER_SEC;
        let nsec = c % NANOS_PER_SEC;
        if sec > i64::MAX as u128 {
            return Err("timestamp too large".to_owned());
        }
        Ok((sec as i64, nsec as i64))
    } else {
        // The magnitude of a negative i128 always fits in a u128.
        let m: u128 = ((-(n + 1)) as u128) + 1;
        let c: u128 = m - m % 1000;
        assert(-(c as int) == rn) by {
            let ni = n as int;
            let mi = m as int;
            assert(mi == -ni);
            vstd::arithmetic::div_mod::lemma_fundamental_div_mod(ni, 1000);
            vstd::arithmetic::div_mod::lemma_fundamental_div_mod(mi, 1000);
            assert(ni % 1000 == 0 <==> mi % 1000 == 0) by {
                if ni % 1000 == 0 {
                    assert(mi == 1000 * (-(ni / 1000)));
                    vstd::arithmetic::div_mod::lemma_mod_multiples_basic(-(ni / 1000), 1000);
                }
                if mi % 1000 == 0 {
                    assert(ni == 1000 * (-(mi / 1000)));
                    vstd::arithmetic::div_mod::lemma_mod_multiples_basic(-(mi / 1000), 1000);
                }
            }
            if mi % 1000 != 0 {
                assert(ni == 1000 * (-(mi / 1000) - 1) + (1000 - mi % 1000));
                vstd::arithmetic::div_mod::lemma_fundamental_div_mod_converse(
                    ni,
                    1000,
                    -(mi / 1000) - 1,
                    1000 - mi % 1000,
                );
            }
        }
        let sec = c / NANOS_PER_SEC;
        let nsec = c % NANOS_PER_SEC;
        if sec > 9_223_372_036_854_775_808u128 {
            return Err("timestamp too large".to_owned());
        }
        let s: i64 = if sec == 9_223_372_036_854_775_808u128 {
            i64::MIN
        } else {
            -(sec as i64)
        };
        Ok((s, -(nsec as i64)))
    }
}

} // verus!
