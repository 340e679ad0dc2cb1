//! The debounced hardware writer, modelled as plan and commit steps.
//!
//! A write is planned only when the value differs from the last committed
//! one; the payload is the decimal ASCII form of the value followed by a
//! terminating NUL, exactly the bytes handed to the device.  Only a
//! successful raw write moves `last_val` forward, so a failed write is
//! retried as soon as a differing value comes along.

use vstd::prelude::*;

verus! {

/// Decimal ASCII digits of a non-negative number.
pub open spec fn spec_udecimal(n: nat) -> Seq<u8>
    decreases n,
{
    if n < 10 {
        seq![(48 + n) as u8]
    } else {
        spec_udecimal(n / 10) + seq![(48 + n % 10) as u8]
    }
}

/// Decimal ASCII form of a value, with a leading `-` when negative.
pub open spec fn spec_decimal(v: int) -> Seq<u8> {
    if v >= 0 {
        spec_udecimal(v as nat)
    } else {
        seq![45u8] + spec_udecimal((-v) as nat)
    }
}

/// The exact bytes a write hands to the device: the decimal form and a
/// terminating NUL.
pub open spec fn spec_payload(v: int) -> Seq<u8> {
    spec_decimal(v) + seq![0u8]
}

/// Whether a write is due at all: equal values are suppressed.
pub open spec fn spec_needs_write(val: int, last_val: int) -> bool {
    val != last_val
}

/// The decimal payload for a brightness value.
pub fn format_brightness(val: i32) -> (r: Vec<u8>)
    ensures
        r@ == spec_payload(val as int),
{
    let neg: bool = val < 0;
    let mut n: u64 = if val < 0 {
        (-(val as i64)) as u64
    } else {
        val as u64
    };
    let ghost n0: nat = n as nat;
    let mut digits: Vec<u8> = Vec::new();
    loop
        invariant_except_break
            spec_udecimal(n0) == spec_udecimal(n as nat) + digits@.reverse(),
        invariant
            n <= n0,
        ensures
            spec_udecimal(n0) == digits@.reverse(),
            digits@.len() > 0,
        decreases n,
    {
        let d: u8 = (n % 10) as u8 + 48;
        let ghost old_digits: Seq<u8> = digits@;
        let ghost old_n: nat = n as nat;
        digits.push(d);
        n = n / 10;
        proof {
            assert(digits@.reverse() =~= seq![d] + old_digits.reverse());
            if old_n >= 10 {
                assert(spec_udecimal(old_n) == spec_udecimal(old_n / 10) + seq![(48 + old_n % 10) as u8]);
            }
        }
        if n == 0 {
            break;
        }
    }
    let mut out: Vec<u8> = Vec::new();
    if neg {
        out.push(45);
    }
    let ghost prefix: Seq<u8> = out@;
    loop
        invariant
            prefix + spec_udecimal(n0) == out@ + digits@.reverse(),
        ensures
            out@ == prefix + spec_udecimal(n0),
        decreases digits@.len(),
    {
        let ghost old_digits: Seq<u8> = digits@;
        match digits.pop() {
            Some(d) => {
                out.push(d);
                proof {
                    assert(old_digits.reverse() =~= seq![d] + digits@.reverse());
                }
            },
            None => {
                proof {
                    assert(digits@.reverse() =~= Seq::<u8>::empty());
                }
                break;
            },
        }
    }
    out.push(0);
    proof {
        assert(out@ =~= spec_payload(val as int));
    }
    out
}

/// The write a value asks for: nothing when it matches the last committed
/// value, else the decimal payload to hand to the device.
pub fn plan_write(val: i32, last_val: i32) -> (r: Option<Vec<u8>>)
    ensures
        r is Some <==> spec_needs_write(val as int, last_val as int),
        r matches Some(p) ==> p@ == spec_payload(val as int),
{
    if val == last_val {
        None
    } else {
        Some(format_brightness(val))
    }
}

/// Records the outcome of the raw write: only success moves `last_val`, so
/// a failed write stays pending.
pub fn commit_write(write_ok: bool, val: i32, last_val: &mut i32)
    ensures
        write_ok ==> *final(last_val) == val,
        !write_ok ==> *final(last_val) == *old(last_val),
{
    if write_ok {
        *last_val = val;
    }
}

/// Law: after a committed write of a value, writing the same value again is
/// suppressed — the second identical write costs no syscall.
pub proof fn lemma_repeat_write_suppressed(val: i32)
    ensures
        !spec_needs_write(val as int, val as int),
{
}

} // verus!
