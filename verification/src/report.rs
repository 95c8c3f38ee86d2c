//! Run reporting: the summary line on standard output and the per-file
//! failure lines on standard error, built byte for byte against their specs.

use vstd::prelude::*;
use crate::image_ops::JobError;
use crate::paths::push_range;
use crate::paths::subrange_vec;

verus! {

/// Decimal digits of `n`, most significant first, as ASCII bytes.
pub open spec fn spec_decimal(n: nat) -> Seq<u8>
    decreases n,
{
    if n < 10 {
        seq![(48 + n) as u8]
    } else {
        spec_decimal(n / 10) + seq![(48 + n % 10) as u8]
    }
}

/// Renders `n` in decimal.
pub fn decimal_bytes(n: usize) -> (r: Vec<u8>)
    ensures
        r@ == spec_decimal(n as nat),
{
    let mut r: Vec<u8> = Vec::new();
    let mut m: usize = n;
    let d0: u8 = 48 + (m % 10) as u8;
    r.insert(0, d0);
    m = m / 10;
    proof {
        if m == 0 {
            assert(r@ =~= spec_decimal(n as nat));
        } else {
            assert(spec_decimal(n as nat) =~= spec_decimal(m as nat) + r@);
        }
    }
    while m > 0
        invariant
            m == 0 ==> r@ == spec_decimal(n as nat),
            m > 0 ==> spec_decimal(n as nat) == spec_decimal(m as nat) + r@,
        decreases m,
    {
        let ghost old_r = r@;
        let ghost old_m = m as nat;
        let d: u8 = 48 + (m % 10) as u8;
        r.insert(0, d);
        m = m / 10;
        proof {
            assert(r@ =~= seq![d] + old_r);
            if m == 0 {
                assert(spec_decimal(old_m) =~= seq![d]);
                assert(r@ =~= spec_decimal(n as nat));
            } else {
                assert(spec_decimal(old_m) =~= spec_decimal(m as nat) + seq![d]);
                assert(spec_decimal(n as nat) =~= spec_decimal(m as nat) + r@);
            }
        }
    }
    r
}

/// The bytes of the text `done: processed `.
pub open spec fn spec_done_prefix() -> Seq<u8> {
    seq![100u8, 111u8, 110u8, 101u8, 58u8, 32u8, 112u8, 114u8, 111u8, 99u8, 101u8, 115u8, 115u8, 101u8, 100u8, 32u8]
}

/// The bytes of the text `processed `.
pub open spec fn spec_processed_prefix() -> Seq<u8> {
    seq![112u8, 114u8, 111u8, 99u8, 101u8, 115u8, 115u8, 101u8, 100u8, 32u8]
}

/// The bytes of the text ` files`.
pub open spec fn spec_files_suffix() -> Seq<u8> {
    seq![32u8, 102u8, 105u8, 108u8, 101u8, 115u8]
}

/// The bytes of the text ` files in `.
pub open spec fn spec_files_in_infix() -> Seq<u8> {
    seq![32u8, 102u8, 105u8, 108u8, 101u8, 115u8, 32u8, 105u8, 110u8, 32u8]
}

/// The bytes of the text `failed `.
pub open spec fn spec_failed_prefix() -> Seq<u8> {
    seq![102u8, 97u8, 105u8, 108u8, 101u8, 100u8, 32u8]
}

/// The bytes of the text `: `.
pub open spec fn spec_colon_sep() -> Seq<u8> {
    seq![58u8, 32u8]
}

/// The bytes of the text `not under input root`.
pub open spec fn spec_path_error_text() -> Seq<u8> {
    seq![110u8, 111u8, 116u8, 32u8, 117u8, 110u8, 100u8, 101u8, 114u8, 32u8, 105u8, 110u8, 112u8, 117u8, 116u8, 32u8, 114u8, 111u8, 111u8, 116u8]
}

/// The single summary line of a run: with the benchmark flag,
/// `processed <n> files in <elapsed>`; without it, `done: processed <n> files`.
pub open spec fn spec_summary_line(count: nat, benchmark: bool, elapsed: Seq<u8>) -> Seq<u8> {
    if benchmark {
        spec_processed_prefix() + spec_decimal(count) + spec_files_in_infix() + elapsed
    } else {
        spec_done_prefix() + spec_decimal(count) + spec_files_suffix()
    }
}

/// Appends literal bytes one at a time.
fn push_bytes_done_prefix(v: &mut Vec<u8>)
    ensures
        final(v)@ == old(v)@ + spec_done_prefix(),
{
    v.push(100);
    v.push(111);
    v.push(110);
    v.push(101);
    v.push(58);
    v.push(32);
    v.push(112);
    v.push(114);
    v.push(111);
    v.push(99);
    v.push(101);
    v.push(115);
    v.push(115);
    v.push(101);
    v.push(100);
    v.push(32);
    proof {
        assert(v@ =~= old(v)@ + spec_done_prefix());
    }
}

/// Appends literal bytes one at a time.
fn push_bytes_processed_prefix(v: &mut Vec<u8>)
    ensures
        final(v)@ == old(v)@ + spec_processed_prefix(),
{
    v.push(112);
    v.push(114);
    v.push(111);
    v.push(99);
    v.push(101);
    v.push(115);
    v.push(115);
    v.push(101);
    v.push(100);
    v.push(32);
    proof {
        assert(v@ =~= old(v)@ + spec_processed_prefix());
    }
}

/// Appends literal bytes one at a time.
fn push_bytes_files_suffix(v: &mut Vec<u8>)
    ensures
        final(v)@ == old(v)@ + spec_files_suffix(),
{
    v.push(32);
    v.push(102);
    v.push(105);
    v.push(108);
    v.push(101);
    v.push(115);
    proof {
        assert(v@ =~= old(v)@ + spec_files_suffix());
    }
}

/// Appends literal bytes one at a time.
fn push_bytes_files_in_infix(v: &mut Vec<u8>)
    ensures
        final(v)@ == old(v)@ + spec_files_in_infix(),
{
    v.push(32);
    v.push(102);
    v.push(105);
    v.push(108);
    v.push(101);
    v.push(115);
    v.push(32);
    v.push(105);
    v.push(110);
    v.push(32);
    proof {
        assert(v@ =~= old(v)@ + spec_files_in_infix());
    }
}

/// Builds the run's summary line; `elapsed` is the already-rendered elapsed
/// time and is used only in benchmark mode.
pub fn summary_line(count: usize, benchmark: bool, elapsed: &Vec<u8>) -> (r: Vec<u8>)
    ensures
        r@ == spec_summary_line(count as nat, benchmark, elapsed@),
{
    let mut r: Vec<u8> = Vec::new();
    let dec = decimal_bytes(count);
    if benchmark {
        push_bytes_processed_prefix(&mut r);
        push_range(&mut r, &dec, 0, dec.len());
        push_bytes_files_in_infix(&mut r);
        push_range(&mut r, elapsed, 0, elapsed.len());
    } else {
        push_bytes_done_prefix(&mut r);
        push_range(&mut r, &dec, 0, dec.len());
        push_bytes_files_suffix(&mut r);
    }
    proof {
        assert(dec@.subrange(0, dec@.len() as int) =~= dec@);
        assert(elapsed@.subrange(0, elapsed@.len() as int) =~= elapsed@);
        assert(r@ =~= spec_summary_line(count as nat, benchmark, elapsed@));
    }
    r
}

/// The diagnostic text of one failure.
pub open spec fn spec_cause(e: JobError) -> Seq<u8> {
    match e {
        JobError::Decode { cause } => cause@,
        JobError::Encode { cause } => cause@,
        JobError::Io { cause } => cause@,
        JobError::Path => spec_path_error_text(),
    }
}

/// The diagnostic text of one failure.
pub fn cause_bytes(e: &JobError) -> (r: Vec<u8>)
    ensures
        r@ == spec_cause(*e),
{
    match e {
        JobError::Decode { cause } => subrange_vec(cause, 0, cause.len()),
        JobError::Encode { cause } => subrange_vec(cause, 0, cause.len()),
        JobError::Io { cause } => subrange_vec(cause, 0, cause.len()),
        JobError::Path => {
            let mut v: Vec<u8> = Vec::new();
            v.push(110);
            v.push(111);
            v.push(116);
            v.push(32);
            v.push(117);
            v.push(110);
            v.push(100);
            v.push(101);
            v.push(114);
            v.push(32);
            v.push(105);
            v.push(110);
            v.push(112);
            v.push(117);
            v.push(116);
            v.push(32);
            v.push(114);
            v.push(111);
            v.push(111);
            v.push(116);
            proof {
                assert(v@ =~= spec_path_error_text());
            }
            v
        },
    }
}

/// One standard-error line for one failed file: `failed <path>: <cause>`.
pub open spec fn spec_failure_line(path: Seq<u8>, cause: Seq<u8>) -> Seq<u8> {
    spec_failed_prefix() + path + spec_colon_sep() + cause
}

/// Builds the standard-error line for one failed file.
pub fn failure_line(path: &Vec<u8>, cause: &Vec<u8>) -> (r: Vec<u8>)
    ensures
        r@ == spec_failure_line(path@, cause@),
{
    let mut r: Vec<u8> = Vec::new();
    r.push(102);
    r.push(97);
    r.push(105);
    r.push(108);
    r.push(101);
    r.push(100);
    r.push(32);
    push_range(&mut r, path, 0, path.len());
    r.push(58);
    r.push(32);
    push_range(&mut r, cause, 0, cause.len());
    proof {
        assert(path@.subrange(0, path@.len() as int) =~= path@);
        assert(cause@.subrange(0, cause@.len() as int) =~= cause@);
        assert(r@ =~= spec_failure_line(path@, cause@));
    }
    r
}

} // verus!
