//! Rendering of per-file result lines.
//!
//! A successful job reports its path, the human-readable sizes before and
//! after, and the percentage size reduction to one decimal place; the
//! reduction is negative when the compressed file is larger.  A failed job
//! reports its path and the error's message.

use vstd::prelude::*;

verus! {

use crate::errors::spec_error_message;
use crate::errors::TinyPngError;
use crate::utils::format_size;
use crate::utils::push_decimal;
use crate::utils::spec_decimal;
use crate::utils::spec_format_size;
use vstd::string::StringExecFns;

/// `num / den` in tenths, rounded to the nearest integer with ties to
/// the even one.
pub open spec fn spec_round_tenths(num: nat, den: nat) -> nat {
    let q = num / den;
    let r = num % den;
    if 2 * r > den || (2 * r == den && q % 2 == 1) {
        q + 1
    } else {
        q
    }
}

/// The percentage size reduction `(1 - output/input) * 100`, rendered to
/// one decimal place with a trailing percent sign.  Negative when the
/// output is larger than the input.  Meaningful only for `input > 0`.
pub open spec fn spec_format_ratio(input: nat, output: nat) -> Seq<char> {
    if output <= input {
        let t = spec_round_tenths(((input - output) * 1000) as nat, input);
        spec_decimal(t / 10) + (".")@ + spec_decimal(t % 10) + ("%")@
    } else {
        let t = spec_round_tenths(((output - input) * 1000) as nat, input);
        ("-")@ + spec_decimal(t / 10) + (".")@ + spec_decimal(t % 10) + ("%")@
    }
}

/// Rounds `num / den` to the nearest tenth, ties to even.
fn round_tenths(num: u128, den: u128) -> (t: u128)
    requires
        0 < den <= 0xFFFF_FFFF_FFFF_FFFFu128,
        num <= 0xFFFF_FFFF_FFFF_FFFFu128 * 1000,
    ensures
        t as nat == spec_round_tenths(num as nat, den as nat),
{
    let q: u128 = num / den;
    let r: u128 = num % den;
    if 2 * r > den || (2 * r == den && q % 2 == 1) {
        q + 1
    } else {
        q
    }
}

/// Renders the percentage size reduction of one job to one decimal
/// place, as `(1 - output/input) * 100` rounded to the nearest tenth.
pub fn format_ratio(input_size: u64, output_size: u64) -> (s: String)
    requires
        input_size > 0,
    ensures
        s@ == spec_format_ratio(input_size as nat, output_size as nat),
{
    let mut s = String::new();
    let t: u128;
    if output_size <= input_size {
        let diff: u128 = (input_size - output_size) as u128;
        t = round_tenths(diff * 1000, input_size as u128);
    } else {
        let diff: u128 = ((output_size - input_size) as u64) as u128;
        t = round_tenths(diff * 1000, input_size as u128);
        s.append("-");
    }
    push_decimal(&mut s, t / 10);
    s.append(".");
    push_decimal(&mut s, t % 10);
    s.append("%");
    proof {
        assert(s@ =~= spec_format_ratio(input_size as nat, output_size as nat));
    }
    s
}

/// The line reported for a successful job.
pub open spec fn spec_success_line(path: Seq<char>, input: nat, output: nat) -> Seq<char> {
    path + (": Origin: ")@ + spec_format_size(input) + (" Compressed: ")@ + spec_format_size(output)
        + ("(")@ + spec_format_ratio(input, output) + (")")@
}

/// Renders the line reported for a successful job: path, both sizes in
/// human-readable form, and the reduction ratio.
pub fn success_report_line(path: &str, input_size: u64, output_size: u64) -> (s: String)
    requires
        input_size > 0,
    ensures
        s@ == spec_success_line(path@, input_size as nat, output_size as nat),
{
    let mut s = String::from_str(path);
    s.append(": Origin: ");
    let before = format_size(input_size);
    s.append(before.as_str());
    s.append(" Compressed: ");
    let after = format_size(output_size);
    s.append(after.as_str());
    s.append("(");
    let ratio = format_ratio(input_size, output_size);
    s.append(ratio.as_str());
    s.append(")");
    proof {
        assert(s@ =~= spec_success_line(path@, input_size as nat, output_size as nat));
    }
    s
}

/// The line reported for a failed job.
pub open spec fn spec_failure_line(path: Seq<char>, e: &TinyPngError) -> Seq<char> {
    path + (": ")@ + spec_error_message(e)
}

/// Renders the diagnostic line for a failed job: path and error message.
pub fn failure_report_line(path: &str, error: &TinyPngError) -> (s: String)
    ensures
        s@ == spec_failure_line(path@, error),
{
    let mut s = String::from_str(path);
    s.append(": ");
    let message = error.message();
    s.append(message.as_str());
    proof {
        assert(s@ =~= spec_failure_line(path@, error));
    }
    s
}

} // verus!
