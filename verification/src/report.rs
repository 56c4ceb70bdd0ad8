//! The four-line report. Sizes are shown in binary megabytes (2^20 bytes)
//! and gigabytes (2^30 bytes), each figure rounded to two decimal places
//! exactly as a correctly rounded binary floating-point division would show
//! it: to the nearest hundredth, ties to the even hundredth. The average
//! file size is truncated to a whole byte count before unit conversion.

use vstd::prelude::*;
use vstd::arithmetic::div_mod::lemma_fundamental_div_mod;
use vstd::arithmetic::div_mod::lemma_fundamental_div_mod_converse;
use vstd::arithmetic::div_mod::lemma_mod_bound;
use vstd::arithmetic::div_mod::lemma_mod_multiples_vanish;
use vstd::arithmetic::div_mod::lemma_div_is_ordered;
use vstd::arithmetic::div_mod::lemma_div_is_ordered_by_denominator;

verus! {

/// Bytes in a binary megabyte.
pub const BYTES_PER_MB: u64 = 1048576;

/// Bytes in a binary gigabyte.
pub const BYTES_PER_GB: u64 = 1073741824;

/// The character of one decimal digit.
pub open spec fn spec_digit_char(d: int) -> char {
    if d == 0 {
        '0'
    } else if d == 1 {
        '1'
    } else if d == 2 {
        '2'
    } else if d == 3 {
        '3'
    } else if d == 4 {
        '4'
    } else if d == 5 {
        '5'
    } else if d == 6 {
        '6'
    } else if d == 7 {
        '7'
    } else if d == 8 {
        '8'
    } else {
        '9'
    }
}

/// The decimal digits of a non-negative number, most significant first.
pub open spec fn spec_dec_u(n: int) -> Seq<char>
    decreases n,
{
    if n < 10 {
        seq![spec_digit_char(n)]
    } else {
        spec_dec_u(n / 10).push(spec_digit_char(n % 10))
    }
}

/// The decimal digits of a signed number, with a leading minus sign when it
/// is negative.
pub open spec fn spec_dec_i(n: int) -> Seq<char> {
    if n < 0 {
        "-"@ + spec_dec_u(-n)
    } else {
        spec_dec_u(n)
    }
}

/// `n / d` rounded to the nearest integer, ties to the even one.
pub open spec fn spec_rhe(n: int, d: int) -> int
    recommends
        0 <= n,
        0 < d,
{
    let q = n / d;
    let r = n % d;
    if 2 * r > d {
        q + 1
    } else if 2 * r < d {
        q
    } else if q % 2 == 0 {
        q
    } else {
        q + 1
    }
}

/// The byte count as hundredths of a megabyte, correctly rounded.
pub open spec fn spec_mb_hundredths(bytes: int) -> int {
    spec_rhe(bytes * 100, BYTES_PER_MB as int)
}

/// The byte count as hundredths of a gigabyte, correctly rounded.
pub open spec fn spec_gb_hundredths(bytes: int) -> int {
    spec_rhe(bytes * 100, BYTES_PER_GB as int)
}

/// A figure of `h` hundredths written with two decimal places, an optional
/// minus sign first.
pub open spec fn spec_fixed2(h: int, neg: bool) -> Seq<char> {
    let sign: Seq<char> = if neg {
        "-"@
    } else {
        Seq::<char>::empty()
    };
    sign + spec_dec_u(h / 100) + "."@ + seq![
        spec_digit_char((h % 100) / 10),
        spec_digit_char((h % 100) % 10),
    ]
}

/// The report's first line: the signed day count.
pub open spec fn spec_line_days(days: int) -> Seq<char> {
    "Number of days between the dates: "@ + spec_dec_i(days)
}

/// The report's second line: the regular-file count.
pub open spec fn spec_line_count(count: int) -> Seq<char> {
    "Number of files in the directory: "@ + spec_dec_u(count)
}

/// The report's third line: the aggregate size in both units.
pub open spec fn spec_line_total(bytes: int) -> Seq<char> {
    "Total size of files: "@ + spec_fixed2(spec_mb_hundredths(bytes), false) + " MB ("@
        + spec_fixed2(spec_gb_hundredths(bytes), false) + " GB)"@
}

/// The magnitude of a signed number.
pub open spec fn spec_abs(n: int) -> int {
    if n < 0 {
        -n
    } else {
        n
    }
}

/// The report's fourth line when files were found: the product of the
/// average file size (a whole byte count) with the day count, in both
/// units. A negative day count makes the figures negative, minus sign and
/// all, as multiplying by a negative floating-point day count would.
pub open spec fn spec_line_avg(days: int, avg: int) -> Seq<char> {
    "Average file size * Number of days: "@ + spec_fixed2(
        spec_mb_hundredths(avg * spec_abs(days)),
        days < 0,
    ) + " MB-days ("@ + spec_fixed2(spec_gb_hundredths(avg * spec_abs(days)), days < 0)
        + " GB-days)"@
}

/// The whole report: four lines, the last either the average-times-days
/// figure or the no-files notice.
pub open spec fn spec_report(days: int, count: int, bytes: int) -> Seq<Seq<char>> {
    seq![
        spec_line_days(days),
        spec_line_count(count),
        spec_line_total(bytes),
        if count > 0 {
            spec_line_avg(days, bytes / count)
        } else {
            "No files found in the directory."@
        },
    ]
}

/// One digit as a string slice.
fn digit_str(d: u64) -> (r: &'static str)
    requires
        d <= 9,
    ensures
        r@ == seq![spec_digit_char(d as int)],
{
    let r: &'static str = if d == 0 {
        "0"
    } else if d == 1 {
        "1"
    } else if d == 2 {
        "2"
    } else if d == 3 {
        "3"
    } else if d == 4 {
        "4"
    } else if d == 5 {
        "5"
    } else if d == 6 {
        "6"
    } else if d == 7 {
        "7"
    } else if d == 8 {
        "8"
    } else {
        "9"
    };
    proof {
        reveal_strlit("0");
        reveal_strlit("1");
        reveal_strlit("2");
        reveal_strlit("3");
        reveal_strlit("4");
        reveal_strlit("5");
        reveal_strlit("6");
        reveal_strlit("7");
        reveal_strlit("8");
        reveal_strlit("9");
        assert(r@ =~= seq![spec_digit_char(d as int)]);
    }
    r
}

/// Appends the decimal digits of `n`.
fn push_dec_u(n: u128, out: &mut String)
    ensures
        final(out)@ == old(out)@ + spec_dec_u(n as int),
    decreases n,
{
    if n < 10 {
        out.append(digit_str(n as u64));
        proof {
            assert(out@ =~= old(out)@ + spec_dec_u(n as int));
        }
    } else {
        proof {
            lemma_div_is_ordered_by_denominator(n as int, 1, 10);
        }
        push_dec_u(n / 10, out);
        out.append(digit_str((n % 10) as u64));
        proof {
            assert(out@ =~= old(out)@ + spec_dec_u(n as int));
        }
    }
}

/// Rounds `r * 100 / d` to the nearest integer, ties to even, for a
/// remainder `r < d`.
fn rhe_frac(r: u64, d: u64) -> (q: u64)
    requires
        r < d,
        d <= BYTES_PER_GB,
    ensures
        q == spec_rhe(r as int * 100, d as int),
        q <= 100,
{
    let num = r * 100;
    let qq = num / d;
    let rem = num % d;
    proof {
        lemma_fundamental_div_mod(num as int, d as int);
        lemma_mod_bound(num as int, d as int);
        assert(qq <= 99) by (nonlinear_arith)
            requires
                num as int == d as int * (qq as int) + (rem as int),
                0 <= rem as int,
                (rem as int) < (d as int),
                num as int <= 100 * (d as int) - 100,
                d >= 1,
        ;
    }
    if 2 * rem > d {
        qq + 1
    } else if 2 * rem < d {
        qq
    } else if qq % 2 == 0 {
        qq
    } else {
        qq + 1
    }
}

/// Splitting a rounded division at the integer part: rounding `n * 100 / d`
/// equals one hundred times the integer quotient plus the rounded fraction.
proof fn lemma_rhe_split(n: int, d: int)
    requires
        0 <= n,
        0 < d,
    ensures
        spec_rhe(n * 100, d) == (n / d) * 100 + spec_rhe((n % d) * 100, d),
{
    let q = n / d;
    let r = n % d;
    let fq = (r * 100) / d;
    let fr = (r * 100) % d;
    lemma_fundamental_div_mod(n, d);
    lemma_mod_bound(n, d);
    lemma_fundamental_div_mod(r * 100, d);
    lemma_mod_bound(r * 100, d);
    assert(n * 100 == (q * 100 + fq) * d + fr) by (nonlinear_arith)
        requires
            n == d * q + r,
            r * 100 == d * fq + fr,
    ;
    lemma_fundamental_div_mod_converse(n * 100, d, q * 100 + fq, fr);
    assert((q * 100 + fq) % 2 == fq % 2) by {
        lemma_mod_multiples_vanish(q * 50, fq, 2);
        assert(q * 100 + fq == 2 * (q * 50) + fq) by (nonlinear_arith);
    }
}

/// Rounds `num / d` to hundredths, ties to even: the figure that belongs in
/// a two-decimal display of `num / d`.
fn fixed2_hundredths(num: u128, d: u64) -> (h: u128)
    requires
        d == BYTES_PER_MB || d == BYTES_PER_GB,
    ensures
        h == spec_rhe(num as int * 100, d as int),
{
    let q = num / (d as u128);
    let r = (num % (d as u128)) as u64;
    proof {
        lemma_mod_bound(num as int, d as int);
        lemma_div_is_ordered_by_denominator(num as int, 1048576, d as int);
        lemma_div_is_ordered(num as int, 0xffffffffffffffffffffffffffffffff, 1048576);
        lemma_rhe_split(num as int, d as int);
    }
    let f = rhe_frac(r, d);
    q * 100 + (f as u128)
}

/// Appends a figure of `h` hundredths with two decimal places, the minus
/// sign first when one is owed.
fn push_fixed2(h: u128, neg: bool, out: &mut String)
    ensures
        final(out)@ == old(out)@ + spec_fixed2(h as int, neg),
{
    if neg {
        out.append("-");
    }
    let ip = h / 100;
    let f = (h % 100) as u64;
    proof {
        lemma_mod_bound(h as int, 100);
    }
    push_dec_u(ip, out);
    out.append(".");
    out.append(digit_str(f / 10));
    out.append(digit_str(f % 10));
    proof {
        assert(out@ =~= old(out)@ + spec_fixed2(h as int, neg));
    }
}

/// The magnitude of the day count, safe at the extremes of `i64`.
fn abs_days(days: i64) -> (r: u64)
    ensures
        r as int == spec_abs(days as int),
{
    if days < 0 {
        ((-(days + 1)) as u64) + 1
    } else {
        days as u64
    }
}

/// Renders the whole report: the day count, the file count, the aggregate
/// size in both units, and either the average-size-times-days figure or the
/// no-files notice.
pub fn render_report(days: i64, file_count: u64, total_bytes: u64) -> (lines: Vec<String>)
    ensures
        lines@.len() == 4,
        lines@.map_values(|l: String| l@) == spec_report(
            days as int,
            file_count as int,
            total_bytes as int,
        ),
{
    let mut l1 = String::from_str("Number of days between the dates: ");
    if days < 0 {
        l1.append("-");
        push_dec_u(abs_days(days) as u128, &mut l1);
    } else {
        push_dec_u(days as u128, &mut l1);
    }
    proof {
        assert(l1@ =~= spec_line_days(days as int));
    }
    let mut l2 = String::from_str("Number of files in the directory: ");
    push_dec_u(file_count as u128, &mut l2);
    proof {
        assert(l2@ =~= spec_line_count(file_count as int));
    }
    let mut l3 = String::from_str("Total size of files: ");
    let mbh = fixed2_hundredths(total_bytes as u128, BYTES_PER_MB);
    push_fixed2(mbh, false, &mut l3);
    l3.append(" MB (");
    let gbh = fixed2_hundredths(total_bytes as u128, BYTES_PER_GB);
    push_fixed2(gbh, false, &mut l3);
    l3.append(" GB)");
    proof {
        assert(l3@ =~= spec_line_total(total_bytes as int));
    }
    let l4 = if file_count > 0 {
        let avg = total_bytes / file_count;
        let mag = abs_days(days);
        proof {
            assert((avg as int) * (mag as int) <= 0xffffffffffffffff * 0x8000000000000000)
                by (nonlinear_arith)
                requires
                    0 <= avg as int <= 0xffffffffffffffff,
                    0 <= mag as int <= 0x8000000000000000,
            ;
        }
        let prod: u128 = (avg as u128) * (mag as u128);
        let mut s = String::from_str("Average file size * Number of days: ");
        let mh = fixed2_hundredths(prod, BYTES_PER_MB);
        push_fixed2(mh, days < 0, &mut s);
        s.append(" MB-days (");
        let gh = fixed2_hundredths(prod, BYTES_PER_GB);
        push_fixed2(gh, days < 0, &mut s);
        s.append(" GB-days)");
        proof {
            assert(s@ =~= spec_line_avg(days as int, total_bytes as int / file_count as int));
        }
        s
    } else {
        String::from_str("No files found in the directory.")
    };
    let mut lines: Vec<String> = Vec::new();
    lines.push(l1);
    lines.push(l2);
    lines.push(l3);
    lines.push(l4);
    proof {
        assert(lines@.map_values(|l: String| l@) =~= spec_report(
            days as int,
            file_count as int,
            total_bytes as int,
        ));
    }
    lines
}

/// Determinism: the report is a function of the day count, the file count
/// and the byte total alone, so two runs over the same configuration and
/// directory contents print byte-identical lines.
pub proof fn lemma_report_deterministic(
    days1: int,
    count1: int,
    bytes1: int,
    days2: int,
    count2: int,
    bytes2: int,
)
    requires
        days1 == days2,
        count1 == count2,
        bytes1 == bytes2,
    ensures
        spec_report(days1, count1, bytes1) == spec_report(days2, count2, bytes2),
{
}

/// With nothing found, the size figures are exactly zero and the last line
/// is the no-files notice.
pub proof fn lemma_empty_report(days: int)
    ensures
        spec_mb_hundredths(0) == 0,
        spec_gb_hundredths(0) == 0,
        spec_report(days, 0, 0)[1] == spec_line_count(0),
        spec_report(days, 0, 0)[2] == spec_line_total(0),
        spec_report(days, 0, 0)[3] == "No files found in the directory."@,
{
}

/// A correctly rounded figure sits within half a unit of the exact value:
/// `2 * |spec_rhe(n, d) * d - n| <= d`.
proof fn lemma_rhe_close(n: int, d: int)
    requires
        0 <= n,
        0 < d,
    ensures
        2 * (spec_rhe(n, d) * d - n) <= d,
        -d <= 2 * (spec_rhe(n, d) * d - n),
{
    let q = n / d;
    let r = n % d;
    lemma_fundamental_div_mod(n, d);
    lemma_mod_bound(n, d);
    assert(q * d == n - r) by (nonlinear_arith)
        requires
            n == d * q + r,
    ;
    assert((q + 1) * d == n - r + d) by (nonlinear_arith)
        requires
            n == d * q + r,
    ;
}

/// Unit consistency: the gigabyte figure equals the megabyte figure divided
/// by 1024, up to two-decimal rounding — the two hundredth-counts differ by
/// at most half a hundredth after scaling.
pub proof fn lemma_unit_consistency(bytes: u64)
    ensures
        -512 <= 1024 * spec_gb_hundredths(bytes as int) - spec_mb_hundredths(bytes as int) <= 512,
{
    lemma_rhe_close(bytes as int * 100, BYTES_PER_MB as int);
    lemma_rhe_close(bytes as int * 100, BYTES_PER_GB as int);
}

} // verus!
