//! Limits on transfers, which an operator sets through environment variables.
use vstd::prelude::*;
use crate::number::{decimal, is_digit, law_decimal_round_trip, law_other_texts_are_not_numbers, lemma_decimal_digits, parse_unsigned, read_unsigned};
use crate::text::{chars_of, is_white, opt_str, trim_chars, trimmed, CharSet};
use crate::text_laws::{all_of, law_trimmed_takes_the_frame};

verus! {

/// Most bytes that one uploaded file may have, where the operator sets nothing: 500 MiB.
pub const WORKSPACE_UPLOAD_DEFAULT_MAX_BYTES: u64 = 500 * 1024 * 1024;

/// Most source bytes that a directory download may have, where the operator sets nothing:
/// 256 MiB.
pub const WORKSPACE_DOWNLOAD_DEFAULT_MAX_BYTES: u64 = 256 * 1024 * 1024;

/// Most directory downloads at a time, where the operator sets nothing.
pub const WORKSPACE_DOWNLOAD_DEFAULT_CONCURRENCY: usize = 2;

/// The variable that sets the upload limit.
pub const WORKSPACE_UPLOAD_MAX_BYTES_ENV: &'static str = "CODEG_WORKSPACE_UPLOAD_MAX_BYTES";

/// The variable that sets the download limit.
pub const WORKSPACE_DOWNLOAD_MAX_BYTES_ENV: &'static str = "CODEG_WORKSPACE_DOWNLOAD_MAX_BYTES";

/// The variable that sets how many directory downloads may run at a time.
pub const WORKSPACE_DOWNLOAD_CONCURRENCY_ENV: &'static str = "CODEG_WORKSPACE_DOWNLOAD_MAX_CONCURRENCY";

/// The limit that a variable sets: a number from one up to `max`, with white space allowed
/// round it. Anything else, or no value at all, leaves the default.
pub open spec fn limit_from(raw: Option<Seq<char>>, max: int, default_limit: int) -> int {
    match raw {
        Some(s) => match parse_unsigned(trimmed(s), max) {
            Some(n) => if n > 0 {
                n
            } else {
                default_limit
            },
            None => default_limit,
        },
        None => default_limit,
    }
}

fn read_limit(raw: Option<&str>, max: u64, default_limit: u64) -> (n: u64)
    ensures
        n == limit_from(opt_str(raw), max as int, default_limit as int),
        n <= max || n == default_limit,
{
    match raw {
        Some(s) => match read_unsigned(&trim_chars(&chars_of(s)), max) {
            Some(n) => if n > 0 {
                n
            } else {
                default_limit
            },
            None => default_limit,
        },
        None => default_limit,
    }
}

/// Most bytes that one uploaded file may have, given the value of the variable.
pub fn workspace_upload_max_bytes(raw: Option<&str>) -> (n: u64)
    ensures
        n == limit_from(
            opt_str(raw),
            u64::MAX as int,
            WORKSPACE_UPLOAD_DEFAULT_MAX_BYTES as int,
        ),
        n > 0,
{
    read_limit(raw, u64::MAX, WORKSPACE_UPLOAD_DEFAULT_MAX_BYTES)
}

/// Most source bytes that a directory download may have, given the value of the variable.
pub fn workspace_download_max_bytes(raw: Option<&str>) -> (n: u64)
    ensures
        n == limit_from(
            opt_str(raw),
            u64::MAX as int,
            WORKSPACE_DOWNLOAD_DEFAULT_MAX_BYTES as int,
        ),
        n > 0,
{
    read_limit(raw, u64::MAX, WORKSPACE_DOWNLOAD_DEFAULT_MAX_BYTES)
}

/// How many directory downloads may run at a time, given the value of the variable.
pub fn zip_concurrency(raw: Option<&str>) -> (n: usize)
    ensures
        n == limit_from(
            opt_str(raw),
            usize::MAX as int,
            WORKSPACE_DOWNLOAD_DEFAULT_CONCURRENCY as int,
        ),
        n > 0,
{
    read_limit(raw, usize::MAX as u64, WORKSPACE_DOWNLOAD_DEFAULT_CONCURRENCY as u64) as usize
}

/// `a + b`, or the largest number there is where that is more.
pub open spec fn saturated(a: u64, b: u64) -> u64 {
    if a + b > u64::MAX {
        u64::MAX
    } else {
        (a + b) as u64
    }
}

/// The bytes so far with `len` more, or that number as an error if it is over the limit.
pub open spec fn counted(total: u64, len: u64, limit: u64) -> Result<u64, u64> {
    let more = saturated(total, len);
    if more > limit {
        Err(more)
    } else {
        Ok(more)
    }
}

/// Counts `len` more bytes toward the limit.
pub fn count_bytes(total: u64, len: u64, limit: u64) -> (r: Result<u64, u64>)
    ensures
        r == counted(total, len, limit),
{
    let more: u64 = total.saturating_add(len);
    if more > limit {
        Err(more)
    } else {
        Ok(more)
    }
}

/// How many bytes there are in pieces of the given lengths.
pub open spec fn sum_of(lens: Seq<u64>) -> nat
    decreases lens.len(),
{
    if lens.len() == 0 {
        0
    } else {
        sum_of(lens.drop_last()) + lens.last() as nat
    }
}

/// The count after pieces of the given lengths, or at the first one that is too much.
pub open spec fn counted_all(lens: Seq<u64>, limit: u64) -> Result<u64, u64>
    decreases lens.len(),
{
    if lens.len() == 0 {
        Ok(0)
    } else {
        match counted_all(lens.drop_last(), limit) {
            Ok(total) => counted(total, lens.last(), limit),
            Err(total) => Err(total),
        }
    }
}

/// Counting pieces one by one goes well exactly if they have no more bytes together than the
/// limit says, and then the count is exact. The largest limit there is, is none: the count
/// stays there once it has come that far.
pub proof fn law_count_keeps_the_limit(lens: Seq<u64>, limit: u64)
    ensures
        match counted_all(lens, limit) {
            Ok(total) => {
                &&& sum_of(lens) <= limit || limit == u64::MAX
                &&& total <= limit
                &&& sum_of(lens) <= u64::MAX ==> total == sum_of(lens)
                &&& sum_of(lens) > u64::MAX ==> total == u64::MAX
            },
            Err(total) => sum_of(lens) > limit && limit < total <= sum_of(lens),
        },
    decreases lens.len(),
{
    if lens.len() > 0 {
        law_count_keeps_the_limit(lens.drop_last(), limit);
    }
}

/// A limit is taken as it is written: a number from one up to the largest, with or without
/// white space round it. Zero, a number that is too large, and no value leave the default.
pub proof fn law_written_limit_is_taken(
    lead: Seq<char>,
    n: nat,
    tail: Seq<char>,
    max: int,
    default_limit: int,
)
    requires
        all_of(lead, CharSet::White),
        all_of(tail, CharSet::White),
    ensures
        0 < n <= max ==> limit_from(Some(lead + decimal(n) + tail), max, default_limit) == n,
        n == 0 || n > max ==> limit_from(Some(lead + decimal(n) + tail), max, default_limit)
            == default_limit,
        limit_from(None, max, default_limit) == default_limit,
        limit_from(Some(lead + tail), max, default_limit) == default_limit,
{
    let d = decimal(n);
    let none = Seq::<char>::empty();
    lemma_decimal_digits(n);
    assert(is_digit(d[0]) && is_digit(d[d.len() - 1]));
    law_trimmed_takes_the_frame(lead, d, tail);
    assert(lead + none + tail =~= lead + tail);
    law_trimmed_takes_the_frame(lead, none, tail);
    if n <= max {
        law_decimal_round_trip(n, max);
    } else {
        law_other_texts_are_not_numbers(d, 0, 0, max);
    }
}

/// A text with anything in it that is no digit, but for a `+` in front and white space round
/// it, leaves the default.
pub proof fn law_odd_limit_leaves_the_default(
    lead: Seq<char>,
    s: Seq<char>,
    tail: Seq<char>,
    at: int,
    max: int,
    default_limit: int,
)
    requires
        all_of(lead, CharSet::White),
        all_of(tail, CharSet::White),
        0 <= at < s.len(),
        !is_digit(s[at]),
        at > 0 || s[at] != '+',
        !is_white(s[0]),
        !is_white(s.last()),
    ensures
        limit_from(Some(lead + s + tail), max, default_limit) == default_limit,
{
    law_trimmed_takes_the_frame(lead, s, tail);
    law_other_texts_are_not_numbers(s, at, 0, max);
}

/// Bytes are counted exactly as long as the count fits, and one more piece is let through
/// exactly if the count with it is within the limit.
pub proof fn law_bytes_are_counted(total: u64, len: u64, limit: u64)
    ensures
        saturated(total, len) == if total + len <= 0xffff_ffff_ffff_ffff {
            total + len
        } else {
            0xffff_ffff_ffff_ffff
        },
        total + len <= limit ==> counted(total, len, limit) == Ok::<u64, u64>((total + len) as u64),
        limit < total + len <= u64::MAX ==> counted(total, len, limit) == Err::<u64, u64>(
            (total + len) as u64,
        ),
        total + len > u64::MAX && limit < u64::MAX ==> counted(total, len, limit) == Err::<
            u64,
            u64,
        >(u64::MAX),
        total + len > u64::MAX && limit == u64::MAX ==> counted(total, len, limit) == Ok::<
            u64,
            u64,
        >(u64::MAX),
{
}

/// The bytes of two rows of pieces are those of both, and nothing is nothing.
pub proof fn law_sum_of_two_rows(a: Seq<u64>, b: Seq<u64>, n: u64)
    ensures
        sum_of(Seq::empty()) == 0,
        sum_of(seq![n]) == n,
        sum_of(a + b) == sum_of(a) + sum_of(b),
    decreases b.len(),
{
    assert(seq![n].drop_last() =~= Seq::empty());
    assert(sum_of(seq![n].drop_last()) == 0);
    if b.len() == 0 {
        assert(a + b =~= a);
    } else {
        law_sum_of_two_rows(a, b.drop_last(), n);
        assert((a + b).drop_last() =~= a + b.drop_last());
        assert((a + b).last() == b.last());
    }
}

/// Every number from one up to the largest is taken, however it is written, and nothing else is.
pub proof fn law_limit_is_the_number_read(
    lead: Seq<char>,
    s: Seq<char>,
    tail: Seq<char>,
    max: int,
    default_limit: int,
)
    requires
        all_of(lead, CharSet::White),
        all_of(tail, CharSet::White),
        s.len() == 0 || (!is_white(s[0]) && !is_white(s.last())),
    ensures
        limit_from(Some(lead + s + tail), max, default_limit) == match parse_unsigned(s, max) {
            Some(n) => if n >= 1 {
                n
            } else {
                default_limit
            },
            None => default_limit,
        },
{
    law_trimmed_takes_the_frame(lead, s, tail);
}

/// Where the operator sets nothing, an upload may have five hundred mebibytes and a directory
/// two hundred and fifty-six, and two directories are packed at a time.
pub proof fn law_limits_without_settings()
    ensures
        WORKSPACE_UPLOAD_DEFAULT_MAX_BYTES == 524_288_000,
        WORKSPACE_DOWNLOAD_DEFAULT_MAX_BYTES == 268_435_456,
        WORKSPACE_DOWNLOAD_DEFAULT_CONCURRENCY == 2,
{
}

} // verus!
