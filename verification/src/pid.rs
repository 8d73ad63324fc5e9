use vstd::prelude::*;
use vstd::string::*;

use crate::library::{all_decimal_digits, decimal_u64, digits_value, parse_decimal_u64};

verus! {

/// Where the running daemon writes its process id.
pub const PID_FILE: &'static str = "/tmp/ami_daemon.pid";

/// Whether `c` is white space in Unicode's sense (the `White_Space`
/// property), which is what `char::is_whitespace` and `str::trim` go by.
pub open spec fn is_white_space(c: char) -> bool {
    let u = c as u32;
    ||| 0x09 <= u <= 0x0d
    ||| u == 0x20
    ||| u == 0x85
    ||| u == 0xa0
    ||| u == 0x1680
    ||| 0x2000 <= u <= 0x200a
    ||| u == 0x2028
    ||| u == 0x2029
    ||| u == 0x202f
    ||| u == 0x205f
    ||| u == 0x3000
}

/// `s` without its leading white space.
pub open spec fn trim_start(s: Seq<char>) -> Seq<char>
    decreases s.len(),
{
    if s.len() > 0 && is_white_space(s[0]) {
        trim_start(s.drop_first())
    } else {
        s
    }
}

/// `s` without its trailing white space.
pub open spec fn trim_end(s: Seq<char>) -> Seq<char>
    decreases s.len(),
{
    if s.len() > 0 && is_white_space(s.last()) {
        trim_end(s.drop_last())
    } else {
        s
    }
}

/// `s` without leading and trailing white space, as `str::trim` gives it.
pub open spec fn trimmed(s: Seq<char>) -> Seq<char> {
    trim_end(trim_start(s))
}

/// The `i32` a text denotes as a signed decimal number, as
/// `str::parse::<i32>` reads it: an optional `+` or `-`, then at least one
/// decimal digit, the value within the range of `i32`.
pub open spec fn decimal_i32(s: Seq<char>) -> Option<i32> {
    if s.len() > 0 && s[0] == '-' {
        let d = s.drop_first();
        if d.len() > 0 && all_decimal_digits(d) && digits_value(d) <= 0x8000_0000 {
            Some((0 - digits_value(d)) as i32)
        } else {
            None
        }
    } else {
        match decimal_u64(s) {
            Some(v) => if v <= i32::MAX {
                Some(v as i32)
            } else {
                None
            },
            None => None,
        }
    }
}

/// The `u32` a text denotes as an unsigned decimal number, as
/// `str::parse::<u32>` reads it.
pub open spec fn decimal_u32(s: Seq<char>) -> Option<u32> {
    match decimal_u64(s) {
        Some(v) => if v <= u32::MAX {
            Some(v as u32)
        } else {
            None
        },
        None => None,
    }
}

/// Whether `c` is white space, as `char::is_whitespace` tells.
pub fn is_white_space_char(c: char) -> (r: bool)
    ensures
        r == is_white_space(c),
{
    let u = c as u32;
    (0x09 <= u && u <= 0x0d) || u == 0x20 || u == 0x85 || u == 0xa0 || u == 0x1680 || (0x2000 <= u
        && u <= 0x200a) || u == 0x2028 || u == 0x2029 || u == 0x202f || u == 0x205f || u == 0x3000
}

/// Dropping leading white space from a suffix that starts after some of it
/// gives the same text as dropping it from the whole.
proof fn lemma_trim_start_skips(s: Seq<char>, i: int)
    requires
        0 <= i <= s.len(),
        forall|j: int| 0 <= j < i ==> is_white_space(#[trigger] s[j]),
    ensures
        trim_start(s) == trim_start(s.subrange(i, s.len() as int)),
    decreases i,
{
    if i > 0 {
        lemma_trim_start_skips(s.drop_first(), i - 1);
        assert(s.drop_first().subrange(i - 1, s.drop_first().len() as int) =~= s.subrange(i, s.len() as int));
        assert(is_white_space(s[0]));
    } else {
        assert(s.subrange(0, s.len() as int) =~= s);
    }
}

/// Dropping trailing white space from a prefix that ends before some of it
/// gives the same text as dropping it from the whole.
proof fn lemma_trim_end_skips(s: Seq<char>, k: int)
    requires
        0 <= k <= s.len(),
        forall|j: int| k <= j < s.len() ==> is_white_space(#[trigger] s[j]),
    ensures
        trim_end(s) == trim_end(s.subrange(0, k)),
    decreases s.len() - k,
{
    if k < s.len() {
        assert(is_white_space(s[s.len() - 1]));
        assert(s.drop_last().subrange(0, k) =~= s.subrange(0, k));
        lemma_trim_end_skips(s.drop_last(), k);
    } else {
        assert(s.subrange(0, k) =~= s);
    }
}

/// `s` with leading and trailing white space dropped, as `str::trim` does.
pub fn trim_text(s: &str) -> (r: &str)
    ensures
        r@ == trimmed(s@),
{
    let n = s.unicode_len();
    let mut start: usize = 0;
    while start < n && is_white_space_char(s.get_char(start))
        invariant
            start <= n,
            n == s@.len(),
            forall|j: int| 0 <= j < start ==> is_white_space(#[trigger] s@[j]),
        decreases n - start,
    {
        start += 1;
    }
    let ghost rest = s@.subrange(start as int, n as int);
    proof {
        lemma_trim_start_skips(s@, start as int);
        assert(trim_start(rest) == rest);
    }
    let mut end: usize = n;
    while end > start && is_white_space_char(s.get_char(end - 1))
        invariant
            start <= end <= n,
            n == s@.len(),
            rest == s@.subrange(start as int, n as int),
            forall|j: int| end - start <= j < rest.len() ==> is_white_space(#[trigger] rest[j]),
        decreases end - start,
    {
        end -= 1;
    }
    proof {
        lemma_trim_end_skips(rest, end - start);
        let kept = rest.subrange(0, end - start);
        assert(kept =~= s@.subrange(start as int, end as int));
        assert(trim_end(kept) == kept);
    }
    s.substring_char(start, end)
}

/// Read a signed decimal `i32`, as `str::parse::<i32>` does.
pub fn parse_decimal_i32(s: &str) -> (r: Option<i32>)
    ensures
        r == decimal_i32(s@),
{
    let n = s.unicode_len();
    if n > 0 && s.get_char(0) == '-' {
        let rest = s.substring_char(1, n);
        assert(rest@ =~= s@.drop_first());
        if rest.unicode_len() == 0 || !('0' <= rest.get_char(0) && rest.get_char(0) <= '9') {
            return None;
        }
        match parse_decimal_u64(rest) {
            Some(v) => {
                if v <= 0x8000_0000 {
                    let neg: i64 = 0 - (v as i64);
                    Some(neg as i32)
                } else {
                    None
                }
            },
            None => None,
        }
    } else {
        match parse_decimal_u64(s) {
            Some(v) => {
                if v <= 0x7fff_ffff {
                    Some(v as i32)
                } else {
                    None
                }
            },
            None => None,
        }
    }
}

/// The process id in the text of a pid file, as the daemon's start reads
/// it: the text without surrounding white space, read as an `i32`.
pub fn read_pid(text: &str) -> (r: Option<i32>)
    ensures
        r == decimal_i32(trimmed(text@)),
{
    parse_decimal_i32(trim_text(text))
}

/// The process id in the text of a pid file, as the daemon's stop reads
/// it: the text without surrounding white space, read as a `u32`.
pub fn read_stop_pid(text: &str) -> (r: Option<u32>)
    ensures
        r == decimal_u32(trimmed(text@)),
{
    match parse_decimal_u64(trim_text(text)) {
        Some(v) => {
            if v <= 0xffff_ffff {
                Some(v as u32)
            } else {
                None
            }
        },
        None => None,
    }
}

} // verus!
