//! Per-request timing: a monotonic-counter read at request start, the
//! elapsed nanoseconds at the end, and the two log lines — the URL when
//! a request begins and the elapsed milliseconds (with six fractional
//! digits) when it completes.
use vstd::prelude::*;
use vstd::string::StringExecFns;
use crate::paths::spec_join;
use crate::paths::join_segments;

verus! {

/// Relies on time::precise_time_ns: the current value of a
/// high-resolution performance counter in nanoseconds since an
/// unspecified epoch. Nothing can be promised of a clock reading.
#[verifier::external_body]
fn now_ns() -> u64 {
    time::precise_time_ns()
}

/// Nanoseconds elapsed between two counter readings; a reading pair
/// out of order (which a monotonic counter does not produce) counts as
/// no elapsed time rather than wrapping around.
pub open spec fn spec_elapsed(start: u64, end: u64) -> u64 {
    if end >= start {
        (end - start) as u64
    } else {
        0
    }
}

/// Elapsed nanoseconds between two counter readings, never negative.
pub fn elapsed_ns(start: u64, end: u64) -> (r: u64)
    ensures
        r == spec_elapsed(start, end),
{
    if end >= start {
        end - start
    } else {
        0
    }
}

/// The digit character for one decimal digit.
pub open spec fn spec_digit(d: int) -> char {
    if d == 0 {
        '0'
    } else if d == 1 {
        '1'
    } else if d == 2 {
        '2'
    } else if d == 3 {
        '3'
    } else if d == 4 {
        '4'
    } else if d == 5 {
        '5'
    } else if d == 6 {
        '6'
    } else if d == 7 {
        '7'
    } else if d == 8 {
        '8'
    } else {
        '9'
    }
}

/// The decimal digits of `n`, most significant first, no leading zeros
/// (a single `0` for zero).
pub open spec fn spec_dec(n: nat) -> Seq<char>
    decreases n,
{
    if n < 10 {
        seq![spec_digit(n as int)]
    } else {
        spec_dec(n / 10).push(spec_digit((n % 10) as int))
    }
}

/// The decimal digits of `n` padded with leading zeros to exactly `w`
/// digits (the low `w` digits of `n`).
pub open spec fn spec_dec_pad(n: nat, w: nat) -> Seq<char>
    decreases w,
{
    if w == 0 {
        Seq::empty()
    } else {
        spec_dec_pad(n / 10, (w - 1) as nat).push(spec_digit((n % 10) as int))
    }
}

fn digit_str(d: u64) -> (s: &'static str)
    requires
        d < 10,
    ensures
        s@ == seq![spec_digit(d as int)],
{
    proof {
        reveal_strlit("0");
        reveal_strlit("1");
        reveal_strlit("2");
        reveal_strlit("3");
        reveal_strlit("4");
        reveal_strlit("5");
        reveal_strlit("6");
        reveal_strlit("7");
        reveal_strlit("8");
        reveal_strlit("9");
    }
    if d == 0 {
        proof {
            assert("0"@ =~= seq![spec_digit(0)]);
        }
        "0"
    } else if d == 1 {
        proof {
            assert("1"@ =~= seq![spec_digit(1)]);
        }
        "1"
    } else if d == 2 {
        proof {
            assert("2"@ =~= seq![spec_digit(2)]);
        }
        "2"
    } else if d == 3 {
        proof {
            assert("3"@ =~= seq![spec_digit(3)]);
        }
        "3"
    } else if d == 4 {
        proof {
            assert("4"@ =~= seq![spec_digit(4)]);
        }
        "4"
    } else if d == 5 {
        proof {
            assert("5"@ =~= seq![spec_digit(5)]);
        }
        "5"
    } else if d == 6 {
        proof {
            assert("6"@ =~= seq![spec_digit(6)]);
        }
        "6"
    } else if d == 7 {
        proof {
            assert("7"@ =~= seq![spec_digit(7)]);
        }
        "7"
    } else if d == 8 {
        proof {
            assert("8"@ =~= seq![spec_digit(8)]);
        }
        "8"
    } else {
        proof {
            assert("9"@ =~= seq![spec_digit(9)]);
        }
        "9"
    }
}

/// Render `n` in decimal.
pub fn u64_to_dec(n: u64) -> (s: String)
    ensures
        s@ == spec_dec(n as nat),
    decreases n,
{
    if n < 10 {
        String::from_str(digit_str(n))
    } else {
        let mut s = u64_to_dec(n / 10);
        s.append(digit_str(n % 10));
        proof {
            assert(spec_dec((n / 10) as nat).push(spec_digit((n % 10) as int)) =~= spec_dec(
                (n / 10) as nat,
            ) + seq![spec_digit((n % 10) as int)]);
        }
        s
    }
}

/// Render the low `w` decimal digits of `n`, zero-padded to width `w`.
pub fn u64_to_dec_pad(n: u64, w: u64) -> (s: String)
    ensures
        s@ == spec_dec_pad(n as nat, w as nat),
    decreases w,
{
    if w == 0 {
        String::new()
    } else {
        let mut s = u64_to_dec_pad(n / 10, w - 1);
        s.append(digit_str(n % 10));
        proof {
            assert(spec_dec_pad((n / 10) as nat, (w - 1) as nat).push(
                spec_digit((n % 10) as int),
            ) =~= spec_dec_pad((n / 10) as nat, (w - 1) as nat) + seq![
                spec_digit((n % 10) as int),
            ]);
        }
        s
    }
}

/// Elapsed nanoseconds rendered as milliseconds: the whole part in
/// decimal, a point, then exactly six fractional digits.
pub open spec fn spec_format_ms(ns: nat) -> Seq<char> {
    spec_dec(ns / 1000000) + "."@ + spec_dec_pad(ns % 1000000, 6)
}

/// Render elapsed nanoseconds as fractional milliseconds.
pub fn format_ms(ns: u64) -> (s: String)
    ensures
        s@ == spec_format_ms(ns as nat),
{
    let mut s = u64_to_dec(ns / 1000000);
    s.append(".");
    let frac = u64_to_dec_pad(ns % 1000000, 6);
    s.append(frac.as_str());
    s
}

/// The log line written when a request begins.
pub open spec fn spec_start_line(joined_path: Seq<char>) -> Seq<char> {
    "Requested url: "@ + joined_path
}

/// The log line written when a request completes.
pub open spec fn spec_end_line(elapsed_ns: nat) -> Seq<char> {
    "Request took: "@ + spec_format_ms(elapsed_ns) + " ms"@
}

/// Build the start log line for a request path.
pub fn start_line(req: &Vec<String>) -> (s: String)
    ensures
        s@ == spec_start_line(spec_join(req.deep_view())),
{
    let mut s = String::from_str("Requested url: ");
    let joined = join_segments(req);
    s.append(joined.as_str());
    s
}

/// Build the end log line for an elapsed time.
pub fn end_line(elapsed: u64) -> (s: String)
    ensures
        s@ == spec_end_line(elapsed as nat),
{
    let mut s = String::from_str("Request took: ");
    let ms = format_ms(elapsed);
    s.append(ms.as_str());
    s.append(" ms");
    s
}

/// The per-request record the timing hooks share: the counter reading
/// taken when the request began. Owned by one request's lifetime.
pub struct RequestContext {
    pub start_ns: u64,
}

/// Begin a request: read the counter and build the start log line for
/// the requested path.
pub fn before_hook(req: &Vec<String>) -> (r: (RequestContext, String))
    ensures
        r.1@ == spec_start_line(spec_join(req.deep_view())),
{
    let ctx = RequestContext { start_ns: now_ns() };
    let line = start_line(req);
    (ctx, line)
}

/// Complete a request: read the counter again and build the end log
/// line from the elapsed time against the context's start reading. The
/// returned value is the end reading the line was computed from.
pub fn after_hook(ctx: &RequestContext) -> (r: (u64, String))
    ensures
        r.1@ == spec_end_line(spec_elapsed(ctx.start_ns, r.0) as nat),
{
    let end = now_ns();
    let elapsed = elapsed_ns(ctx.start_ns, end);
    let line = end_line(elapsed);
    (end, line)
}

} // verus!
