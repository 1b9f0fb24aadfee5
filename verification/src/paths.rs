//! Request paths as segment lists: splitting a raw URL path at `/`,
//! joining segments back for the log line, and classifying segments
//! so that resolution can never climb out of a mount's base directory.
use vstd::prelude::*;
use vstd::string::StrSliceExecFns;
use vstd::string::StringExecFns;

verus! {

/// Compare a string against a literal.
pub fn text_is(s: &String, lit: &str) -> (r: bool)
    ensures
        r == (s@ == lit@),
{
    let other = String::from_str(lit);
    s.eq(&other)
}

/// The characters of the segment `.`.
pub open spec fn dot() -> Seq<char> {
    seq!['.']
}

/// The characters of the segment `..`.
pub open spec fn dotdot() -> Seq<char> {
    seq!['.', '.']
}

/// A segment that names a real directory entry: non-empty and neither
/// `.` nor `..`.
pub open spec fn is_plain(s: Seq<char>) -> bool {
    s.len() > 0 && s != dot() && s != dotdot()
}

/// Splitting state: `s` is the unread input, `cur` the segment read so
/// far, `acc` the segments already complete. Empty segments (from
/// leading, trailing or doubled slashes) are dropped.
pub open spec fn split_state(s: Seq<char>, cur: Seq<char>, acc: Seq<Seq<char>>) -> Seq<Seq<char>>
    decreases s.len(),
{
    if s.len() == 0 {
        if cur.len() == 0 {
            acc
        } else {
            acc.push(cur)
        }
    } else if s[0] == '/' {
        split_state(
            s.skip(1),
            Seq::empty(),
            if cur.len() == 0 {
                acc
            } else {
                acc.push(cur)
            },
        )
    } else {
        split_state(s.skip(1), cur.push(s[0]), acc)
    }
}

/// The segments of a raw URL path: the maximal `/`-free non-empty runs,
/// in order.
pub open spec fn spec_split(s: Seq<char>) -> Seq<Seq<char>> {
    split_state(s, Seq::empty(), Seq::empty())
}

/// Split a raw URL path into its non-empty segments.
pub fn split_segments(s: &str) -> (segs: Vec<String>)
    ensures
        segs.deep_view() == spec_split(s@),
{
    let n = s.unicode_len();
    let mut segs: Vec<String> = Vec::new();
    let mut seg_start: usize = 0;
    let mut i: usize = 0;
    proof {
        assert(s@.skip(0) =~= s@);
        assert(s@.subrange(0, 0) =~= Seq::<char>::empty());
        assert(segs.deep_view() =~= Seq::<Seq<char>>::empty());
    }
    while i < n
        invariant
            seg_start <= i <= n,
            n == s@.len(),
            split_state(s@.skip(i as int), s@.subrange(seg_start as int, i as int), segs.deep_view())
                == spec_split(s@),
        decreases n - i,
    {
        let ghost prev_segs = segs.deep_view();
        let ghost cur = s@.subrange(seg_start as int, i as int);
        let c = s.get_char(i);
        proof {
            assert(s@.skip(i as int)[0] == s@[i as int]);
            assert(s@.skip(i as int).skip(1) =~= s@.skip(i as int + 1));
        }
        if c == '/' {
            if seg_start < i {
                let seg = s.substring_char(seg_start, i);
                segs.push(String::from_str(seg));
                proof {
                    assert(segs.deep_view() =~= prev_segs.push(cur));
                }
            }
            seg_start = i + 1;
            proof {
                assert(s@.subrange(seg_start as int, seg_start as int) =~= Seq::<char>::empty());
            }
        } else {
            proof {
                assert(s@.subrange(seg_start as int, i as int + 1) =~= cur.push(s@[i as int]));
            }
        }
        i = i + 1;
    }
    proof {
        assert(s@.skip(n as int) =~= Seq::<char>::empty());
    }
    if seg_start < n {
        let ghost prev_segs = segs.deep_view();
        let ghost cur = s@.subrange(seg_start as int, n as int);
        let seg = s.substring_char(seg_start, n);
        segs.push(String::from_str(seg));
        proof {
            assert(segs.deep_view() =~= prev_segs.push(cur));
        }
    }
    segs
}

/// The segments rejoined with `/` between them, as the start log line
/// reports the requested URL.
pub open spec fn spec_join(segs: Seq<Seq<char>>) -> Seq<char>
    decreases segs.len(),
{
    if segs.len() == 0 {
        Seq::empty()
    } else if segs.len() == 1 {
        segs[0]
    } else {
        spec_join(segs.drop_last()) + seq!['/'] + segs.last()
    }
}

/// Join segments with `/` separators.
pub fn join_segments(segs: &Vec<String>) -> (s: String)
    ensures
        s@ == spec_join(segs.deep_view()),
{
    let mut s = String::new();
    let mut i: usize = 0;
    proof {
        assert(segs.deep_view().take(0) =~= Seq::<Seq<char>>::empty());
    }
    while i < segs.len()
        invariant
            i <= segs.len(),
            s@ == spec_join(segs.deep_view().take(i as int)),
        decreases segs.len() - i,
    {
        let ghost taken = segs.deep_view().take(i as int);
        if i > 0 {
            s.append("/");
            proof {
                reveal_strlit("/");
                assert("/"@ =~= seq!['/']);
            }
        }
        s.append(segs[i].as_str());
        proof {
            let next = segs.deep_view().take(i as int + 1);
            assert(next.drop_last() =~= taken);
            assert(next.last() == segs.deep_view()[i as int]);
            if i == 0 {
                assert(s@ =~= spec_join(next));
            }
        }
        i = i + 1;
    }
    proof {
        assert(segs.deep_view().take(segs.len() as int) =~= segs.deep_view());
    }
    s
}

} // verus!
