//! The mount table: URL path prefixes mapped to directory-backed or
//! single-file handlers, with longest-prefix dispatch and traversal-safe
//! resolution of the remaining path against the mount's base.
use vstd::prelude::*;
use crate::paths::{dot, dotdot, is_plain};

verus! {

/// What a mount serves: a directory tree, or one fixed file.
pub enum MountTarget {
    Dir { base: Vec<String> },
    File { file: Vec<String> },
}

/// One mount: a URL prefix (as segments) and its target.
pub struct MountEntry {
    pub prefix: Vec<String>,
    pub target: MountTarget,
}

/// The server's static configuration: the mounts, and the cache
/// duration (in seconds) stamped on successful responses.
pub struct MountTable {
    pub entries: Vec<MountEntry>,
    pub cache_secs: u64,
}

/// A well-formed table: mount prefixes are pairwise distinct, so no
/// two mounts claim the same place in the URL space.
pub open spec fn wf(t: MountTable) -> bool {
    forall|i: int, j: int|
        0 <= i < j < t.entries@.len() ==> (#[trigger] t.entries@[i]).prefix.deep_view() != (
        #[trigger] t.entries@[j]).prefix.deep_view()
}

/// `p` is a segment-aligned prefix of `q`.
pub open spec fn spec_is_prefix(p: Seq<Seq<char>>, q: Seq<Seq<char>>) -> bool {
    p.len() <= q.len() && p == q.take(p.len() as int)
}

/// The entry's prefix matches the request path.
pub open spec fn spec_matches(e: MountEntry, req: Seq<Seq<char>>) -> bool {
    spec_is_prefix(e.prefix.deep_view(), req)
}

/// The index of the matching entry with the longest prefix, if any
/// entry matches. Among equal lengths the earliest wins (well-formed
/// tables have distinct prefixes, so equal lengths cannot both match).
pub open spec fn spec_best(entries: Seq<MountEntry>, req: Seq<Seq<char>>) -> Option<int>
    decreases entries.len(),
{
    if entries.len() == 0 {
        None
    } else {
        let k = entries.len() - 1;
        let prev = spec_best(entries.drop_last(), req);
        if spec_matches(entries[k], req) {
            match prev {
                None => Some(k),
                Some(b) => if entries[k].prefix.deep_view().len()
                    > entries[b].prefix.deep_view().len() {
                    Some(k)
                } else {
                    Some(b)
                },
            }
        } else {
            prev
        }
    }
}

/// The dispatch rule, spelled out: the chosen entry matches and no
/// matching entry has a longer prefix; `None` only when nothing matches.
pub proof fn lemma_best_props(entries: Seq<MountEntry>, req: Seq<Seq<char>>)
    ensures
        match spec_best(entries, req) {
            Some(i) => 0 <= i < entries.len() && spec_matches(entries[i], req)
                && forall|j: int|
                    0 <= j < entries.len() && spec_matches(entries[j], req)
                        ==> entries[j].prefix.deep_view().len()
                            <= entries[i].prefix.deep_view().len(),
            None => forall|j: int| 0 <= j < entries.len() ==> !spec_matches(entries[j], req),
        },
    decreases entries.len(),
{
    if entries.len() > 0 {
        lemma_best_props(entries.drop_last(), req);
        assert forall|j: int| 0 <= j < entries.len() - 1 implies entries.drop_last()[j]
            == entries[j] by {}
    }
}

/// In a well-formed table the dispatched mount is the unique matching
/// entry of maximal prefix length: two distinct matching entries with
/// the same prefix length would carry the same prefix.
pub proof fn lemma_dispatch_unique(t: MountTable, req: Seq<Seq<char>>, i: int, j: int)
    requires
        wf(t),
        0 <= i < t.entries@.len(),
        0 <= j < t.entries@.len(),
        spec_matches(t.entries@[i], req),
        spec_matches(t.entries@[j], req),
        t.entries@[i].prefix.deep_view().len() == t.entries@[j].prefix.deep_view().len(),
    ensures
        i == j,
{
    if i != j {
        assert(t.entries@[i].prefix.deep_view() =~= t.entries@[j].prefix.deep_view());
    }
}

/// Exact beats general: in a well-formed table, an entry whose prefix
/// is the whole request path is the one dispatched, whatever other
/// mounts also match.
pub proof fn lemma_exact_match_wins(t: MountTable, req: Seq<Seq<char>>, i: int)
    requires
        wf(t),
        0 <= i < t.entries@.len(),
        t.entries@[i].prefix.deep_view() == req,
    ensures
        spec_best(t.entries@, req) == Some(i),
{
    lemma_best_props(t.entries@, req);
    assert(req.take(req.len() as int) =~= req);
    assert(spec_matches(t.entries@[i], req));
    match spec_best(t.entries@, req) {
        None => {},
        Some(b) => {
            assert(t.entries@[b].prefix.deep_view().len() <= req.len());
            assert(t.entries@[b].prefix.deep_view().len() >= req.len());
            lemma_dispatch_unique(t, req, b, i);
        },
    }
}

/// Normalization of the path below a mount: empty and `.` segments are
/// dropped, and any `..` segment rejects the whole path, so the result
/// holds plain file names only.
pub open spec fn spec_normalize(segs: Seq<Seq<char>>) -> Option<Seq<Seq<char>>>
    decreases segs.len(),
{
    if segs.len() == 0 {
        Some(Seq::empty())
    } else if segs[0] == dotdot() {
        None
    } else {
        match spec_normalize(segs.skip(1)) {
            None => None,
            Some(t) => if segs[0] == dot() || segs[0].len() == 0 {
                Some(t)
            } else {
                Some(seq![segs[0]] + t)
            },
        }
    }
}

/// Whatever normalization accepts is made of plain names only: nothing
/// that could step out of the base directory survives it.
pub proof fn lemma_normalize_plain(segs: Seq<Seq<char>>)
    ensures
        match spec_normalize(segs) {
            Some(t) => forall|i: int| 0 <= i < t.len() ==> is_plain(#[trigger] t[i]),
            None => true,
        },
    decreases segs.len(),
{
    if segs.len() > 0 && segs[0] != dotdot() {
        lemma_normalize_plain(segs.skip(1));
    }
}

/// Drop `.` and empty segments; reject the path on any `..` segment.
pub fn normalize_segments(segs: &Vec<String>) -> (r: Option<Vec<String>>)
    ensures
        r.deep_view() == spec_normalize(segs.deep_view()),
{
    let ghost all = segs.deep_view();
    let mut out: Vec<String> = Vec::new();
    let mut i: usize = 0;
    proof {
        assert(all.skip(0) =~= all);
        assert(out.deep_view() =~= Seq::<Seq<char>>::empty());
    }
    while i < segs.len()
        invariant
            i <= segs.len(),
            all == segs.deep_view(),
            spec_normalize(all) == match spec_normalize(all.skip(i as int)) {
                None => None::<Seq<Seq<char>>>,
                Some(t) => Some(out.deep_view() + t),
            },
        decreases segs.len() - i,
    {
        let ghost prev_out = out.deep_view();
        proof {
            assert(all.skip(i as int)[0] == all[i as int]);
            assert(all.skip(i as int).skip(1) =~= all.skip(i as int + 1));
            reveal_strlit("..");
            reveal_strlit(".");
            assert(".."@ =~= dotdot());
            assert("."@ =~= dot());
        }
        let s = &segs[i];
        if crate::paths::text_is(s, "..") {
            proof {
                assert(spec_normalize(all.skip(i as int)) is None);
            }
            return None;
        } else if crate::paths::text_is(s, ".") || s.as_str().is_empty() {
            // dropped
        } else {
            out.push(s.clone());
            proof {
                assert(out.deep_view() =~= prev_out.push(all[i as int]));
                assert forall|t: Seq<Seq<char>>| true implies prev_out + (seq![all[i as int]] + t)
                    =~= out.deep_view() + t by {}
            }
        }
        i = i + 1;
    }
    proof {
        assert(all.skip(segs.len() as int) =~= Seq::<Seq<char>>::empty());
        assert(out.deep_view() + Seq::<Seq<char>>::empty() =~= out.deep_view());
    }
    Some(out)
}

fn is_prefix_of(p: &Vec<String>, q: &Vec<String>) -> (r: bool)
    ensures
        r == spec_is_prefix(p.deep_view(), q.deep_view()),
{
    if p.len() > q.len() {
        return false;
    }
    let mut i: usize = 0;
    while i < p.len()
        invariant
            i <= p.len() <= q.len(),
            p@.len() == p.deep_view().len(),
            q@.len() == q.deep_view().len(),
            forall|j: int| 0 <= j < i ==> p.deep_view()[j] == q.deep_view()[j],
        decreases p.len() - i,
    {
        if !p[i].eq(&q[i]) {
            proof {
                let pd = p.deep_view();
                let qd = q.deep_view();
                assert(pd[i as int] != qd.take(pd.len() as int)[i as int]);
            }
            return false;
        }
        i = i + 1;
    }
    proof {
        assert(p.deep_view() =~= q.deep_view().take(p.deep_view().len() as int));
    }
    true
}

/// Pick the mount for a request: the matching entry with the longest
/// prefix, or none.
pub fn dispatch(table: &MountTable, req: &Vec<String>) -> (r: Option<usize>)
    ensures
        match r {
            Some(i) => spec_best(table.entries@, req.deep_view()) == Some(i as int),
            None => spec_best(table.entries@, req.deep_view()) is None,
        },
{
    let ghost entries = table.entries@;
    let ghost reqv = req.deep_view();
    let mut best: Option<usize> = None;
    let mut i: usize = 0;
    proof {
        assert(entries.take(0) =~= Seq::<MountEntry>::empty());
    }
    while i < table.entries.len()
        invariant
            i <= table.entries.len(),
            entries == table.entries@,
            reqv == req.deep_view(),
            match best {
                Some(b) => b < i && spec_best(entries.take(i as int), reqv) == Some(b as int),
                None => spec_best(entries.take(i as int), reqv) is None,
            },
        decreases table.entries.len() - i,
    {
        proof {
            assert(entries.take(i as int + 1).drop_last() =~= entries.take(i as int));
            assert(entries.take(i as int + 1).last() == entries[i as int]);
        }
        let e = &table.entries[i];
        if is_prefix_of(&e.prefix, req) {
            match best {
                None => {
                    best = Some(i);
                },
                Some(b) => {
                    if e.prefix.len() > table.entries[b].prefix.len() {
                        best = Some(i);
                    }
                },
            }
        }
        i = i + 1;
    }
    proof {
        assert(entries.take(table.entries.len() as int) =~= entries);
    }
    best
}

/// A resolved request: the file to read from disk, or an immediate
/// not-found outcome. The ghost counterpart carries the path as
/// character sequences.
pub enum PlanV {
    Read { file: Seq<Seq<char>> },
    NotFound,
}

/// A resolved request: the file to read from disk, or an immediate
/// not-found outcome.
pub enum Plan {
    Read { file: Vec<String> },
    NotFound,
}

impl View for Plan {
    type V = PlanV;

    open spec fn view(&self) -> PlanV {
        match self {
            Plan::Read { file } => PlanV::Read { file: file.deep_view() },
            Plan::NotFound => PlanV::NotFound,
        }
    }
}

/// Resolution, spelled out: dispatch to the best-matching mount, strip
/// its prefix, normalize the remainder. A directory mount serves the
/// base joined with the normalized remainder; a file mount serves its
/// fixed file only when the remainder normalizes to nothing; everything
/// else, including any `..` remainder, is not found.
pub open spec fn spec_plan(table: MountTable, req: Seq<Seq<char>>) -> PlanV {
    match spec_best(table.entries@, req) {
        None => PlanV::NotFound,
        Some(i) => {
            let e = table.entries@[i];
            let rest = req.skip(e.prefix.deep_view().len() as int);
            match e.target {
                MountTarget::Dir { base } => match spec_normalize(rest) {
                    None => PlanV::NotFound,
                    Some(t) => PlanV::Read { file: base.deep_view() + t },
                },
                MountTarget::File { file } => if spec_normalize(rest)
                    == Some(Seq::<Seq<char>>::empty()) {
                    PlanV::Read { file: file.deep_view() }
                } else {
                    PlanV::NotFound
                },
            }
        },
    }
}

fn clone_path(v: &Vec<String>) -> (r: Vec<String>)
    ensures
        r.deep_view() == v.deep_view(),
{
    let mut r: Vec<String> = Vec::new();
    let mut i: usize = 0;
    while i < v.len()
        invariant
            i <= v.len(),
            r.deep_view() =~= v.deep_view().take(i as int),
        decreases v.len() - i,
    {
        let ghost prev = r.deep_view();
        proof {
            assert(prev.len() == r@.len());
        }
        r.push(v[i].clone());
        proof {
            assert(r.deep_view() =~= prev.push(v.deep_view()[i as int]));
            assert(v.deep_view().take(i as int).push(v.deep_view()[i as int]) =~= v.deep_view().take(
                i as int + 1,
            ));
        }
        i = i + 1;
    }
    proof {
        assert(v.deep_view().take(v.len() as int) =~= v.deep_view());
    }
    r
}

fn concat_paths(base: &Vec<String>, rest: &Vec<String>) -> (r: Vec<String>)
    ensures
        r.deep_view() == base.deep_view() + rest.deep_view(),
{
    let mut r = clone_path(base);
    let mut i: usize = 0;
    while i < rest.len()
        invariant
            i <= rest.len(),
            r.deep_view() =~= base.deep_view() + rest.deep_view().take(i as int),
        decreases rest.len() - i,
    {
        let ghost prev = r.deep_view();
        proof {
            assert(prev.len() == r@.len());
        }
        r.push(rest[i].clone());
        proof {
            assert(r.deep_view() =~= prev.push(rest.deep_view()[i as int]));
            assert((base.deep_view() + rest.deep_view().take(i as int)).push(
                rest.deep_view()[i as int],
            ) =~= base.deep_view() + rest.deep_view().take(i as int + 1));
        }
        i = i + 1;
    }
    proof {
        assert(rest.deep_view().take(rest.len() as int) =~= rest.deep_view());
    }
    r
}

/// Resolve a request path against the mount table.
pub fn plan_request(table: &MountTable, req: &Vec<String>) -> (p: Plan)
    ensures
        p@ == spec_plan(*table, req.deep_view()),
{
    let ghost reqv = req.deep_view();
    match dispatch(table, req) {
        None => Plan::NotFound,
        Some(i) => {
            proof {
                lemma_best_props(table.entries@, reqv);
            }
            let e = &table.entries[i];
            let prefix_len = e.prefix.len();
            let mut rest: Vec<String> = Vec::new();
            let mut j: usize = prefix_len;
            proof {
                assert(rest.deep_view() =~= reqv.skip(prefix_len as int).take(0));
            }
            while j < req.len()
                invariant
                    prefix_len <= j <= req.len(),
                    reqv == req.deep_view(),
                    prefix_len <= req.len(),
                    rest.deep_view() =~= reqv.skip(prefix_len as int).take(
                        j as int - prefix_len as int,
                    ),
                decreases req.len() - j,
            {
                let ghost prev = rest.deep_view();
                proof {
                    assert(prev.len() == rest@.len());
                }
                rest.push(req[j].clone());
                proof {
                    assert(rest.deep_view() =~= prev.push(req.deep_view()[j as int]));
                    assert(reqv.skip(prefix_len as int).take(j as int - prefix_len as int).push(
                        reqv[j as int],
                    ) =~= reqv.skip(prefix_len as int).take(j as int + 1 - prefix_len as int));
                }
                j = j + 1;
            }
            proof {
                let restv = reqv.skip(prefix_len as int);
                assert(restv.take(req.len() as int - prefix_len as int) =~= restv);
            }
            match normalize_segments(&rest) {
                None => Plan::NotFound,
                Some(t) => match &e.target {
                    MountTarget::Dir { base } => {
                        let file = concat_paths(base, &t);
                        Plan::Read { file }
                    },
                    MountTarget::File { file } => {
                        if t.len() == 0 {
                            proof {
                                assert(t.deep_view() =~= Seq::<Seq<char>>::empty());
                            }
                            Plan::Read { file: clone_path(file) }
                        } else {
                            proof {
                                assert(t.deep_view().len() > 0);
                            }
                            Plan::NotFound
                        }
                    },
                },
            }
        },
    }
}

/// `file` lies within `base`: it starts with `base` and continues with
/// plain names only, so it can never leave the directory `base` names.
pub open spec fn within(base: Seq<Seq<char>>, file: Seq<Seq<char>>) -> bool {
    &&& base.len() <= file.len()
    &&& file.take(base.len() as int) == base
    &&& forall|i: int| base.len() <= i < file.len() ==> is_plain(#[trigger] file[i])
}

/// Traversal safety: whenever resolution plans a read, the planned file
/// lies within the chosen mount's base directory (or is exactly the
/// fixed file of a file mount) — a request path with `..` segments can
/// never reach outside.
pub proof fn lemma_no_escape(table: MountTable, req: Seq<Seq<char>>)
    ensures
        match spec_plan(table, req) {
            PlanV::Read { file } => exists|i: int|
                0 <= i < table.entries@.len() && match #[trigger] table.entries@[i].target {
                    MountTarget::Dir { base } => within(base.deep_view(), file),
                    MountTarget::File { file: f } => file == f.deep_view(),
                },
            PlanV::NotFound => true,
        },
{
    lemma_best_props(table.entries@, req);
    match spec_best(table.entries@, req) {
        None => {},
        Some(i) => {
            let e = table.entries@[i];
            let rest = req.skip(e.prefix.deep_view().len() as int);
            lemma_normalize_plain(rest);
            match e.target {
                MountTarget::Dir { base } => {
                    match spec_normalize(rest) {
                        None => {},
                        Some(t) => {
                            let file = base.deep_view() + t;
                            assert(file.take(base.deep_view().len() as int) =~= base.deep_view());
                            assert(within(base.deep_view(), file));
                        },
                    }
                },
                MountTarget::File { file: f } => {},
            }
        },
    }
}

} // verus!
