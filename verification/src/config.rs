//! The server's fixed configuration: a root mount over the site
//! directory and an exact-file mount for the favicon, with caching
//! disabled — and the dispatch consequences a caller relies on.
use vstd::prelude::*;
use vstd::string::StringExecFns;
use crate::mounts::{
    MountEntry, MountTable, MountTarget, PlanV, spec_best, spec_is_prefix, spec_matches,
    spec_normalize, spec_plan, wf,
};

verus! {

/// The segments of the site root directory.
pub open spec fn spec_site_root() -> Seq<Seq<char>> {
    seq!["src"@, "www"@]
}

/// The segments of the configured favicon file.
pub open spec fn spec_favicon_file() -> Seq<Seq<char>> {
    seq!["src"@, "www"@, "img"@, "favicon.ico"@]
}

/// The URL prefix of the exact-file favicon mount.
pub open spec fn spec_favicon_prefix() -> Seq<Seq<char>> {
    seq!["favicon.ico"@]
}

/// The shape of the default configuration: the root mount over the
/// site directory first, the favicon file mount second, caching
/// disabled.
pub open spec fn is_default_config(t: MountTable) -> bool {
    &&& t.entries@.len() == 2
    &&& t.entries@[0].prefix.deep_view() == Seq::<Seq<char>>::empty()
    &&& t.entries@[0].target matches MountTarget::Dir { base } && base.deep_view()
        == spec_site_root()
    &&& t.entries@[1].prefix.deep_view() == spec_favicon_prefix()
    &&& t.entries@[1].target matches MountTarget::File { file } && file.deep_view()
        == spec_favicon_file()
    &&& t.cache_secs == 0
}

/// Build the default configuration.
pub fn default_config() -> (t: MountTable)
    ensures
        is_default_config(t),
        wf(t),
{
    let mut site: Vec<String> = Vec::new();
    site.push(String::from_str("src"));
    site.push(String::from_str("www"));
    proof {
        assert(site.deep_view() =~= spec_site_root());
    }
    let mut fav: Vec<String> = Vec::new();
    fav.push(String::from_str("src"));
    fav.push(String::from_str("www"));
    fav.push(String::from_str("img"));
    fav.push(String::from_str("favicon.ico"));
    proof {
        assert(fav.deep_view() =~= spec_favicon_file());
    }
    let mut fav_prefix: Vec<String> = Vec::new();
    fav_prefix.push(String::from_str("favicon.ico"));
    proof {
        assert(fav_prefix.deep_view() =~= spec_favicon_prefix());
    }
    let root_prefix: Vec<String> = Vec::new();
    proof {
        assert(root_prefix.deep_view() =~= Seq::<Seq<char>>::empty());
    }
    let mut entries: Vec<MountEntry> = Vec::new();
    entries.push(MountEntry { prefix: root_prefix, target: MountTarget::Dir { base: site } });
    entries.push(MountEntry { prefix: fav_prefix, target: MountTarget::File { file: fav } });
    let t = MountTable { entries, cache_secs: 0 };
    proof {
        assert(t.entries@[0].prefix.deep_view().len() == 0);
        assert(t.entries@[1].prefix.deep_view().len() == 1);
    }
    t
}

/// The exact-file mount beats the general one: under the default
/// configuration, a request for `/favicon.ico` is served the
/// configured favicon file, whatever the site directory holds.
pub proof fn lemma_favicon_precedence(t: MountTable, req: Seq<Seq<char>>)
    requires
        is_default_config(t),
        req == spec_favicon_prefix(),
    ensures
        spec_plan(t, req) == (PlanV::Read { file: spec_favicon_file() }),
{
    reveal_with_fuel(spec_best, 3);
    let e = t.entries@;
    assert(e.drop_last() =~= seq![e[0]]);
    assert(seq![e[0]].drop_last() =~= Seq::<MountEntry>::empty());
    assert(e[0].prefix.deep_view() =~= req.take(0));
    assert(spec_matches(e[0], req));
    assert(e[1].prefix.deep_view() =~= req.take(1));
    assert(spec_matches(e[1], req));
    assert(spec_best(seq![e[0]], req) == Some(0int));
    assert(spec_best(e, req) == Some(1int));
    let rest = req.skip(e[1].prefix.deep_view().len() as int);
    assert(rest =~= Seq::<Seq<char>>::empty());
    assert(spec_normalize(rest) == Some(Seq::<Seq<char>>::empty()));
}

/// Every request the favicon mount does not claim falls to the root
/// mount: under the default configuration it resolves within the site
/// directory — to the site root joined with its normalized segments,
/// or to not-found when they hold a `..`.
pub proof fn lemma_root_serves(t: MountTable, req: Seq<Seq<char>>)
    requires
        is_default_config(t),
        !spec_is_prefix(spec_favicon_prefix(), req),
    ensures
        spec_plan(t, req) == match spec_normalize(req) {
            None => PlanV::NotFound,
            Some(rest) => PlanV::Read { file: spec_site_root() + rest },
        },
{
    reveal_with_fuel(spec_best, 3);
    let e = t.entries@;
    assert(e.drop_last() =~= seq![e[0]]);
    assert(seq![e[0]].drop_last() =~= Seq::<MountEntry>::empty());
    assert(e[0].prefix.deep_view() =~= req.take(0));
    assert(spec_matches(e[0], req));
    assert(!spec_matches(e[1], req));
    assert(spec_best(seq![e[0]], req) == Some(0int));
    assert(spec_best(e, req) == Some(0int));
    assert(req.skip(0) =~= req);
}

} // verus!
