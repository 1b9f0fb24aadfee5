//! Building the response for a planned request: status classification,
//! content type inferred from the file extension, and the cache header
//! value, with the body carried through byte-for-byte.
use vstd::prelude::*;
use vstd::string::StrSliceExecFns;
use vstd::string::StringExecFns;
use crate::mounts::{Plan, PlanV};
use crate::paths::text_is;

verus! {

/// Outcome classification for a served request.
#[derive(PartialEq, Eq, Structural, Clone, Copy, Debug)]
pub enum Status {
    Okay,
    NotFound,
    InternalError,
}

/// What the disk read of a planned file yielded, as plain values: the
/// bytes, no such file, or a file that exists but cannot be read.
pub enum ReadOutcome {
    Found(Vec<u8>),
    Missing,
    Unreadable,
}

/// One response, ready to be written to the connection.
pub struct Response {
    pub status: Status,
    pub body: Vec<u8>,
    pub content_type: String,
    pub cache_max_age_secs: u64,
}

/// The extension of a file name: the characters after the last `.`, or
/// nothing when no `.` occurs.
pub open spec fn spec_ext_opt(name: Seq<char>) -> Option<Seq<char>>
    decreases name.len(),
{
    if name.len() == 0 {
        None
    } else if name.last() == '.' {
        Some(Seq::empty())
    } else {
        match spec_ext_opt(name.drop_last()) {
            None => None,
            Some(e) => Some(e.push(name.last())),
        }
    }
}

/// The extension used for content-type inference: empty when the name
/// has none.
pub open spec fn spec_extension(name: Seq<char>) -> Seq<char> {
    match spec_ext_opt(name) {
        None => Seq::empty(),
        Some(e) => e,
    }
}

proof fn lemma_ext_none(name: Seq<char>)
    requires
        forall|i: int| 0 <= i < name.len() ==> name[i] != '.',
    ensures
        spec_ext_opt(name) is None,
    decreases name.len(),
{
    if name.len() > 0 {
        lemma_ext_none(name.drop_last());
    }
}

proof fn lemma_ext_at(name: Seq<char>, d: int)
    requires
        0 <= d < name.len(),
        name[d] == '.',
        forall|i: int| d < i < name.len() ==> name[i] != '.',
    ensures
        spec_ext_opt(name) == Some(name.subrange(d + 1, name.len() as int)),
    decreases name.len(),
{
    if d == name.len() - 1 {
        assert(name.subrange(d + 1, name.len() as int) =~= Seq::<char>::empty());
    } else {
        lemma_ext_at(name.drop_last(), d);
        assert(name.drop_last().subrange(d + 1, name.len() - 1).push(name.last()) =~= name.subrange(
            d + 1,
            name.len() as int,
        ));
    }
}

/// The extension of a file name, as content-type inference uses it.
pub fn extension_of(name: &str) -> (ext: String)
    ensures
        ext@ == spec_extension(name@),
{
    let n = name.unicode_len();
    let mut k: usize = n;
    while k > 0
        invariant
            k <= n,
            n == name@.len(),
            forall|i: int| k <= i < n ==> name@[i] != '.',
        decreases k,
    {
        let c = name.get_char(k - 1);
        if c == '.' {
            let ext = name.substring_char(k, n);
            proof {
                lemma_ext_at(name@, k - 1);
            }
            return String::from_str(ext);
        }
        k = k - 1;
    }
    proof {
        lemma_ext_none(name@);
    }
    String::new()
}

/// The content type inferred for an extension; unknown extensions fall
/// back to a generic byte-stream type.
pub open spec fn spec_mime(ext: Seq<char>) -> Seq<char> {
    if ext == "html"@ {
        "text/html"@
    } else if ext == "css"@ {
        "text/css"@
    } else if ext == "js"@ {
        "application/javascript"@
    } else if ext == "png"@ {
        "image/png"@
    } else if ext == "gif"@ {
        "image/gif"@
    } else if ext == "ico"@ {
        "image/x-icon"@
    } else if ext == "txt"@ {
        "text/plain"@
    } else if ext == "json"@ {
        "application/json"@
    } else {
        "application/octet-stream"@
    }
}

/// Map an extension to its content type.
pub fn mime_of(ext: &String) -> (ct: String)
    ensures
        ct@ == spec_mime(ext@),
{
    if text_is(ext, "html") {
        String::from_str("text/html")
    } else if text_is(ext, "css") {
        String::from_str("text/css")
    } else if text_is(ext, "js") {
        String::from_str("application/javascript")
    } else if text_is(ext, "png") {
        String::from_str("image/png")
    } else if text_is(ext, "gif") {
        String::from_str("image/gif")
    } else if text_is(ext, "ico") {
        String::from_str("image/x-icon")
    } else if text_is(ext, "txt") {
        String::from_str("text/plain")
    } else if text_is(ext, "json") {
        String::from_str("application/json")
    } else {
        String::from_str("application/octet-stream")
    }
}

/// The content type of a planned file: inferred from the last path
/// segment's extension; a file with no name gets the generic type.
pub open spec fn spec_content_type(file: Seq<Seq<char>>) -> Seq<char> {
    if file.len() == 0 {
        spec_mime(Seq::empty())
    } else {
        spec_mime(spec_extension(file.last()))
    }
}

/// Infer the content type for a planned file path.
pub fn content_type_for(file: &Vec<String>) -> (ct: String)
    ensures
        ct@ == spec_content_type(file.deep_view()),
{
    if file.len() == 0 {
        let empty = String::new();
        mime_of(&empty)
    } else {
        let name = &file[file.len() - 1];
        proof {
            assert(file.deep_view().last() == name@);
        }
        let ext = extension_of(name.as_str());
        mime_of(&ext)
    }
}

/// Build the response for a plan and the outcome of its disk read.
///
/// A request that resolved to no file, or whose planned file is
/// missing, is answered not-found; a file that exists but cannot be
/// read is answered as an internal error; a found file is answered
/// successfully with its bytes exactly, its inferred content type, and
/// the configured cache duration. Only a found file carries a body.
pub fn finish_request(plan: &Plan, outcome: ReadOutcome, cache_secs: u64) -> (r: Response)
    ensures
        match plan@ {
            PlanV::NotFound => r.status == Status::NotFound && r.body@ == Seq::<u8>::empty(),
            PlanV::Read { file } => match outcome {
                ReadOutcome::Found(bytes) => r.status == Status::Okay && r.body@ == bytes@
                    && r.content_type@ == spec_content_type(file) && r.cache_max_age_secs
                    == cache_secs,
                ReadOutcome::Missing => r.status == Status::NotFound && r.body@ == Seq::<
                    u8,
                >::empty(),
                ReadOutcome::Unreadable => r.status == Status::InternalError && r.body@ == Seq::<
                    u8,
                >::empty(),
            },
        },
{
    match plan {
        Plan::NotFound => Response {
            status: Status::NotFound,
            body: Vec::new(),
            content_type: String::new(),
            cache_max_age_secs: cache_secs,
        },
        Plan::Read { file } => match outcome {
            ReadOutcome::Found(bytes) => {
                let content_type = content_type_for(file);
                Response { status: Status::Okay, body: bytes, content_type, cache_max_age_secs: cache_secs }
            },
            ReadOutcome::Missing => Response {
                status: Status::NotFound,
                body: Vec::new(),
                content_type: String::new(),
                cache_max_age_secs: cache_secs,
            },
            ReadOutcome::Unreadable => Response {
                status: Status::InternalError,
                body: Vec::new(),
                content_type: String::new(),
                cache_max_age_secs: cache_secs,
            },
        },
    }
}

} // verus!
