//! One request's cycle around the disk read: begin (clock reading,
//! start log line, resolution) and complete (response, clock reading,
//! end log line). Each cycle yields exactly one start line and then
//! exactly one end line.
use vstd::prelude::*;
use crate::mounts::{MountTable, Plan, spec_plan};
use crate::paths::{spec_join, spec_split, split_segments};
use crate::respond::{ReadOutcome, Response, Status, finish_request, spec_content_type};
use crate::timing::{
    RequestContext, after_hook, before_hook, spec_elapsed, spec_end_line, spec_start_line,
};

verus! {

/// A request under way: its timing context, its resolution, and the
/// start log line to write.
pub struct Began {
    pub ctx: RequestContext,
    pub plan: Plan,
    pub start_line: String,
}

/// A request completed: the response to send and the end log line to
/// write, with the counter reading the line was computed from.
pub struct Completed {
    pub response: Response,
    pub end_ns: u64,
    pub end_line: String,
}

/// Begin a request: read the counter, build the start log line for the
/// raw URL path, and resolve the path against the mount table.
pub fn begin_request(table: &MountTable, raw_path: &str) -> (r: Began)
    ensures
        r.plan@ == spec_plan(*table, spec_split(raw_path@)),
        r.start_line@ == spec_start_line(spec_join(spec_split(raw_path@))),
{
    let segs = split_segments(raw_path);
    let (ctx, line) = before_hook(&segs);
    let plan = crate::mounts::plan_request(table, &segs);
    Began { ctx, plan, start_line: line }
}

/// Complete a request: build the response for the read outcome, read
/// the counter again, and build the end log line from the elapsed time.
pub fn complete_request(table: &MountTable, began: Began, outcome: ReadOutcome) -> (r: Completed)
    ensures
        r.end_line@ == spec_end_line(spec_elapsed(began.ctx.start_ns, r.end_ns) as nat),
        match began.plan@ {
            crate::mounts::PlanV::NotFound => r.response.status == Status::NotFound
                && r.response.body@ == Seq::<u8>::empty(),
            crate::mounts::PlanV::Read { file } => match outcome {
                ReadOutcome::Found(bytes) => r.response.status == Status::Okay && r.response.body@
                    == bytes@ && r.response.content_type@ == spec_content_type(file)
                    && r.response.cache_max_age_secs == table.cache_secs,
                ReadOutcome::Missing => r.response.status == Status::NotFound && r.response.body@
                    == Seq::<u8>::empty(),
                ReadOutcome::Unreadable => r.response.status == Status::InternalError
                    && r.response.body@ == Seq::<u8>::empty(),
            },
        },
{
    let response = finish_request(&began.plan, outcome, table.cache_secs);
    let (end_ns, end_line) = after_hook(&began.ctx);
    Completed { response, end_ns, end_line }
}

} // verus!
