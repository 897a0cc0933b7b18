//! The flow of one moderation request: the store is asked first, and a post
//! is only moderated when no verdict for it is stored yet.

use vstd::prelude::*;
use crate::mongo_db_interface::Post as Verdict;

verus! {

/// The answer of the store to a lookup by post id.
#[derive(Debug)]
pub enum Lookup {
    /// A verdict for the post is stored.
    Found(Verdict),
    /// No document has this id: the post was never moderated.
    NotFound,
    /// The store failed.
    Failed,
}

/// Why a request fails.
#[derive(Debug, Clone, Copy, PartialEq, Eq)]
pub enum Failure {
    /// The post could not be fetched from the gallery API.
    Upstream,
    /// The moderation of the post failed.
    Pipeline,
    /// The store lookup failed.
    Lookup,
}

/// The number that tells the failures apart in a reply.
pub open spec fn failure_code(f: Failure) -> u8 {
    match f {
        Failure::Upstream => 2,
        Failure::Pipeline => 3,
        Failure::Lookup => 4,
    }
}

impl Failure {
    pub fn code(&self) -> (r: u8)
        ensures
            r == failure_code(*self),
    {
        match self {
            Failure::Upstream => 2,
            Failure::Pipeline => 3,
            Failure::Lookup => 4,
        }
    }

    /// The plain-text body of the reply.
    pub fn message(&self) -> (r: String)
        ensures
            r@ == "Database Error("@ + seq![('0' as u8 + failure_code(*self)) as char] + ")"@,
    {
        let digit = match self {
            Failure::Upstream => "2",
            Failure::Pipeline => "3",
            Failure::Lookup => "4",
        };
        proof {
            reveal_strlit("2");
            reveal_strlit("3");
            reveal_strlit("4");
        }
        let mut out = "Database Error(".to_owned();
        out.append(digit);
        out.append(")");
        assert(digit@ =~= seq![('0' as u8 + failure_code(*self)) as char]);
        out
    }
}

/// The reply to a request.
#[derive(Debug)]
pub enum Reply {
    /// The verdict, stored or new.
    Verdict(Verdict),
    /// The request failed.
    Error(Failure),
}

impl Reply {
    /// The HTTP status of the reply.
    pub fn status(&self) -> (r: u16)
        ensures
            self is Verdict ==> r == 200,
            self is Error ==> r == 500,
    {
        match self {
            Reply::Verdict(_) => 200,
            Reply::Error(_) => 500,
        }
    }
}

/// What to do after the lookup.
#[derive(Debug)]
pub enum GateStep {
    /// Answer at once.
    Respond(Reply),
    /// Fetch the post and moderate it.
    Compute,
}

/// A stored verdict is returned unchanged; a missing one is computed; a
/// failed lookup fails the request.
pub open spec fn gate_step(lookup: Lookup) -> GateStep {
    match lookup {
        Lookup::Found(v) => GateStep::Respond(Reply::Verdict(v)),
        Lookup::NotFound => GateStep::Compute,
        Lookup::Failed => GateStep::Respond(Reply::Error(Failure::Lookup)),
    }
}

/// The step after the store answered `lookup`.
pub fn on_lookup(lookup: Lookup) -> (r: GateStep)
    ensures
        r == gate_step(lookup),
{
    match lookup {
        Lookup::Found(v) => GateStep::Respond(Reply::Verdict(v)),
        Lookup::NotFound => GateStep::Compute,
        Lookup::Failed => GateStep::Respond(Reply::Error(Failure::Lookup)),
    }
}

/// How the computation of a missing verdict ended.
#[derive(Debug)]
pub enum Computed {
    /// The post was moderated; the verdict is returned even when storing it
    /// failed.
    Done(Verdict),
    /// The post could not be fetched from the gallery API.
    UpstreamFailed,
    /// The moderation of the post failed.
    PipelineFailed,
}

/// The reply once the verdict was computed.
pub fn on_computed(c: Computed) -> (r: Reply)
    ensures
        c matches Computed::Done(v) ==> r == Reply::Verdict(v),
        c is UpstreamFailed ==> r == Reply::Error(Failure::Upstream),
        c is PipelineFailed ==> r == Reply::Error(Failure::Pipeline),
{
    match c {
        Computed::Done(v) => Reply::Verdict(v),
        Computed::UpstreamFailed => Reply::Error(Failure::Upstream),
        Computed::PipelineFailed => Reply::Error(Failure::Pipeline),
    }
}

/// What a store holding `stored` (verdicts keyed by post id) answers to a
/// lookup of `id`.
pub open spec fn lookup_in(stored: Map<Seq<char>, Verdict>, id: Seq<char>) -> Lookup {
    if stored.contains_key(id) {
        Lookup::Found(stored[id])
    } else {
        Lookup::NotFound
    }
}

/// A post is moderated at most once: the first request for an id the store
/// does not hold computes the verdict; once that verdict is stored under the
/// post's id, a second request for the same id is answered with it, without
/// any computation.
pub proof fn lemma_second_request_uses_store(
    stored: Map<Seq<char>, Verdict>,
    id: Seq<char>,
    verdict: Verdict,
)
    requires
        !stored.contains_key(id),
        verdict.id@ == id,
    ensures
        gate_step(lookup_in(stored, id)) is Compute,
        gate_step(lookup_in(stored.insert(verdict.id@, verdict), id)) == GateStep::Respond(
            Reply::Verdict(verdict),
        ),
{
}

} // verus!
