use vstd::prelude::*;
use crate::codec::{JobEnvelope, EnvelopeModel, spec_decode};
use crate::priority::Priority;

verus! {

/// Pause after a pass that delivered a job, in milliseconds: yield to the
/// scheduler, then start again at High.
pub const BUSY_SLEEP_MS: u64 = 10;

/// Pause after a pass in which no priority yielded a message, in
/// milliseconds.
pub const IDLE_SLEEP_MS: u64 = 100;

/// Where one fetch pass stands.
#[derive(Debug, Clone, Copy, PartialEq, Eq, Structural)]
pub struct FetchState {
    /// Rank of the next priority to pull: 0 high, 1 medium, 2 low; 3 means
    /// the pass is over.
    pub next_rank: u64,
    /// Whether this pass delivered a job.
    pub found: bool,
}

/// What the fetch loop does after looking at one pull result.
#[derive(Debug, Clone)]
pub enum FetchAction {
    /// Hand this decoded job to the worker; the pass is over.
    Emit {
        /// The decoded job envelope.
        envelope: JobEnvelope,
    },
    /// Terminate the malformed message so it is never redelivered, and go
    /// on with the next priority.
    TermMalformed,
    /// The pull came back empty: go on with the next priority.
    Advance,
}

/// The step function of the fetch machine, on the mathematical level:
/// given the rank being pulled and the bytes the broker returned, the next
/// rank, whether a job was found, and the decoded job if one was emitted.
pub open spec fn spec_fetch_step(rank: int, pulled: Option<Seq<u8>>) -> (
    int,
    bool,
    Option<EnvelopeModel>,
) {
    match pulled {
        Option::None => (rank + 1, false, Option::None),
        Option::Some(b) => match spec_decode(b) {
            Option::Some(m) => (3, true, Option::Some(m)),
            Option::None => (rank + 1, false, Option::None),
        },
    }
}

/// The bytes of a pull result.
pub open spec fn pulled_view(p: Option<Vec<u8>>) -> Option<Seq<u8>> {
    match p {
        Option::Some(v) => Option::Some(v@),
        Option::None => Option::None,
    }
}

/// Start a pass: pull High first, nothing found yet.
pub fn pass_start() -> (st: FetchState)
    ensures
        st.next_rank == 0,
        !st.found,
{
    FetchState { next_rank: 0, found: false }
}

/// The priority the pass pulls next.
pub fn current_priority(st: &FetchState) -> (p: Priority)
    requires
        st.next_rank <= 2,
    ensures
        p.rank() == st.next_rank,
{
    if st.next_rank == 0 {
        Priority::High
    } else if st.next_rank == 1 {
        Priority::Medium
    } else {
        Priority::Low
    }
}

/// Advance the pass by one pull result: a message that decodes is emitted
/// and ends the pass; a malformed message is terminated; an empty pull
/// falls through to the next priority.
pub fn fetch_step(st: FetchState, pulled: Option<Vec<u8>>) -> (r: (FetchState, FetchAction))
    requires
        st.next_rank <= 2,
    ensures
        r.0.next_rank == spec_fetch_step(st.next_rank as int, pulled_view(pulled)).0,
        r.0.found == spec_fetch_step(st.next_rank as int, pulled_view(pulled)).1,
        r.1 matches FetchAction::Emit { envelope } ==> spec_fetch_step(
            st.next_rank as int,
            pulled_view(pulled),
        ).2 == Option::Some(envelope@),
        (spec_fetch_step(st.next_rank as int, pulled_view(pulled)).2 is Some) <==> (
        r.1 matches FetchAction::Emit { .. }),
        (r.1 is TermMalformed) <==> (pulled_view(pulled) matches Option::Some(b)
            && spec_decode(b) is None),
        (r.1 is Advance) <==> (pulled is None),
{
    match pulled {
        Option::None => (
            FetchState { next_rank: st.next_rank + 1, found: false },
            FetchAction::Advance,
        ),
        Option::Some(bytes) => match JobEnvelope::decode(&bytes) {
            Option::Some(envelope) => (
                FetchState { next_rank: 3, found: true },
                FetchAction::Emit { envelope },
            ),
            Option::None => (
                FetchState { next_rank: st.next_rank + 1, found: false },
                FetchAction::TermMalformed,
            ),
        },
    }
}

/// How long to pause once a pass is over, before the next pass.
pub fn pass_end_sleep(st: &FetchState) -> (ms: u64)
    requires
        st.next_rank >= 3,
    ensures
        ms == if st.found {
            BUSY_SLEEP_MS
        } else {
            IDLE_SLEEP_MS
        },
{
    if st.found {
        BUSY_SLEEP_MS
    } else {
        IDLE_SLEEP_MS
    }
}

/// Whether this pull result carries a message that decodes to a job.
pub open spec fn pull_decodes(p: Option<Seq<u8>>) -> bool {
    match p {
        Option::Some(b) => spec_decode(b) is Some,
        Option::None => false,
    }
}

/// The job a decodable pull result carries.
pub open spec fn pull_decoded(p: Option<Seq<u8>>) -> EnvelopeModel
    recommends
        pull_decodes(p),
{
    match p {
        Option::Some(b) => match spec_decode(b) {
            Option::Some(m) => m,
            Option::None => arbitrary(),
        },
        Option::None => arbitrary(),
    }
}

/// One whole pass, given the pull results the broker would hand out at the
/// three priorities in fetch order: the emitted job, if any, with the rank
/// it came from.
pub open spec fn spec_pass(pulls: Seq<Option<Seq<u8>>>) -> Option<(int, EnvelopeModel)>
    recommends
        pulls.len() == 3,
{
    if pull_decodes(pulls[0]) {
        Option::Some((0int, pull_decoded(pulls[0])))
    } else if pull_decodes(pulls[1]) {
        Option::Some((1int, pull_decoded(pulls[1])))
    } else if pull_decodes(pulls[2]) {
        Option::Some((2int, pull_decoded(pulls[2])))
    } else {
        Option::None
    }
}

/// Chaining the step function from the given rank to the end of the pass.
pub open spec fn spec_run_from(rank: int, pulls: Seq<Option<Seq<u8>>>) -> Option<(
    int,
    EnvelopeModel,
)>
    recommends
        pulls.len() == 3,
        0 <= rank <= 3,
    decreases 3 - rank,
{
    if rank < 0 || rank >= 3 {
        Option::None
    } else {
        match spec_fetch_step(rank, pulls[rank]).2 {
            Option::Some(m) => Option::Some((rank, m)),
            Option::None => spec_run_from(rank + 1, pulls),
        }
    }
}

/// Running the machine over a pass is exactly the pass function.
pub proof fn lemma_run_is_pass(pulls: Seq<Option<Seq<u8>>>)
    requires
        pulls.len() == 3,
    ensures
        spec_run_from(0, pulls) == spec_pass(pulls),
{
    assert(spec_run_from(3, pulls) is None);
    assert(spec_run_from(2, pulls) == (if pull_decodes(pulls[2]) {
        Option::Some((2int, pull_decoded(pulls[2])))
    } else {
        Option::<(int, EnvelopeModel)>::None
    }));
    assert(spec_run_from(1, pulls) == (if pull_decodes(pulls[1]) {
        Option::Some((1int, pull_decoded(pulls[1])))
    } else {
        spec_run_from(2, pulls)
    }));
}

/// Strict priority: if a decodable message is available at some priority
/// at the moment of a pass, the pass emits a job, from a priority at least
/// as high.
pub proof fn lemma_pass_strict_priority(pulls: Seq<Option<Seq<u8>>>, h: int)
    requires
        pulls.len() == 3,
        0 <= h <= 2,
        pull_decodes(pulls[h]),
    ensures
        spec_pass(pulls) is Some,
        spec_pass(pulls) matches Some(km) && km.0 <= h,
        spec_run_from(0, pulls) == spec_pass(pulls),
{
    lemma_run_is_pass(pulls);
}

} // verus!
