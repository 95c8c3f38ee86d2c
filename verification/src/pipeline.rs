//! Jobs and outcomes: every discovered file yields exactly one outcome,
//! failures are isolated per item, and nothing is dropped or duplicated.

use vstd::prelude::*;
use crate::config::Config;
use crate::image_ops::JobError;
use crate::image_ops::Thumb;
use crate::image_ops::spec_decodes_positive;
use crate::image_ops::spec_thumb_result;
use crate::image_ops::spec_transform_contract;
use crate::image_ops::transform_bytes;
use crate::paths::subrange_vec;

verus! {

/// One unit of work: a discovered file's path and its raw bytes.
pub struct Job {
    /// The source file's path.
    pub path: Vec<u8>,
    /// The source file's content.
    pub data: Vec<u8>,
}

/// The one result a job yields: its path, with the thumbnail or the failure.
pub struct Outcome {
    /// The source file's path, carried through unchanged.
    pub path: Vec<u8>,
    /// The thumbnail, or why this one file failed.
    pub result: Result<Thumb, JobError>,
}

/// Runs the transform on one job; the failure of this job is contained in
/// its own outcome.
pub fn process_job(path: &Vec<u8>, data: &Vec<u8>, cfg: &Config) -> (o: Outcome)
    requires
        cfg.wf(),
    ensures
        o.path@ == path@,
        spec_transform_contract(o.result, data@, *cfg),
{
    let owned_path = subrange_vec(path, 0, path.len());
    let result = transform_bytes(data, cfg);
    Outcome { path: owned_path, result: result }
}

/// Runs the transform once per job: exactly one outcome per job, in order,
/// each carrying its job's path, no job skipped or repeated, and no job's
/// failure affecting any other's outcome.
pub fn run_batch(jobs: &Vec<Job>, cfg: &Config) -> (outcomes: Vec<Outcome>)
    requires
        cfg.wf(),
    ensures
        outcomes@.len() == jobs@.len(),
        forall|i: int|
            0 <= i < jobs@.len() ==> {
                &&& (#[trigger] outcomes@[i]).path@ == jobs@[i].path@
                &&& spec_transform_contract(outcomes@[i].result, jobs@[i].data@, *cfg)
            },
{
    let mut outcomes: Vec<Outcome> = Vec::new();
    let mut i: usize = 0;
    while i < jobs.len()
        invariant
            i <= jobs@.len(),
            outcomes@.len() == i,
            cfg.wf(),
            forall|j: int|
                0 <= j < i ==> {
                    &&& (#[trigger] outcomes@[j]).path@ == jobs@[j].path@
                    &&& spec_transform_contract(outcomes@[j].result, jobs@[j].data@, *cfg)
                },
        decreases jobs@.len() - i,
    {
        let o = process_job(&jobs[i].path, &jobs[i].data, cfg);
        outcomes.push(o);
        i = i + 1;
    }
    outcomes
}

/// A sequence of outcomes without failures filters down to nothing.
proof fn lemma_no_failure_count(outcomes: Seq<Outcome>)
    requires
        forall|i: int| 0 <= i < outcomes.len() ==> !((#[trigger] outcomes[i]).result is Err),
    ensures
        outcomes.filter(|o: Outcome| o.result is Err).len() == 0,
    decreases outcomes.len(),
{
    reveal(Seq::filter);
    if outcomes.len() > 0 {
        lemma_no_failure_count(outcomes.drop_last());
    }
}

/// A sequence of outcomes that fails at exactly one index filters down to
/// exactly one failure.
proof fn lemma_single_failure_count(outcomes: Seq<Outcome>, k: int)
    requires
        0 <= k < outcomes.len(),
        forall|i: int|
            0 <= i < outcomes.len() ==> ((#[trigger] outcomes[i]).result is Err <==> i == k),
    ensures
        outcomes.filter(|o: Outcome| o.result is Err).len() == 1,
    decreases outcomes.len(),
{
    reveal(Seq::filter);
    if k == outcomes.len() - 1 {
        lemma_no_failure_count(outcomes.drop_last());
    } else {
        lemma_single_failure_count(outcomes.drop_last(), k);
    }
}

/// Isolation: when exactly one job among many holds undecodable (or
/// zero-dimensioned) bytes and every other job's source decodes and
/// encodes, a batch satisfying the per-job contract fails exactly once — at
/// the corrupt job, with a decode error — and every other job carries its
/// thumbnail.
pub proof fn lemma_isolation(outcomes: Seq<Outcome>, jobs: Seq<Job>, cfg: Config, k: int)
    requires
        outcomes.len() == jobs.len(),
        forall|i: int|
            0 <= i < jobs.len() ==> spec_transform_contract(
                (#[trigger] outcomes[i]).result,
                jobs[i].data@,
                cfg,
            ),
        0 <= k < jobs.len(),
        !spec_decodes_positive(jobs[k].data@),
        forall|i: int|
            0 <= i < jobs.len() && i != k ==> spec_thumb_result((#[trigger] jobs[i]).data@, cfg)
                is Some,
    ensures
        outcomes[k].result is Err,
        outcomes[k].result->Err_0 is Decode,
        forall|i: int| 0 <= i < jobs.len() && i != k ==> (#[trigger] outcomes[i]).result is Ok,
        outcomes.filter(|o: Outcome| o.result is Err).len() == 1,
{
    assert forall|i: int| 0 <= i < outcomes.len() implies ((#[trigger] outcomes[i]).result is Err
        <==> i == k) by {
        assert(spec_transform_contract(outcomes[i].result, jobs[i].data@, cfg));
    }
    lemma_single_failure_count(outcomes, k);
}

/// How many outcomes of the run failed.
pub fn count_failures(outcomes: &Vec<Outcome>) -> (n: usize)
    ensures
        n == outcomes@.filter(|o: Outcome| o.result is Err).len(),
        n <= outcomes@.len(),
{
    let mut n: usize = 0;
    let mut i: usize = 0;
    while i < outcomes.len()
        invariant
            i <= outcomes@.len(),
            n == outcomes@.take(i as int).filter(|o: Outcome| o.result is Err).len(),
            n <= i,
        decreases outcomes@.len() - i,
    {
        let ghost prefix = outcomes@.take(i as int);
        let ghost next = outcomes@.take(i + 1);
        proof {
            assert(next.drop_last() =~= prefix);
            assert(next.last() == outcomes@[i as int]);
            reveal(Seq::filter);
            prefix.lemma_filter_len(|o: Outcome| o.result is Err);
        }
        if outcomes[i].result.is_err() {
            n = n + 1;
        }
        proof {
            reveal(Seq::filter);
            assert(n == next.filter(|o: Outcome| o.result is Err).len());
        }
        i = i + 1;
    }
    proof {
        assert(outcomes@.take(outcomes@.len() as int) =~= outcomes@);
    }
    n
}

} // verus!
