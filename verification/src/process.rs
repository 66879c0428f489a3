//! The single pass over a history.

use vstd::prelude::*;
use crate::collectors::{
    all_written, create_stat_collectors, empty_messages, empty_summary, model_run, model_step,
    model_written, models_of, CollectorModel, StatCollector,
};
use crate::commit::GitCommit;
use crate::viewmodel::{is_empty_report, GitStatsViewModel};

verus! {

/// Hands one commit to every collector, in their order.
pub fn process_commit(commit: &GitCommit, collectors: &mut Vec<StatCollector>)
    requires
        commit.wf(),
        forall|i: int| 0 <= i < old(collectors)@.len() ==> (#[trigger] old(collectors)@[i]).wf(),
    ensures
        final(collectors)@.len() == old(collectors)@.len(),
        forall|i: int|
            0 <= i < final(collectors)@.len() ==> (#[trigger] final(collectors)@[i]).wf()
                && final(collectors)@[i]@ == model_step(old(collectors)@[i]@, *commit),
{
    let mut i: usize = 0;
    while i < collectors.len()
        invariant
            commit.wf(),
            i <= collectors@.len(),
            collectors@.len() == old(collectors)@.len(),
            forall|j: int| 0 <= j < collectors@.len() ==> (#[trigger] collectors@[j]).wf(),
            forall|j: int|
                0 <= j < i ==> (#[trigger] collectors@[j])@ == model_step(
                    old(collectors)@[j]@,
                    *commit,
                ),
            forall|j: int| i <= j < collectors@.len() ==> collectors@[j] == old(collectors)@[j],
        decreases collectors@.len() - i,
    {
        collectors[i].process(commit);
        i += 1;
    }
}

/// Hands every commit of a history, in its order, to every collector.
pub fn process_commits(commits: &Vec<GitCommit>, collectors: &mut Vec<StatCollector>)
    requires
        forall|k: int| 0 <= k < commits@.len() ==> (#[trigger] commits@[k]).wf(),
        forall|i: int| 0 <= i < old(collectors)@.len() ==> (#[trigger] old(collectors)@[i]).wf(),
    ensures
        final(collectors)@.len() == old(collectors)@.len(),
        forall|i: int|
            0 <= i < final(collectors)@.len() ==> (#[trigger] final(collectors)@[i]).wf()
                && final(collectors)@[i]@ == model_run(old(collectors)@[i]@, commits@),
{
    let mut k: usize = 0;
    while k < commits.len()
        invariant
            k <= commits@.len(),
            forall|n: int| 0 <= n < commits@.len() ==> (#[trigger] commits@[n]).wf(),
            collectors@.len() == old(collectors)@.len(),
            forall|i: int|
                0 <= i < collectors@.len() ==> (#[trigger] collectors@[i]).wf() && collectors@[i]@
                    == model_run(old(collectors)@[i]@, commits@.take(k as int)),
        decreases commits@.len() - k,
    {
        proof {
            assert(commits@.take(k + 1).drop_last() =~= commits@.take(k as int));
        }
        process_commit(&commits[k], collectors);
        k += 1;
    }
    proof {
        assert(commits@.take(k as int) =~= commits@);
    }
}

/// Lets every collector write its part of the report, in their order.
pub fn update_all(collectors: &Vec<StatCollector>, viewmodel: &mut GitStatsViewModel)
    requires
        forall|i: int| 0 <= i < collectors@.len() ==> (#[trigger] collectors@[i]).wf(),
    ensures
        all_written(models_of(collectors@), *old(viewmodel), *final(viewmodel)),
{
    let mut i: usize = 0;
    while i < collectors.len()
        invariant
            i <= collectors@.len(),
            forall|j: int| 0 <= j < collectors@.len() ==> (#[trigger] collectors@[j]).wf(),
            all_written(models_of(collectors@.take(i as int)), *old(viewmodel), *viewmodel),
        decreases collectors@.len() - i,
    {
        let ghost mid = *viewmodel;
        collectors[i].update(viewmodel);
        proof {
            let done = models_of(collectors@.take(i + 1));
            assert(done.drop_last() =~= models_of(collectors@.take(i as int)));
            assert(done.last() == collectors@[i as int]@);
            assert(all_written(done.drop_last(), *old(viewmodel), mid) && model_written(
                done.last(),
                mid,
                *viewmodel,
            ));
        }
        i += 1;
    }
    proof {
        assert(collectors@.take(i as int) =~= collectors@);
    }
}

/// The report of a history: fresh collectors take in every commit in its
/// order and then write the report, each in its turn.
pub fn collect(commits: &Vec<GitCommit>) -> (report: GitStatsViewModel)
    requires
        forall|k: int| 0 <= k < commits@.len() ==> (#[trigger] commits@[k]).wf(),
    ensures
        exists|start: GitStatsViewModel|
            #[trigger] is_empty_report(start) && all_written(
                fresh_models_after(commits@),
                start,
                report,
            ),
{
    let mut collectors = create_stat_collectors();
    process_commits(commits, &mut collectors);
    let mut report = GitStatsViewModel::default();
    let ghost start = report;
    proof {
        assert(models_of(collectors@) =~= fresh_models_after(commits@));
    }
    update_all(&collectors, &mut report);
    proof {
        assert(is_empty_report(start) && all_written(
            fresh_models_after(commits@),
            start,
            report,
        ));
    }
    report
}

/// The states of the collectors of a report after a pass over a history.
pub open spec fn fresh_models_after(commits: Seq<GitCommit>) -> Seq<CollectorModel> {
    seq![
        model_run(CollectorModel::Summary(empty_summary()), commits),
        model_run(CollectorModel::CommitsByDay(Map::empty()), commits),
        model_run(CollectorModel::LinesByDay(Map::empty()), commits),
        model_run(CollectorModel::Messages(empty_messages()), commits),
        model_run(CollectorModel::FilesByDay(Map::empty()), commits),
        model_run(CollectorModel::PunchCard(Map::empty()), commits),
    ]
}

} // verus!
