//! What holds of the collectors over a whole history.

use vstd::prelude::*;
use crate::collectors::{
    commits_by_day_step, empty_messages, empty_summary, files_by_day_step, is_commit_rows,
    is_file_rows,
    is_line_rows, is_punch_rows, lines_by_day_step, model_run, punch_step, summary_step,
    CollectorModel, MessageStatsCollector,
};
use crate::commit::{
    capped, lemma_count_kind_bounds, lemma_line_feeds_bounds, lemma_sum_added_nonneg,
    lemma_sum_deleted_nonneg, FileOperationKind, GitCommit,
};
use crate::stats::{FileStats, LineStats, PunchStats, SummaryModel};
use crate::tally::{
    lemma_capped_add, lemma_capped_cells_sum, lemma_sum_nonneg, lemma_sum_remove,
    lemma_tally_nonneg, none_negative, seq_sum, tally_of,
};
use vstd::seq_lib::{to_multiset_build, to_multiset_contains, to_multiset_len, to_multiset_remove};
use crate::viewmodel::{FilesValue, KeyValue, LinesValue, PunchesValue};

verus! {

/// The day under which each commit is counted.
pub open spec fn day_keys(commits: Seq<GitCommit>) -> Seq<int> {
    Seq::new(commits.len(), |i: int| (commits[i].date.spec_day() as i32) as int)
}

/// The cell of the punch card under which each commit is counted.
pub open spec fn punch_keys(commits: Seq<GitCommit>) -> Seq<int> {
    Seq::new(commits.len(), |i: int| (commits[i].spec_punch_key() as i32) as int)
}

/// One for each commit.
pub open spec fn ones(commits: Seq<GitCommit>) -> Seq<int> {
    Seq::new(commits.len(), |i: int| 1int)
}

/// The lines that each commit added.
pub open spec fn added_lines(commits: Seq<GitCommit>) -> Seq<int> {
    Seq::new(commits.len(), |i: int| commits[i].spec_lines_added())
}

/// The lines that each commit deleted.
pub open spec fn deleted_lines(commits: Seq<GitCommit>) -> Seq<int> {
    Seq::new(commits.len(), |i: int| commits[i].spec_lines_deleted())
}

/// The summary of a history, from a fresh collector.
pub open spec fn summary_of(commits: Seq<GitCommit>) -> SummaryModel
    decreases commits.len(),
{
    if commits.len() == 0 {
        empty_summary()
    } else {
        summary_step(summary_of(commits.drop_last()), commits.last())
    }
}

/// The commits per day of a history, from a fresh collector.
pub open spec fn commits_by_day_of(commits: Seq<GitCommit>) -> Map<i32, u64>
    decreases commits.len(),
{
    if commits.len() == 0 {
        Map::empty()
    } else {
        commits_by_day_step(commits_by_day_of(commits.drop_last()), commits.last())
    }
}

/// The lines per day of a history, from a fresh collector.
pub open spec fn lines_by_day_of(commits: Seq<GitCommit>) -> Map<i32, LineStats>
    decreases commits.len(),
{
    if commits.len() == 0 {
        Map::empty()
    } else {
        lines_by_day_step(lines_by_day_of(commits.drop_last()), commits.last())
    }
}

/// The punch card of a history, from a fresh collector.
pub open spec fn punch_card_of(commits: Seq<GitCommit>) -> Map<i32, PunchStats>
    decreases commits.len(),
{
    if commits.len() == 0 {
        Map::empty()
    } else {
        punch_step(punch_card_of(commits.drop_last()), commits.last())
    }
}

/// A pass over a history leaves each fresh collector with the summary, the
/// commits per day, the lines per day and the punch card of that history.
pub proof fn law_run_of_fresh_collectors(commits: Seq<GitCommit>)
    ensures
        model_run(CollectorModel::Summary(empty_summary()), commits) == CollectorModel::Summary(
            summary_of(commits),
        ),
        model_run(CollectorModel::CommitsByDay(Map::empty()), commits)
            == CollectorModel::CommitsByDay(commits_by_day_of(commits)),
        model_run(CollectorModel::LinesByDay(Map::empty()), commits) == CollectorModel::LinesByDay(
            lines_by_day_of(commits),
        ),
        model_run(CollectorModel::PunchCard(Map::empty()), commits) == CollectorModel::PunchCard(
            punch_card_of(commits),
        ),
    decreases commits.len(),
{
    if commits.len() > 0 {
        law_run_of_fresh_collectors(commits.drop_last());
    }
}

/// No contribution is negative, and the lists of a history without its last
/// commit are the lists without their last number.
proof fn lemma_contributions(commits: Seq<GitCommit>)
    ensures
        none_negative(ones(commits)),
        none_negative(added_lines(commits)),
        none_negative(deleted_lines(commits)),
        seq_sum(ones(commits)) == commits.len(),
        commits.len() > 0 ==> {
            &&& ones(commits).drop_last() == ones(commits.drop_last())
            &&& added_lines(commits).drop_last() == added_lines(commits.drop_last())
            &&& deleted_lines(commits).drop_last() == deleted_lines(commits.drop_last())
            &&& day_keys(commits).drop_last() == day_keys(commits.drop_last())
            &&& punch_keys(commits).drop_last() == punch_keys(commits.drop_last())
        },
    decreases commits.len(),
{
    assert forall|i: int| 0 <= i < commits.len() implies #[trigger] added_lines(commits)[i]
        >= 0 by {
        lemma_sum_added_nonneg(commits[i].line_stats@);
    }
    assert forall|i: int| 0 <= i < commits.len() implies #[trigger] deleted_lines(commits)[i]
        >= 0 by {
        lemma_sum_deleted_nonneg(commits[i].line_stats@);
    }
    if commits.len() > 0 {
        lemma_contributions(commits.drop_last());
        assert(ones(commits).drop_last() =~= ones(commits.drop_last()));
        assert(added_lines(commits).drop_last() =~= added_lines(commits.drop_last()));
        assert(deleted_lines(commits).drop_last() =~= deleted_lines(commits.drop_last()));
        assert(day_keys(commits).drop_last() =~= day_keys(commits.drop_last()));
        assert(punch_keys(commits).drop_last() =~= punch_keys(commits.drop_last()));
    }
}

/// The summary counts every commit and sums the lines of every commit:
/// the count is the length of the history and each total is the sum of what
/// the commits changed, both capped at `u64::MAX`.
pub proof fn law_summary_totals(commits: Seq<GitCommit>)
    ensures
        summary_of(commits).commit_count == capped(commits.len() as int),
        summary_of(commits).total_lines_added == capped(seq_sum(added_lines(commits))),
        summary_of(commits).total_lines_deleted == capped(seq_sum(deleted_lines(commits))),
    decreases commits.len(),
{
    lemma_contributions(commits);
    if commits.len() > 0 {
        let rest = commits.drop_last();
        law_summary_totals(rest);
        lemma_contributions(rest);
        lemma_sum_nonneg(added_lines(rest));
        lemma_sum_nonneg(deleted_lines(rest));
        assert(added_lines(commits).last() >= 0);
        assert(deleted_lines(commits).last() >= 0);
        lemma_capped_add(rest.len() as int, 1);
        lemma_capped_add(seq_sum(added_lines(rest)), added_lines(commits).last());
        lemma_capped_add(seq_sum(deleted_lines(rest)), deleted_lines(commits).last());
    }
}

/// The commit count of a history that a `u64` can count is its length.
pub proof fn law_commit_count_is_length(commits: Seq<GitCommit>)
    requires
        commits.len() <= u64::MAX,
    ensures
        summary_of(commits).commit_count == commits.len(),
{
    law_summary_totals(commits);
}

/// Two histories of the same commits, in whatever order, add up to the same
/// lines added and deleted.
pub(crate) proof fn lemma_sums_ignore_order(a: Seq<GitCommit>, b: Seq<GitCommit>)
    requires
        a.to_multiset() == b.to_multiset(),
    ensures
        a.len() == b.len(),
        seq_sum(added_lines(a)) == seq_sum(added_lines(b)),
        seq_sum(deleted_lines(a)) == seq_sum(deleted_lines(b)),
    decreases a.len(),
{
    to_multiset_len(a);
    to_multiset_len(b);
    if a.len() > 0 {
        let x = a.last();
        let rest = a.drop_last();
        assert(a =~= rest.push(x));
        to_multiset_build(rest, x);
        to_multiset_contains(b, x);
        assert(a.to_multiset().count(x) > 0);
        let i = choose|i: int| 0 <= i < b.len() && b[i] == x;
        let others = b.remove(i);
        to_multiset_remove(b, i);
        assert(rest.to_multiset() =~= others.to_multiset());
        lemma_sums_ignore_order(rest, others);
        lemma_contributions(a);
        lemma_sum_remove(added_lines(b), i);
        lemma_sum_remove(deleted_lines(b), i);
        assert(added_lines(b).remove(i) =~= added_lines(others));
        assert(deleted_lines(b).remove(i) =~= deleted_lines(others));
    } else {
        assert(added_lines(b) =~= added_lines(a));
        assert(deleted_lines(b) =~= deleted_lines(a));
    }
}

/// The order of the commits does not change the commit count or the totals
/// of lines of the summary.
pub proof fn law_totals_ignore_order(a: Seq<GitCommit>, b: Seq<GitCommit>)
    requires
        a.to_multiset() == b.to_multiset(),
    ensures
        summary_of(a).commit_count == summary_of(b).commit_count,
        summary_of(a).total_lines_added == summary_of(b).total_lines_added,
        summary_of(a).total_lines_deleted == summary_of(b).total_lines_deleted,
{
    lemma_sums_ignore_order(a, b);
    law_summary_totals(a);
    law_summary_totals(b);
}

/// The first committer and the first date are those of the first commit
/// handed in, whatever the dates of the others, where that commit names an
/// author and its date prints as some text.
pub proof fn law_first_commit_is_first_supplied(commits: Seq<GitCommit>)
    requires
        commits.len() > 0,
    ensures
        commits[0].author@.len() > 0 ==> summary_of(commits).first_committer == commits[0].author@,
        commits[0].date.spec_text().len() > 0 ==> summary_of(commits).date_first_commit
            == commits[0].date.spec_text(),
    decreases commits.len(),
{
    if commits.len() > 1 {
        law_first_commit_is_first_supplied(commits.drop_last());
        assert(commits.drop_last()[0] == commits[0]);
    } else {
        assert(summary_of(commits.drop_last()) == empty_summary());
        assert(commits.last() == commits[0]);
    }
}

/// Each day holds the capped sum of what the commits of that day changed, and
/// a day without an entry had no commit.
pub proof fn law_lines_by_day(commits: Seq<GitCommit>)
    ensures
        forall|i: int|
            0 <= i < commits.len() ==> lines_by_day_of(commits).contains_key(
                #[trigger] day_keys(commits)[i] as i32,
            ),
        forall|k: i32|
            #![trigger lines_by_day_of(commits).contains_key(k)]
            {
                let added = tally_of(day_keys(commits), added_lines(commits), k as int);
                let deleted = tally_of(day_keys(commits), deleted_lines(commits), k as int);
                if lines_by_day_of(commits).contains_key(k) {
                    lines_by_day_of(commits)[k].added == capped(added)
                        && lines_by_day_of(commits)[k].deleted == capped(deleted)
                } else {
                    added == 0 && deleted == 0
                }
            },
    decreases commits.len(),
{
    lemma_contributions(commits);
    if commits.len() > 0 {
        let rest = commits.drop_last();
        let c = commits.last();
        let day = c.date.spec_day() as i32;
        law_lines_by_day(rest);
        lemma_contributions(rest);
        let before = lines_by_day_of(rest);
        let after = lines_by_day_of(commits);
        assert(day_keys(commits).last() == day as int);
        assert forall|i: int| 0 <= i < commits.len() implies after.contains_key(
            #[trigger] day_keys(commits)[i] as i32,
        ) by {
            if i < rest.len() {
                assert(day_keys(commits)[i] == day_keys(rest)[i]);
                assert(before.contains_key(day_keys(rest)[i] as i32));
            }
        }
        assert forall|k: i32| #![trigger after.contains_key(k)] {
            let added = tally_of(day_keys(commits), added_lines(commits), k as int);
            let deleted = tally_of(day_keys(commits), deleted_lines(commits), k as int);
            if after.contains_key(k) {
                after[k].added == capped(added) && after[k].deleted == capped(deleted)
            } else {
                added == 0 && deleted == 0
            }
        } by {
            let _ = before.contains_key(k);
            lemma_tally_nonneg(day_keys(rest), added_lines(rest), k as int);
            lemma_tally_nonneg(day_keys(rest), deleted_lines(rest), k as int);
            assert(added_lines(commits).last() >= 0);
            assert(deleted_lines(commits).last() >= 0);
            lemma_capped_add(
                tally_of(day_keys(rest), added_lines(rest), k as int),
                added_lines(commits).last(),
            );
            lemma_capped_add(
                tally_of(day_keys(rest), deleted_lines(rest), k as int),
                deleted_lines(commits).last(),
            );
        }
    }
}

/// Each day holds the capped number of its commits, and a day without an
/// entry had none.
pub proof fn law_commits_by_day(commits: Seq<GitCommit>)
    ensures
        forall|i: int|
            0 <= i < commits.len() ==> commits_by_day_of(commits).contains_key(
                #[trigger] day_keys(commits)[i] as i32,
            ),
        forall|k: i32|
            #![trigger commits_by_day_of(commits).contains_key(k)]
            {
                let count = tally_of(day_keys(commits), ones(commits), k as int);
                if commits_by_day_of(commits).contains_key(k) {
                    commits_by_day_of(commits)[k] == capped(count)
                } else {
                    count == 0
                }
            },
    decreases commits.len(),
{
    lemma_contributions(commits);
    if commits.len() > 0 {
        let rest = commits.drop_last();
        let c = commits.last();
        let day = c.date.spec_day() as i32;
        law_commits_by_day(rest);
        lemma_contributions(rest);
        let before = commits_by_day_of(rest);
        let after = commits_by_day_of(commits);
        assert(day_keys(commits).last() == day as int);
        assert forall|i: int| 0 <= i < commits.len() implies after.contains_key(
            #[trigger] day_keys(commits)[i] as i32,
        ) by {
            if i < rest.len() {
                assert(day_keys(commits)[i] == day_keys(rest)[i]);
                assert(before.contains_key(day_keys(rest)[i] as i32));
            }
        }
        assert forall|k: i32| #![trigger after.contains_key(k)] {
            let count = tally_of(day_keys(commits), ones(commits), k as int);
            if after.contains_key(k) {
                after[k] == capped(count)
            } else {
                count == 0
            }
        } by {
            let _ = before.contains_key(k);
            lemma_tally_nonneg(day_keys(rest), ones(rest), k as int);
            assert(ones(commits).last() == 1);
            lemma_capped_add(tally_of(day_keys(rest), ones(rest), k as int), 1);
        }
    }
}

/// Each cell of the punch card holds the capped number of the commits of its
/// weekday and hour, and a cell without an entry had none.
pub proof fn law_punch_card(commits: Seq<GitCommit>)
    ensures
        forall|i: int|
            0 <= i < commits.len() ==> punch_card_of(commits).contains_key(
                #[trigger] punch_keys(commits)[i] as i32,
            ),
        forall|k: i32|
            #![trigger punch_card_of(commits).contains_key(k)]
            {
                let count = tally_of(punch_keys(commits), ones(commits), k as int);
                if punch_card_of(commits).contains_key(k) {
                    punch_card_of(commits)[k].commits == capped(count)
                } else {
                    count == 0
                }
            },
    decreases commits.len(),
{
    lemma_contributions(commits);
    if commits.len() > 0 {
        let rest = commits.drop_last();
        let c = commits.last();
        let key = c.spec_punch_key() as i32;
        law_punch_card(rest);
        lemma_contributions(rest);
        let before = punch_card_of(rest);
        let after = punch_card_of(commits);
        assert(punch_keys(commits).last() == key as int);
        assert forall|i: int| 0 <= i < commits.len() implies after.contains_key(
            #[trigger] punch_keys(commits)[i] as i32,
        ) by {
            if i < rest.len() {
                assert(punch_keys(commits)[i] == punch_keys(rest)[i]);
                assert(before.contains_key(punch_keys(rest)[i] as i32));
            }
        }
        assert forall|k: i32| #![trigger after.contains_key(k)] {
            let count = tally_of(punch_keys(commits), ones(commits), k as int);
            if after.contains_key(k) {
                after[k].commits == capped(count)
            } else {
                count == 0
            }
        } by {
            let _ = before.contains_key(k);
            lemma_tally_nonneg(punch_keys(rest), ones(rest), k as int);
            assert(ones(commits).last() == 1);
            lemma_capped_add(tally_of(punch_keys(rest), ones(rest), k as int), 1);
        }
    }
}

/// The lines added of each row.
pub open spec fn rows_added(rows: Seq<LinesValue>) -> Seq<int> {
    Seq::new(rows.len(), |j: int| rows[j].lines_added as int)
}

/// The lines deleted of each row.
pub open spec fn rows_deleted(rows: Seq<LinesValue>) -> Seq<int> {
    Seq::new(rows.len(), |j: int| rows[j].lines_deleted as int)
}

/// The commits of each row.
pub open spec fn rows_commits(rows: Seq<KeyValue>) -> Seq<int> {
    Seq::new(rows.len(), |j: int| rows[j].value as int)
}

/// The commits of each cell.
pub open spec fn cells_commits(rows: Seq<PunchesValue>) -> Seq<int> {
    Seq::new(rows.len(), |j: int| rows[j].commits as int)
}

/// Summed over all days, the rows of the lines per day give the totals of the
/// summary, lines added and lines deleted: capped like every total, and
/// exactly where the total has not reached the cap.
pub proof fn law_line_rows_sum_to_totals(commits: Seq<GitCommit>, rows: Seq<LinesValue>)
    requires
        is_line_rows(rows, lines_by_day_of(commits)),
    ensures
        capped(seq_sum(rows_added(rows))) == summary_of(commits).total_lines_added,
        capped(seq_sum(rows_deleted(rows))) == summary_of(commits).total_lines_deleted,
        seq_sum(added_lines(commits)) <= u64::MAX ==> seq_sum(rows_added(rows)) == summary_of(
            commits,
        ).total_lines_added,
        seq_sum(deleted_lines(commits)) <= u64::MAX ==> seq_sum(rows_deleted(rows))
            == summary_of(commits).total_lines_deleted,
{
    let m = lines_by_day_of(commits);
    let keys = Seq::new(rows.len(), |j: int| rows[j].day as int);
    law_lines_by_day(commits);
    law_summary_totals(commits);
    lemma_contributions(commits);
    assert forall|i: int| 0 <= i < day_keys(commits).len() implies keys.contains(
        #[trigger] day_keys(commits)[i],
    ) by {
        let k = day_keys(commits)[i] as i32;
        assert(m.contains_key(k));
        let j = choose|j: int| 0 <= j < rows.len() && #[trigger] rows[j].day == k;
        assert(keys[j] == day_keys(commits)[i]);
    }
    assert forall|j: int| 0 <= j < rows.len() implies #[trigger] rows_added(rows)[j] == capped(
        tally_of(day_keys(commits), added_lines(commits), keys[j]),
    ) && #[trigger] rows_deleted(rows)[j] == capped(
        tally_of(day_keys(commits), deleted_lines(commits), keys[j]),
    ) by {
        assert(m.contains_key(rows[j].day));
    }
    lemma_capped_cells_sum(day_keys(commits), added_lines(commits), keys, rows_added(rows));
    lemma_capped_cells_sum(day_keys(commits), deleted_lines(commits), keys, rows_deleted(rows));
}

/// Summed over all days, the rows of the commits per day give the commit
/// count of the summary.
pub proof fn law_commit_rows_sum_to_count(commits: Seq<GitCommit>, rows: Seq<KeyValue>)
    requires
        is_commit_rows(rows, commits_by_day_of(commits)),
    ensures
        capped(seq_sum(rows_commits(rows))) == summary_of(commits).commit_count,
        commits.len() <= u64::MAX ==> seq_sum(rows_commits(rows)) == commits.len(),
{
    let m = commits_by_day_of(commits);
    let keys = Seq::new(rows.len(), |j: int| rows[j].day as int);
    law_commits_by_day(commits);
    law_summary_totals(commits);
    lemma_contributions(commits);
    assert forall|i: int| 0 <= i < day_keys(commits).len() implies keys.contains(
        #[trigger] day_keys(commits)[i],
    ) by {
        let k = day_keys(commits)[i] as i32;
        assert(m.contains_key(k));
        let j = choose|j: int| 0 <= j < rows.len() && #[trigger] rows[j].day == k;
        assert(keys[j] == day_keys(commits)[i]);
    }
    assert forall|j: int| 0 <= j < rows.len() implies #[trigger] rows_commits(rows)[j] == capped(
        tally_of(day_keys(commits), ones(commits), keys[j]),
    ) by {
        assert(m.contains_key(rows[j].day));
    }
    lemma_capped_cells_sum(day_keys(commits), ones(commits), keys, rows_commits(rows));
}

/// Summed over all cells, the rows of the punch card give the number of
/// commits processed.
pub proof fn law_punch_rows_sum_to_count(commits: Seq<GitCommit>, rows: Seq<PunchesValue>)
    requires
        is_punch_rows(rows, punch_card_of(commits)),
    ensures
        capped(seq_sum(cells_commits(rows))) == capped(commits.len() as int),
        commits.len() <= u64::MAX ==> seq_sum(cells_commits(rows)) == commits.len(),
{
    let m = punch_card_of(commits);
    let keys = Seq::new(rows.len(), |j: int| rows[j].weekday * 24 + rows[j].hour);
    law_punch_card(commits);
    lemma_contributions(commits);
    assert forall|i: int| 0 <= i < punch_keys(commits).len() implies keys.contains(
        #[trigger] punch_keys(commits)[i],
    ) by {
        let k = punch_keys(commits)[i] as i32;
        assert(m.contains_key(k));
        let j = choose|j: int|
            0 <= j < rows.len() && (#[trigger] rows[j]).weekday * 24 + rows[j].hour == k;
        assert(keys[j] == punch_keys(commits)[i]);
    }
    assert forall|j: int| 0 <= j < rows.len() implies #[trigger] cells_commits(rows)[j] == capped(
        tally_of(punch_keys(commits), ones(commits), keys[j]),
    ) by {
        let key = rows[j].weekday * 24 + rows[j].hour;
        assert(m.contains_key(key as i32));
    }
    assert forall|i: int, j: int| 0 <= i < keys.len()
        && 0 <= j < keys.len()
        && i != j implies keys[i]
        != keys[j] by {
        if i < j {
            assert(rows[i].weekday != rows[j].weekday || rows[i].hour != rows[j].hour);
        } else {
            assert(rows[j].weekday != rows[i].weekday || rows[j].hour != rows[i].hour);
        }
        assert(rows[i].weekday < 7 && rows[i].hour < 24);
        assert(rows[j].weekday < 7 && rows[j].hour < 24);
    }
    lemma_capped_cells_sum(punch_keys(commits), ones(commits), keys, cells_commits(rows));
}

/// The files of one kind that each commit touched.
pub open spec fn files_of(commits: Seq<GitCommit>, kind: FileOperationKind) -> Seq<int> {
    Seq::new(commits.len(), |i: int| commits[i].spec_files(kind))
}

/// The count of one kind in the statistics of a day.
pub open spec fn stat_of(stats: FileStats, kind: FileOperationKind) -> int {
    match kind {
        FileOperationKind::Added => stats.added as int,
        FileOperationKind::Modified => stats.modified as int,
        FileOperationKind::Deleted => stats.deleted as int,
        FileOperationKind::Renamed => stats.renamed as int,
    }
}

/// The count of one kind in each row.
pub open spec fn rows_files(rows: Seq<FilesValue>, kind: FileOperationKind) -> Seq<int> {
    Seq::new(
        rows.len(),
        |j: int|
            match kind {
                FileOperationKind::Added => rows[j].files_added as int,
                FileOperationKind::Modified => rows[j].files_modified as int,
                FileOperationKind::Deleted => rows[j].files_deleted as int,
                FileOperationKind::Renamed => rows[j].files_renamed as int,
            },
    )
}

/// The files per day of a history, from a fresh collector.
pub open spec fn files_by_day_of(commits: Seq<GitCommit>) -> Map<i32, FileStats>
    decreases commits.len(),
{
    if commits.len() == 0 {
        Map::empty()
    } else {
        files_by_day_step(files_by_day_of(commits.drop_last()), commits.last())
    }
}

/// The same of the files of one kind.
proof fn lemma_file_contributions(commits: Seq<GitCommit>, kind: FileOperationKind)
    ensures
        none_negative(files_of(commits, kind)),
        commits.len() > 0 ==> files_of(commits, kind).drop_last()
            == files_of(commits.drop_last(), kind),
{
    assert forall|i: int| 0 <= i < commits.len() implies #[trigger] files_of(commits, kind)[i]
        >= 0 by {
        lemma_count_kind_bounds(commits[i].file_operations@, kind);
    }
    if commits.len() > 0 {
        assert(files_of(commits, kind).drop_last() =~= files_of(commits.drop_last(), kind));
    }
}

/// Each day holds, for each kind of file operation, the capped number of the
/// operations of that kind in the commits of that day, and a day without an
/// entry had none.
pub proof fn law_files_by_day(commits: Seq<GitCommit>, kind: FileOperationKind)
    ensures
        model_run(CollectorModel::FilesByDay(Map::empty()), commits) == CollectorModel::FilesByDay(
            files_by_day_of(commits),
        ),
        forall|i: int|
            0 <= i < commits.len() ==> files_by_day_of(commits).contains_key(
                #[trigger] day_keys(commits)[i] as i32,
            ),
        forall|k: i32|
            #![trigger files_by_day_of(commits).contains_key(k)]
            {
                let count = tally_of(day_keys(commits), files_of(commits, kind), k as int);
                if files_by_day_of(commits).contains_key(k) {
                    stat_of(files_by_day_of(commits)[k], kind) == capped(count)
                } else {
                    count == 0
                }
            },
    decreases commits.len(),
{
    lemma_contributions(commits);
    lemma_file_contributions(commits, kind);
    if commits.len() > 0 {
        let rest = commits.drop_last();
        let c = commits.last();
        let day = c.date.spec_day() as i32;
        law_files_by_day(rest, kind);
        lemma_file_contributions(rest, kind);
        let before = files_by_day_of(rest);
        let after = files_by_day_of(commits);
        assert(day_keys(commits).last() == day as int);
        assert forall|i: int| 0 <= i < commits.len() implies after.contains_key(
            #[trigger] day_keys(commits)[i] as i32,
        ) by {
            if i < rest.len() {
                assert(day_keys(commits)[i] == day_keys(rest)[i]);
                assert(before.contains_key(day_keys(rest)[i] as i32));
            }
        }
        assert forall|k: i32| #![trigger after.contains_key(k)] {
            let count = tally_of(day_keys(commits), files_of(commits, kind), k as int);
            if after.contains_key(k) {
                stat_of(after[k], kind) == capped(count)
            } else {
                count == 0
            }
        } by {
            let _ = before.contains_key(k);
            lemma_tally_nonneg(day_keys(rest), files_of(rest, kind), k as int);
            assert(files_of(commits, kind).last() >= 0);
            assert(files_of(commits, kind).last() == c.spec_files(kind));
            lemma_capped_add(
                tally_of(day_keys(rest), files_of(rest, kind), k as int),
                files_of(commits, kind).last(),
            );
        }
    }
}

/// Summed over all days, the rows of the files per day give, for each kind of
/// file operation, the capped number of such operations in the whole history.
pub proof fn law_file_rows_sum_to_totals(
    commits: Seq<GitCommit>,
    rows: Seq<FilesValue>,
    kind: FileOperationKind,
)
    requires
        is_file_rows(rows, files_by_day_of(commits)),
    ensures
        capped(seq_sum(rows_files(rows, kind))) == capped(seq_sum(files_of(commits, kind))),
{
    let m = files_by_day_of(commits);
    let keys = Seq::new(rows.len(), |j: int| rows[j].day as int);
    law_files_by_day(commits, kind);
    lemma_contributions(commits);
    lemma_file_contributions(commits, kind);
    assert forall|i: int| 0 <= i < day_keys(commits).len() implies keys.contains(
        #[trigger] day_keys(commits)[i],
    ) by {
        let k = day_keys(commits)[i] as i32;
        assert(m.contains_key(k));
        let j = choose|j: int| 0 <= j < rows.len() && #[trigger] rows[j].day == k;
        assert(keys[j] == day_keys(commits)[i]);
    }
    assert forall|j: int| 0 <= j < rows.len() implies #[trigger] rows_files(rows, kind)[j]
        == capped(tally_of(day_keys(commits), files_of(commits, kind), keys[j])) by {
        assert(m.contains_key(rows[j].day));
    }
    lemma_capped_cells_sum(
        day_keys(commits),
        files_of(commits, kind),
        keys,
        rows_files(rows, kind),
    );
}

/// The size of the message of each commit.
pub open spec fn message_sizes(commits: Seq<GitCommit>) -> Seq<int> {
    Seq::new(commits.len(), |i: int| commits[i].spec_message_size())
}

/// The number of lines of the message of each commit.
pub open spec fn message_lines(commits: Seq<GitCommit>) -> Seq<int> {
    Seq::new(commits.len(), |i: int| commits[i].spec_message_lines())
}

/// Whether a `u64` can hold each number of the list.
pub open spec fn fits_u64(s: Seq<int>) -> bool {
    forall|j: int| 0 <= j < s.len() ==> #[trigger] s[j] <= u64::MAX
}

/// The message statistics of a history, from a fresh collector.
pub open spec fn messages_of(commits: Seq<GitCommit>) -> MessageStatsCollector
    decreases commits.len(),
{
    if commits.len() == 0 {
        empty_messages()
    } else {
        messages_of(commits.drop_last()).after(commits.last())
    }
}

/// The message statistics count every commit and sum the sizes and the lines
/// of every message, capped at `u64::MAX`; each minimum stays 0; after at
/// least one commit each average is the total divided by the count, rounded
/// down; and where a `u64` can measure every message, none is larger than
/// the maximum.
pub proof fn law_message_statistics(commits: Seq<GitCommit>)
    ensures
        model_run(CollectorModel::Messages(empty_messages()), commits) == CollectorModel::Messages(
            messages_of(commits),
        ),
        messages_of(commits).count == capped(commits.len() as int),
        messages_of(commits).total_message_size == capped(seq_sum(message_sizes(commits))),
        messages_of(commits).total_message_lines == capped(seq_sum(message_lines(commits))),
        messages_of(commits).message_stats.min_size == 0,
        messages_of(commits).message_stats.min_lines == 0,
        commits.len() > 0 ==> messages_of(commits).message_stats.avg_size
            == messages_of(commits).total_message_size / messages_of(commits).count,
        commits.len() > 0 ==> messages_of(commits).message_stats.avg_lines
            == messages_of(commits).total_message_lines / messages_of(commits).count,
        fits_u64(message_sizes(commits)) ==> forall|i: int|
            0 <= i < commits.len() ==> #[trigger] message_sizes(commits)[i]
                <= messages_of(commits).message_stats.max_size,
        fits_u64(message_lines(commits)) ==> forall|i: int|
            0 <= i < commits.len() ==> #[trigger] message_lines(commits)[i]
                <= messages_of(commits).message_stats.max_lines,
    decreases commits.len(),
{
    assert forall|i: int| 0 <= i < commits.len() implies #[trigger] message_lines(commits)[i]
        >= 0 by {
        lemma_line_feeds_bounds(commits[i].message_bytes());
    }
    assert(none_negative(message_sizes(commits)));
    if commits.len() > 0 {
        let rest = commits.drop_last();
        let c = commits.last();
        law_message_statistics(rest);
        assert(message_sizes(commits).drop_last() =~= message_sizes(rest));
        assert(message_lines(commits).drop_last() =~= message_lines(rest));
        assert forall|i: int| 0 <= i < rest.len() implies #[trigger] message_lines(rest)[i]
            >= 0 by {
            lemma_line_feeds_bounds(rest[i].message_bytes());
        }
        assert(none_negative(message_sizes(rest)));
        lemma_sum_nonneg(message_sizes(rest));
        lemma_sum_nonneg(message_lines(rest));
        assert(message_sizes(commits).last() == c.spec_message_size());
        assert(message_lines(commits).last() == c.spec_message_lines());
        assert(message_lines(commits)[commits.len() - 1] >= 0);
        lemma_capped_add(rest.len() as int, 1);
        lemma_capped_add(seq_sum(message_sizes(rest)), c.spec_message_size());
        lemma_capped_add(seq_sum(message_lines(rest)), c.spec_message_lines());
        if fits_u64(message_sizes(commits)) {
            assert forall|j: int| 0 <= j < rest.len() implies #[trigger] message_sizes(rest)[j]
                <= u64::MAX by {
                assert(message_sizes(rest)[j] == message_sizes(commits)[j]);
            }
            assert forall|i: int| 0
                <= i < commits.len() implies #[trigger] message_sizes(commits)[i]
                    <= messages_of(commits).message_stats.max_size by {
                if i < rest.len() {
                    assert(message_sizes(rest)[i] == message_sizes(commits)[i]);
                }
            }
        }
        if fits_u64(message_lines(commits)) {
            assert forall|j: int| 0 <= j < rest.len() implies #[trigger] message_lines(rest)[j]
                <= u64::MAX by {
                assert(message_lines(rest)[j] == message_lines(commits)[j]);
            }
            assert forall|i: int| 0
                <= i < commits.len() implies #[trigger] message_lines(commits)[i]
                    <= messages_of(commits).message_stats.max_lines by {
                if i < rest.len() {
                    assert(message_lines(rest)[i] == message_lines(commits)[i]);
                }
            }
        }
    }
}

} // verus!
