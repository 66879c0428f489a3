//! The collectors: each is fed every commit once, in the order of the
//! history, and then writes its part of the report.

use vstd::prelude::*;
use vstd::seq_lib::to_multiset_build;
use std::collections::HashMap;
use crate::calendar::{day_label, day_text, MAX_DAY, MIN_DAY};
use crate::collectors::commits_by_file_extension::{
    count_of, touches, CommitsByFileExtension, ExtensionCount,
};
use crate::commit::{capped, FileOperation, FileOperationKind, GitCommit};
use crate::stats::{FileStats, LineStats, MessageStats, PunchStats, SummaryModel, SummaryStats};
use crate::text::{byte_size_string, byte_size_text, decimal_string, decimal_text};
use crate::viewmodel::{
    insert_by_day, lemma_empty_multiset, of_day, sort_by_day, sorted_by_day, FilesValue,
    GitStatsViewModel, KeyValue, LinesValue, PunchesValue, SummaryViewModel,
};

pub mod commits_by_file_extension;

verus! {

broadcast use vstd::std_specs::hash::group_hash_axioms;

/// Whether a summary row has the given name and value.
pub open spec fn row_is(row: SummaryViewModel, name: Seq<char>, value: Seq<char>) -> bool {
    row.name@ == name && row.value@ == value
}

/// Appends one row to a summary.
pub fn push_row(summary: &mut Vec<SummaryViewModel>, name: &str, value: String)
    ensures
        final(summary)@.len() == old(summary)@.len() + 1,
        final(summary)@.drop_last() == old(summary)@,
        row_is(final(summary)@.last(), name@, value@),
{
    summary.push(SummaryViewModel { name: name.to_owned(), value });
    assert(summary@.drop_last() =~= old(summary)@);
}

/// The summary after one more commit: the counters grow, and the first
/// committer and the first date are taken only while they are still empty.
pub open spec fn summary_step(s: SummaryModel, c: GitCommit) -> SummaryModel {
    SummaryModel {
        commit_count: capped(s.commit_count + 1),
        first_committer: if s.first_committer.len() == 0 {
            c.author@
        } else {
            s.first_committer
        },
        date_first_commit: if s.date_first_commit.len() == 0 {
            c.date.spec_text()
        } else {
            s.date_first_commit
        },
        total_lines_added: capped(s.total_lines_added + c.spec_lines_added()),
        total_lines_deleted: capped(s.total_lines_deleted + c.spec_lines_deleted()),
    }
}

/// Counts commits and changed lines, and remembers who committed first and
/// when. "First" is the first commit handed in, whatever its date.
pub struct SummaryStatsCollector {
    pub summary: SummaryStats,
}

impl View for SummaryStatsCollector {
    type V = SummaryModel;

    open spec fn view(&self) -> SummaryModel {
        self.summary@
    }
}

impl SummaryStatsCollector {
    /// The state before any commit.
    pub fn default() -> (r: SummaryStatsCollector)
        ensures
            r@ == (SummaryModel {
                commit_count: 0,
                first_committer: Seq::<char>::empty(),
                date_first_commit: Seq::<char>::empty(),
                total_lines_added: 0,
                total_lines_deleted: 0,
            }),
    {
        SummaryStatsCollector { summary: SummaryStats::default() }
    }

    /// Takes in one commit.
    pub fn process(&mut self, commit: &GitCommit)
        requires
            commit.wf(),
        ensures
            final(self)@ == summary_step(old(self)@, *commit),
            final(self)@.date_first_commit.len() > 0,
    {
        self.summary.commit_count = self.summary.commit_count.saturating_add(1);
        if self.summary.date_first_commit.as_str().is_empty() {
            self.summary.date_first_commit = commit.date.to_string();
        }
        if self.summary.first_committer.as_str().is_empty() {
            self.summary.first_committer = commit.author.clone();
        }
        self.summary.total_lines_added = self.summary.total_lines_added.saturating_add(
            commit.total_lines_added(),
        );
        self.summary.total_lines_deleted = self.summary.total_lines_deleted.saturating_add(
            commit.total_lines_deleted(),
        );
    }

    /// Appends five rows to the summary of the report and leaves the rest of
    /// it as it was.
    pub fn update(&self, viewmodel: &mut GitStatsViewModel)
        ensures
            summary_written(self@, *old(viewmodel), *final(viewmodel)),
    {
        let ghost before = viewmodel.summary@;
        push_row(&mut viewmodel.summary, "First committer", self.summary.first_committer.clone());
        let ghost one = viewmodel.summary@;
        push_row(
            &mut viewmodel.summary,
            "Date of first commit",
            self.summary.date_first_commit.clone(),
        );
        let ghost two = viewmodel.summary@;
        push_row(
            &mut viewmodel.summary,
            "Number of commits_collection",
            decimal_string(self.summary.commit_count),
        );
        let ghost three = viewmodel.summary@;
        push_row(
            &mut viewmodel.summary,
            "Total lines_collection added",
            decimal_string(self.summary.total_lines_added),
        );
        let ghost four = viewmodel.summary@;
        push_row(
            &mut viewmodel.summary,
            "Total lines_collection deleted",
            decimal_string(self.summary.total_lines_deleted),
        );
        proof {
            let after = viewmodel.summary@;
            assert(four == after.drop_last());
            assert(three == four.drop_last());
            assert(two == three.drop_last());
            assert(one == two.drop_last());
            assert(before == one.drop_last());
            assert(after.take(before.len() as int) =~= before);
        }
    }
}

/// Sizes and line counts of commit messages: totals, extremes and averages.
#[derive(Clone, Copy, Debug)]
pub struct MessageStatsCollector {
    pub count: u64,
    pub total_message_lines: u64,
    pub total_message_size: u64,
    pub message_stats: MessageStats,
}

impl MessageStatsCollector {
    /// The statistics after one more commit. A maximum moves only to a greater
    /// value; a minimum moves to any value that is not greater, so it stays
    /// at its start, 0. The averages are the totals divided by the count.
    pub open spec fn after(self, c: GitCommit) -> MessageStatsCollector {
        let count = capped(self.count + 1);
        let lines = capped(self.total_message_lines + c.spec_message_lines());
        let size = capped(self.total_message_size + c.spec_message_size());
        let stats = self.message_stats;
        MessageStatsCollector {
            count: count as u64,
            total_message_lines: lines as u64,
            total_message_size: size as u64,
            message_stats: MessageStats {
                max_size: if c.spec_message_size() > stats.max_size {
                    c.spec_message_size() as u64
                } else {
                    stats.max_size
                },
                max_lines: if c.spec_message_lines() > stats.max_lines {
                    c.spec_message_lines() as u64
                } else {
                    stats.max_lines
                },
                min_size: if c.spec_message_size() <= stats.min_size {
                    c.spec_message_size() as u64
                } else {
                    stats.min_size
                },
                min_lines: if c.spec_message_lines() <= stats.min_lines {
                    c.spec_message_lines() as u64
                } else {
                    stats.min_lines
                },
                avg_size: (size / count) as u64,
                avg_lines: (lines / count) as u64,
            },
        }
    }

    /// The state before any commit.
    pub fn default() -> (r: MessageStatsCollector)
        ensures
            r.count == 0,
            r.total_message_lines == 0,
            r.total_message_size == 0,
            r.message_stats == (MessageStats {
                max_size: 0,
                max_lines: 0,
                min_size: 0,
                min_lines: 0,
                avg_size: 0,
                avg_lines: 0,
            }),
    {
        MessageStatsCollector {
            count: 0,
            total_message_lines: 0,
            total_message_size: 0,
            message_stats: MessageStats::default(),
        }
    }

    /// Takes in one commit.
    pub fn process(&mut self, commit: &GitCommit)
        ensures
            *final(self) == old(self).after(*commit),
            final(self).count >= 1,
            final(self).message_stats.avg_size == final(self).total_message_size
                / final(self).count,
            final(self).message_stats.avg_lines == final(self).total_message_lines
                / final(self).count,
    {
        let size: u64 = commit.total_message_size();
        let lines: u64 = commit.total_message_lines();
        self.count = self.count.saturating_add(1);
        self.total_message_lines = self.total_message_lines.saturating_add(lines);
        self.total_message_size = self.total_message_size.saturating_add(size);
        if size > self.message_stats.max_size {
            self.message_stats.max_size = size;
        }
        if lines > self.message_stats.max_lines {
            self.message_stats.max_lines = lines;
        }
        if size <= self.message_stats.min_size {
            self.message_stats.min_size = size;
        }
        if lines <= self.message_stats.min_lines {
            self.message_stats.min_lines = lines;
        }
        self.message_stats.avg_size = self.total_message_size / self.count;
        self.message_stats.avg_lines = self.total_message_lines / self.count;
    }

    /// The six rows of the message statistics, given the three sizes as
    /// printed in byte units.
    pub fn summary_rows(&self, total_size: String, max_size: String, avg_size: String) -> (rows:
        Vec<SummaryViewModel>)
        ensures
            rows@.len() == 6,
            row_is(rows@[0], "Total size of all commit messages"@, total_size@),
            row_is(
                rows@[1],
                "Total number of lines_collection across all commit messages"@,
                decimal_text(self.total_message_lines as nat),
            ),
            row_is(
                rows@[2],
                "Max number of lines_collection in a commit message"@,
                decimal_text(self.message_stats.max_lines as nat),
            ),
            row_is(rows@[3], "Max size of a commit message"@, max_size@),
            row_is(
                rows@[4],
                "Avg number of lines_collection in a commit message"@,
                decimal_text(self.message_stats.avg_lines as nat),
            ),
            row_is(rows@[5], "Avg size of a commit message"@, avg_size@),
    {
        let mut rows: Vec<SummaryViewModel> = Vec::new();
        push_row(&mut rows, "Total size of all commit messages", total_size);
        let ghost one = rows@;
        push_row(
            &mut rows,
            "Total number of lines_collection across all commit messages",
            decimal_string(self.total_message_lines),
        );
        let ghost two = rows@;
        push_row(
            &mut rows,
            "Max number of lines_collection in a commit message",
            decimal_string(self.message_stats.max_lines),
        );
        let ghost three = rows@;
        push_row(&mut rows, "Max size of a commit message", max_size);
        let ghost four = rows@;
        push_row(
            &mut rows,
            "Avg number of lines_collection in a commit message",
            decimal_string(self.message_stats.avg_lines),
        );
        let ghost five = rows@;
        push_row(&mut rows, "Avg size of a commit message", avg_size);
        proof {
            assert(five == rows@.drop_last());
            assert(four == five.drop_last());
            assert(three == four.drop_last());
            assert(two == three.drop_last());
            assert(one == two.drop_last());
        }
        rows
    }

    /// Appends the six rows of the message statistics to the summary of the
    /// report, the sizes printed in byte units, and leaves the rest of it as
    /// it was.
    pub fn update(&self, viewmodel: &mut GitStatsViewModel)
        ensures
            messages_written(*self, *old(viewmodel), *final(viewmodel)),
    {
        let mut rows = self.summary_rows(
            byte_size_string(self.total_message_size),
            byte_size_string(self.message_stats.max_size),
            byte_size_string(self.message_stats.avg_size),
        );
        let ghost before = viewmodel.summary@;
        let ghost fresh = rows@;
        viewmodel.summary.append(&mut rows);
        proof {
            assert(viewmodel.summary@ == before + fresh);
            assert(viewmodel.summary@.take(before.len() as int) =~= before);
        }
    }
}

/// Whether a list holds each entry of a map once, in any order.
pub open spec fn is_listing<V>(entries: Seq<(i32, V)>, m: Map<i32, V>) -> bool {
    &&& entries.len() == m.dom().len()
    &&& forall|j: int|
        0 <= j < entries.len() ==> m.contains_key(#[trigger] entries[j].0) && m[entries[j].0]
            == entries[j].1
    &&& forall|i: int, j: int| 0 <= i < j < entries.len() ==> entries[i].0 != entries[j].0
    &&& forall|k: i32|
        m.contains_key(k) ==> exists|j: int| 0 <= j < entries.len() && #[trigger] entries[j].0 == k
}

/// The entries of a map, each once, in the order in which the map hands them
/// out.
pub fn entries_of<V: Copy>(m: &HashMap<i32, V>) -> (entries: Vec<(i32, V)>)
    ensures
        is_listing(entries@, m@),
{
    let mut entries: Vec<(i32, V)> = Vec::new();
    for pair in it: m.iter()
        invariant
            it.seq().no_duplicates(),
            it.seq().len() == m@.dom().len(),
            forall|j: int|
                0 <= j < it.seq().len() ==> m@.contains_key(*(#[trigger] it.seq()[j]).0)
                    && m@[*it.seq()[j].0] == *it.seq()[j].1,
            forall|k: i32|
                m@.contains_key(k) ==> exists|j: int|
                    0 <= j < it.seq().len() && *(#[trigger] it.seq()[j]).0 == k,
            entries@.len() == it.index(),
            forall|j: int|
                #![trigger entries@[j]]
                #![trigger it.seq()[j]]
                0 <= j < entries@.len() ==> entries@[j].0 == *it.seq()[j].0 && entries@[j].1
                    == *it.seq()[j].1,
            forall|i: int, j: int|
                0 <= i < j < entries@.len() ==> (#[trigger] entries@[i]).0 != (
                #[trigger] entries@[j]).0,
    {
        let (k, v) = pair;
        proof {
            let at = it.index();
            assert forall|j: int| 0 <= j < entries@.len() implies (#[trigger] entries@[j]).0
                != *k by {
                if entries@[j].0 == *k {
                    assert(m@[*it.seq()[j].0] == *it.seq()[j].1);
                    assert(m@[*it.seq()[at].0] == *it.seq()[at].1);
                    assert(it.seq()[j] == it.seq()[at]);
                }
            }
        }
        entries.push((*k, *v));
    }
    entries
}

/// The days of a map all lie in the range that can be printed.
pub open spec fn days_in_range<V>(m: Map<i32, V>) -> bool {
    forall|k: i32| m.contains_key(k) ==> MIN_DAY <= k <= MAX_DAY
}

/// The commits per day after one more commit.
pub open spec fn commits_by_day_step(m: Map<i32, u64>, c: GitCommit) -> Map<i32, u64> {
    let day = c.date.spec_day() as i32;
    let before = if m.contains_key(day) { m[day] as int } else { 0 };
    m.insert(day, capped(before + 1) as u64)
}

/// Whether rows are the entries of a map of commits per day, each once.
pub open spec fn is_commit_rows(rows: Seq<KeyValue>, m: Map<i32, u64>) -> bool {
    &&& rows.len() == m.dom().len()
    &&& forall|j: int|
        0 <= j < rows.len() ==> m.contains_key(#[trigger] rows[j].day) && m[rows[j].day]
            == rows[j].value && rows[j].key@ == day_text(rows[j].day as int)
    &&& forall|i: int, j: int| 0 <= i < j < rows.len() ==> rows[i].day != rows[j].day
    &&& forall|k: i32|
        m.contains_key(k) ==> exists|j: int| 0 <= j < rows.len() && #[trigger] rows[j].day == k
}

/// Counts the commits of each day.
pub struct TotalCommitsByDayCollector {
    pub total_commits_by_day: HashMap<i32, u64>,
}

impl View for TotalCommitsByDayCollector {
    type V = Map<i32, u64>;

    open spec fn view(&self) -> Map<i32, u64> {
        self.total_commits_by_day@
    }
}

impl TotalCommitsByDayCollector {
    /// Every day held can be printed.
    pub open spec fn wf(&self) -> bool {
        days_in_range(self@)
    }

    /// The state before any commit.
    pub fn default() -> (r: TotalCommitsByDayCollector)
        ensures
            r@ == Map::<i32, u64>::empty(),
            r.wf(),
    {
        TotalCommitsByDayCollector { total_commits_by_day: HashMap::new() }
    }

    /// Takes in one commit.
    pub fn process(&mut self, commit: &GitCommit)
        requires
            commit.wf(),
            old(self).wf(),
        ensures
            final(self)@ == commits_by_day_step(old(self)@, *commit),
            final(self).wf(),
    {
        let stat = self.total_commits_by_day.entry(commit.day_key()).or_insert(0);
        *stat = stat.saturating_add(1);
    }

    /// Sorts the commits per day of the report and adds a row for each day
    /// held, so that the whole list is in ascending order of days.
    pub fn update(&self, viewmodel: &mut GitStatsViewModel)
        requires
            self.wf(),
        ensures
            commit_rows_written(self@, *old(viewmodel), *final(viewmodel)),
    {
        let entries = entries_of(&self.total_commits_by_day);
        sort_by_day(&mut viewmodel.total_commits_by_day);
        let ghost mut fresh: Seq<KeyValue> = Seq::empty();
        proof {
            lemma_empty_multiset(fresh);
            assert forall|day: int| #[trigger]
                of_day(viewmodel.total_commits_by_day@, day)
                    == of_day(old(viewmodel).total_commits_by_day@, day)
                    + of_day(fresh, day) by {
                assert(of_day(old(viewmodel).total_commits_by_day@, day)
                    + Seq::<KeyValue>::empty() =~= of_day(
                    old(viewmodel).total_commits_by_day@,
                    day,
                ));
            }
        }
        let mut i: usize = 0;
        while i < entries.len()
            invariant
                i <= entries@.len(),
                is_listing(entries@, self@),
                self.wf(),
                fresh.len() == i,
                forall|j: int|
                    0 <= j < i ==> (#[trigger] fresh[j]).day == entries@[j].0 && fresh[j].value
                        == entries@[j].1 && fresh[j].key@ == day_text(fresh[j].day as int),
                sorted_by_day(viewmodel.total_commits_by_day@),
                forall|day: int| #[trigger]
                    of_day(viewmodel.total_commits_by_day@, day)
                        == of_day(old(viewmodel).total_commits_by_day@, day)
                        + of_day(fresh, day),
                viewmodel.total_commits_by_day@.to_multiset()
                    =~= old(viewmodel).total_commits_by_day@.to_multiset().add(fresh.to_multiset()),
                viewmodel.total_commits_by_day@.len() == old(viewmodel).total_commits_by_day@.len()
                    + i,
                viewmodel.summary == old(viewmodel).summary,
                viewmodel.total_lines_by_day == old(viewmodel).total_lines_by_day,
                viewmodel.total_files_by_day == old(viewmodel).total_files_by_day,
                viewmodel.punch_data == old(viewmodel).punch_data,
            decreases entries@.len() - i,
        {
            let day: i32 = entries[i].0;
            assert(self@.contains_key(entries@[i as int].0));
            let row = KeyValue { day, key: day_label(day), value: entries[i].1 };
            let ghost prior = fresh;
            proof {
                to_multiset_build(fresh, row);
                fresh = fresh.push(row);
            }
            insert_by_day(&mut viewmodel.total_commits_by_day, row, true);
            proof {
                assert(fresh.drop_last() =~= prior);
                assert forall|day: int| #[trigger]
                    of_day(viewmodel.total_commits_by_day@, day)
                        == of_day(old(viewmodel).total_commits_by_day@, day)
                        + of_day(fresh, day) by {
                    let kept = of_day(old(viewmodel).total_commits_by_day@, day);
                    if day == row.day {
                        assert((kept + of_day(prior, day)).push(row) =~= kept + of_day(
                            prior,
                            day,
                        ).push(row));
                    }
                }
            }
            i += 1;
        }
        proof {
            assert forall|j: int| 0 <= j < fresh.len() implies self@.contains_key(
                #[trigger] fresh[j].day,
            ) && self@[fresh[j].day] == fresh[j].value && fresh[j].key@ == day_text(
                fresh[j].day as int,
            ) by {
                assert(self@.contains_key(entries@[j].0));
            }
            assert forall|k: i32| self@.contains_key(k) implies exists|j: int|
                0 <= j < fresh.len() && #[trigger] fresh[j].day == k by {
                let j = choose|j: int| 0 <= j < entries@.len() && #[trigger] entries@[j].0 == k;
                assert(fresh[j].day == k);
            }
            assert(is_commit_rows(fresh, self@));
        }
    }
}

/// The lines per day after one more commit.
pub open spec fn lines_by_day_step(m: Map<i32, LineStats>, c: GitCommit) -> Map<i32, LineStats> {
    let day = c.date.spec_day() as i32;
    let before = if m.contains_key(day) { m[day] } else { LineStats { added: 0, deleted: 0 } };
    m.insert(day, LineStats {
            added: capped(before.added + c.spec_lines_added()) as u64,
            deleted: capped(before.deleted + c.spec_lines_deleted()) as u64,
        })
}

/// Whether rows are the entries of a map of lines per day, each once.
pub open spec fn is_line_rows(rows: Seq<LinesValue>, m: Map<i32, LineStats>) -> bool {
    &&& rows.len() == m.dom().len()
    &&& forall|j: int|
        0 <= j < rows.len() ==> m.contains_key(#[trigger] rows[j].day)
            && rows[j].lines_added == m[rows[j].day].added
            && rows[j].lines_deleted == m[rows[j].day].deleted
            && rows[j].key@ == day_text(rows[j].day as int)
    &&& forall|i: int, j: int| 0 <= i < j < rows.len() ==> rows[i].day != rows[j].day
    &&& forall|k: i32|
        m.contains_key(k) ==> exists|j: int| 0 <= j < rows.len() && #[trigger] rows[j].day == k
}

/// Sums the lines added and deleted on each day.
pub struct TotalLinesByDayCollector {
    pub total_lines_by_day: HashMap<i32, LineStats>,
}

impl View for TotalLinesByDayCollector {
    type V = Map<i32, LineStats>;

    open spec fn view(&self) -> Map<i32, LineStats> {
        self.total_lines_by_day@
    }
}

impl TotalLinesByDayCollector {
    /// Every day held can be printed.
    pub open spec fn wf(&self) -> bool {
        days_in_range(self@)
    }

    /// The state before any commit.
    pub fn default() -> (r: TotalLinesByDayCollector)
        ensures
            r@ == Map::<i32, LineStats>::empty(),
            r.wf(),
    {
        TotalLinesByDayCollector { total_lines_by_day: HashMap::new() }
    }

    /// Takes in one commit.
    pub fn process(&mut self, commit: &GitCommit)
        requires
            commit.wf(),
            old(self).wf(),
        ensures
            final(self)@ == lines_by_day_step(old(self)@, *commit),
            final(self).wf(),
    {
        let added: u64 = commit.total_lines_added();
        let deleted: u64 = commit.total_lines_deleted();
        let stat = self.total_lines_by_day.entry(commit.day_key()).or_insert(
            LineStats { added: 0, deleted: 0 },
        );
        stat.added = stat.added.saturating_add(added);
        stat.deleted = stat.deleted.saturating_add(deleted);
    }

    /// Sorts the lines per day of the report and adds a row for each day held,
    /// so that the whole list is in ascending order of days.
    pub fn update(&self, viewmodel: &mut GitStatsViewModel)
        requires
            self.wf(),
        ensures
            line_rows_written(self@, *old(viewmodel), *final(viewmodel)),
    {
        let entries = entries_of(&self.total_lines_by_day);
        sort_by_day(&mut viewmodel.total_lines_by_day);
        let ghost mut fresh: Seq<LinesValue> = Seq::empty();
        proof {
            lemma_empty_multiset(fresh);
            assert forall|day: int| #[trigger]
                of_day(viewmodel.total_lines_by_day@, day)
                    == of_day(old(viewmodel).total_lines_by_day@, day)
                    + of_day(fresh, day) by {
                assert(of_day(old(viewmodel).total_lines_by_day@, day)
                    + Seq::<LinesValue>::empty() =~= of_day(
                    old(viewmodel).total_lines_by_day@,
                    day,
                ));
            }
        }
        let mut i: usize = 0;
        while i < entries.len()
            invariant
                i <= entries@.len(),
                is_listing(entries@, self@),
                self.wf(),
                fresh.len() == i,
                forall|j: int|
                    0 <= j < i ==> (#[trigger] fresh[j]).day == entries@[j].0
                        && fresh[j].lines_added == entries@[j].1.added
                        && fresh[j].lines_deleted == entries@[j].1.deleted
                        && fresh[j].key@ == day_text(fresh[j].day as int),
                sorted_by_day(viewmodel.total_lines_by_day@),
                forall|day: int| #[trigger]
                    of_day(viewmodel.total_lines_by_day@, day)
                        == of_day(old(viewmodel).total_lines_by_day@, day)
                        + of_day(fresh, day),
                viewmodel.total_lines_by_day@.to_multiset()
                    =~= old(viewmodel).total_lines_by_day@.to_multiset().add(
                    fresh.to_multiset(),
                ),
                viewmodel.total_lines_by_day@.len() == old(viewmodel).total_lines_by_day@.len() + i,
                viewmodel.summary == old(viewmodel).summary,
                viewmodel.total_commits_by_day == old(viewmodel).total_commits_by_day,
                viewmodel.total_files_by_day == old(viewmodel).total_files_by_day,
                viewmodel.punch_data == old(viewmodel).punch_data,
            decreases entries@.len() - i,
        {
            let day: i32 = entries[i].0;
            let value = entries[i].1;
            assert(self@.contains_key(entries@[i as int].0));
            let row = LinesValue {
                day,
                key: day_label(day),
                lines_added: value.added,
                lines_deleted: value.deleted,
            };
            let ghost prior = fresh;
            proof {
                to_multiset_build(fresh, row);
                fresh = fresh.push(row);
            }
            insert_by_day(&mut viewmodel.total_lines_by_day, row, true);
            proof {
                assert(fresh.drop_last() =~= prior);
                assert forall|day: int| #[trigger]
                    of_day(viewmodel.total_lines_by_day@, day)
                        == of_day(old(viewmodel).total_lines_by_day@, day)
                        + of_day(fresh, day) by {
                    let kept = of_day(old(viewmodel).total_lines_by_day@, day);
                    if day == row.day {
                        assert((kept + of_day(prior, day)).push(row) =~= kept + of_day(
                            prior,
                            day,
                        ).push(row));
                    }
                }
            }
            i += 1;
        }
        proof {
            assert forall|j: int| 0 <= j < fresh.len() implies self@.contains_key(
                #[trigger] fresh[j].day,
            )
                && fresh[j].lines_added == self@[fresh[j].day].added
                && fresh[j].lines_deleted == self@[fresh[j].day].deleted
                && fresh[j].key@ == day_text(
                fresh[j].day as int,
            ) by {
                assert(self@.contains_key(entries@[j].0));
            }
            assert forall|k: i32| self@.contains_key(k) implies exists|j: int|
                0 <= j < fresh.len() && #[trigger] fresh[j].day == k by {
                let j = choose|j: int| 0 <= j < entries@.len() && #[trigger] entries@[j].0 == k;
                assert(fresh[j].day == k);
            }
            assert(is_line_rows(fresh, self@));
        }
    }
}

/// The files per day after one more commit.
pub open spec fn files_by_day_step(m: Map<i32, FileStats>, c: GitCommit) -> Map<i32, FileStats> {
    let day = c.date.spec_day() as i32;
    let before = if m.contains_key(day) {
        m[day]
    } else {
        FileStats { added: 0, modified: 0, deleted: 0, renamed: 0 }
    };
    m.insert(day, FileStats {
            added: capped(before.added + c.spec_files(FileOperationKind::Added)) as u64,
            modified: capped(before.modified + c.spec_files(FileOperationKind::Modified)) as u64,
            deleted: capped(before.deleted + c.spec_files(FileOperationKind::Deleted)) as u64,
            renamed: capped(before.renamed + c.spec_files(FileOperationKind::Renamed)) as u64,
        })
}

/// Whether rows are the entries of a map of files per day, each once.
pub open spec fn is_file_rows(rows: Seq<FilesValue>, m: Map<i32, FileStats>) -> bool {
    &&& rows.len() == m.dom().len()
    &&& forall|j: int|
        0 <= j < rows.len() ==> m.contains_key(#[trigger] rows[j].day)
            && rows[j].files_added == m[rows[j].day].added
            && rows[j].files_modified == m[rows[j].day].modified
            && rows[j].files_deleted == m[rows[j].day].deleted
            && rows[j].files_renamed == m[rows[j].day].renamed
            && rows[j].key@ == day_text(rows[j].day as int)
    &&& forall|i: int, j: int| 0 <= i < j < rows.len() ==> rows[i].day != rows[j].day
    &&& forall|k: i32|
        m.contains_key(k) ==> exists|j: int| 0 <= j < rows.len() && #[trigger] rows[j].day == k
}

/// Counts the files added, modified, deleted and renamed on each day.
pub struct TotalFilesByDayCollector {
    pub total_files_by_day: HashMap<i32, FileStats>,
}

impl View for TotalFilesByDayCollector {
    type V = Map<i32, FileStats>;

    open spec fn view(&self) -> Map<i32, FileStats> {
        self.total_files_by_day@
    }
}

impl TotalFilesByDayCollector {
    /// Every day held can be printed.
    pub open spec fn wf(&self) -> bool {
        days_in_range(self@)
    }

    /// The state before any commit.
    pub fn default() -> (r: TotalFilesByDayCollector)
        ensures
            r@ == Map::<i32, FileStats>::empty(),
            r.wf(),
    {
        TotalFilesByDayCollector { total_files_by_day: HashMap::new() }
    }

    /// Takes in one commit.
    pub fn process(&mut self, commit: &GitCommit)
        requires
            commit.wf(),
            old(self).wf(),
        ensures
            final(self)@ == files_by_day_step(old(self)@, *commit),
            final(self).wf(),
    {
        let added: u64 = commit.total_files_added();
        let deleted: u64 = commit.total_files_deleted();
        let modified: u64 = commit.total_files_modified();
        let renamed: u64 = commit.total_files_renamed();
        let stat = self.total_files_by_day.entry(commit.day_key()).or_insert(
            FileStats { added: 0, modified: 0, deleted: 0, renamed: 0 },
        );
        stat.added = stat.added.saturating_add(added);
        stat.deleted = stat.deleted.saturating_add(deleted);
        stat.modified = stat.modified.saturating_add(modified);
        stat.renamed = stat.renamed.saturating_add(renamed);
    }

    /// Sorts the files per day of the report and adds a row for each day held,
    /// so that the whole list is in ascending order of days.
    pub fn update(&self, viewmodel: &mut GitStatsViewModel)
        requires
            self.wf(),
        ensures
            file_rows_written(self@, *old(viewmodel), *final(viewmodel)),
    {
        let entries = entries_of(&self.total_files_by_day);
        sort_by_day(&mut viewmodel.total_files_by_day);
        let ghost mut fresh: Seq<FilesValue> = Seq::empty();
        proof {
            lemma_empty_multiset(fresh);
            assert forall|day: int| #[trigger]
                of_day(viewmodel.total_files_by_day@, day)
                    == of_day(old(viewmodel).total_files_by_day@, day)
                    + of_day(fresh, day) by {
                assert(of_day(old(viewmodel).total_files_by_day@, day)
                    + Seq::<FilesValue>::empty() =~= of_day(
                    old(viewmodel).total_files_by_day@,
                    day,
                ));
            }
        }
        let mut i: usize = 0;
        while i < entries.len()
            invariant
                i <= entries@.len(),
                is_listing(entries@, self@),
                self.wf(),
                fresh.len() == i,
                forall|j: int|
                    0 <= j < i ==> (#[trigger] fresh[j]).day == entries@[j].0
                        && fresh[j].files_added == entries@[j].1.added
                        && fresh[j].files_modified == entries@[j].1.modified
                        && fresh[j].files_deleted == entries@[j].1.deleted
                        && fresh[j].files_renamed == entries@[j].1.renamed
                        && fresh[j].key@ == day_text(fresh[j].day as int),
                sorted_by_day(viewmodel.total_files_by_day@),
                forall|day: int| #[trigger]
                    of_day(viewmodel.total_files_by_day@, day)
                        == of_day(old(viewmodel).total_files_by_day@, day)
                        + of_day(fresh, day),
                viewmodel.total_files_by_day@.to_multiset()
                    =~= old(viewmodel).total_files_by_day@.to_multiset().add(
                    fresh.to_multiset(),
                ),
                viewmodel.total_files_by_day@.len() == old(viewmodel).total_files_by_day@.len() + i,
                viewmodel.summary == old(viewmodel).summary,
                viewmodel.total_commits_by_day == old(viewmodel).total_commits_by_day,
                viewmodel.total_lines_by_day == old(viewmodel).total_lines_by_day,
                viewmodel.punch_data == old(viewmodel).punch_data,
            decreases entries@.len() - i,
        {
            let day: i32 = entries[i].0;
            let value = entries[i].1;
            assert(self@.contains_key(entries@[i as int].0));
            let row = FilesValue {
                day,
                key: day_label(day),
                files_added: value.added,
                files_deleted: value.deleted,
                files_modified: value.modified,
                files_renamed: value.renamed,
            };
            let ghost prior = fresh;
            proof {
                to_multiset_build(fresh, row);
                fresh = fresh.push(row);
            }
            insert_by_day(&mut viewmodel.total_files_by_day, row, true);
            proof {
                assert(fresh.drop_last() =~= prior);
                assert forall|day: int| #[trigger]
                    of_day(viewmodel.total_files_by_day@, day)
                        == of_day(old(viewmodel).total_files_by_day@, day)
                        + of_day(fresh, day) by {
                    let kept = of_day(old(viewmodel).total_files_by_day@, day);
                    if day == row.day {
                        assert((kept + of_day(prior, day)).push(row) =~= kept + of_day(
                            prior,
                            day,
                        ).push(row));
                    }
                }
            }
            i += 1;
        }
        proof {
            assert forall|j: int| 0 <= j < fresh.len() implies self@.contains_key(
                #[trigger] fresh[j].day,
            )
                && fresh[j].files_added == self@[fresh[j].day].added
                && fresh[j].files_modified == self@[fresh[j].day].modified
                && fresh[j].files_deleted == self@[fresh[j].day].deleted
                && fresh[j].files_renamed == self@[fresh[j].day].renamed
                && fresh[j].key@ == day_text(
                fresh[j].day as int,
            ) by {
                assert(self@.contains_key(entries@[j].0));
            }
            assert forall|k: i32| self@.contains_key(k) implies exists|j: int|
                0 <= j < fresh.len() && #[trigger] fresh[j].day == k by {
                let j = choose|j: int| 0 <= j < entries@.len() && #[trigger] entries@[j].0 == k;
                assert(fresh[j].day == k);
            }
            assert(is_file_rows(fresh, self@));
        }
    }
}

/// The punch card after one more commit: the cell of its weekday and hour
/// counts one more.
pub open spec fn punch_step(m: Map<i32, PunchStats>, c: GitCommit) -> Map<i32, PunchStats> {
    let key = c.spec_punch_key() as i32;
    let before = if m.contains_key(key) {
        m[key]
    } else {
        PunchStats {
            weekday: c.date.spec_weekday() as u32,
            hour: c.date.spec_hour() as u32,
            commits: 0,
        }
    };
    m.insert(
        key,
        PunchStats {
            weekday: before.weekday,
            hour: before.hour,
            commits: capped(before.commits + 1) as u64,
        },
    )
}

/// Whether rows are the cells of a punch card, each once.
pub open spec fn is_punch_rows(rows: Seq<PunchesValue>, m: Map<i32, PunchStats>) -> bool {
    &&& rows.len() == m.dom().len()
    &&& forall|j: int|
        0 <= j < rows.len() ==> {
            let key = (#[trigger] rows[j]).weekday * 24 + rows[j].hour;
            &&& m.contains_key(key as i32)
            &&& rows[j].commits == m[key as i32].commits
            &&& rows[j].weekday < 7
            &&& rows[j].hour < 24
        }
    &&& forall|i: int, j: int|
        0 <= i < j < rows.len() ==> rows[i].weekday != rows[j].weekday || rows[i].hour
            != rows[j].hour
    &&& forall|k: i32|
        m.contains_key(k) ==> exists|j: int|
            0 <= j < rows.len() && (#[trigger] rows[j]).weekday * 24 + rows[j].hour == k
}

/// Counts the commits of each hour of each weekday.
pub struct PunchCardCollector {
    pub punchcard: HashMap<i32, PunchStats>,
}

impl View for PunchCardCollector {
    type V = Map<i32, PunchStats>;

    open spec fn view(&self) -> Map<i32, PunchStats> {
        self.punchcard@
    }
}

impl PunchCardCollector {
    /// Every cell is kept under the number of its weekday and hour.
    pub open spec fn wf(&self) -> bool {
        forall|k: i32|
            self@.contains_key(k) ==> self@[k].weekday < 7 && self@[k].hour < 24 && k
                == self@[k].weekday * 24 + self@[k].hour
    }

    /// The state before any commit.
    pub fn default() -> (r: PunchCardCollector)
        ensures
            r@ == Map::<i32, PunchStats>::empty(),
            r.wf(),
    {
        PunchCardCollector { punchcard: HashMap::new() }
    }

    /// Takes in one commit.
    pub fn process(&mut self, commit: &GitCommit)
        requires
            commit.wf(),
            old(self).wf(),
        ensures
            final(self)@ == punch_step(old(self)@, *commit),
            final(self).wf(),
    {
        let weekday: u32 = commit.date.weekday();
        let hour: u32 = commit.date.hour();
        let key: u32 = commit.hour_key_by_weekday();
        let stat = self.punchcard.entry(key as i32).or_insert(
            PunchStats { weekday, hour, commits: 0 },
        );
        stat.commits = stat.commits.saturating_add(1);
    }

    /// Appends a row for each cell held to the punch card of the report, in
    /// the order in which the map hands the cells out.
    pub fn update(&self, viewmodel: &mut GitStatsViewModel)
        requires
            self.wf(),
        ensures
            punch_written(self@, *old(viewmodel), *final(viewmodel)),
    {
        let entries = entries_of(&self.punchcard);
        let ghost mut fresh: Seq<PunchesValue> = Seq::empty();
        let mut i: usize = 0;
        while i < entries.len()
            invariant
                i <= entries@.len(),
                is_listing(entries@, self@),
                self.wf(),
                fresh.len() == i,
                forall|j: int|
                    0 <= j < i ==> (#[trigger] fresh[j]).weekday == entries@[j].1.weekday
                        && fresh[j].hour == entries@[j].1.hour && fresh[j].commits
                        == entries@[j].1.commits,
                viewmodel.punch_data@ =~= old(viewmodel).punch_data@ + fresh,
                viewmodel.summary == old(viewmodel).summary,
                viewmodel.total_commits_by_day == old(viewmodel).total_commits_by_day,
                viewmodel.total_lines_by_day == old(viewmodel).total_lines_by_day,
                viewmodel.total_files_by_day == old(viewmodel).total_files_by_day,
            decreases entries@.len() - i,
        {
            let value = entries[i].1;
            let row = PunchesValue {
                weekday: value.weekday,
                hour: value.hour,
                commits: value.commits,
            };
            proof {
                fresh = fresh.push(row);
            }
            viewmodel.punch_data.push(row);
            i += 1;
        }
        proof {
            assert forall|j: int| 0 <= j < fresh.len() implies {
                let key = (#[trigger] fresh[j]).weekday * 24 + fresh[j].hour;
                &&& self@.contains_key(key as i32)
                &&& fresh[j].commits == self@[key as i32].commits
                &&& fresh[j].weekday < 7
                &&& fresh[j].hour < 24
            } by {
                assert(self@.contains_key(entries@[j].0));
            }
            assert forall|i: int, j: int| 0 <= i < j < fresh.len() implies fresh[i].weekday
                != fresh[j].weekday || fresh[i].hour != fresh[j].hour by {
                assert(self@.contains_key(entries@[i].0));
                assert(self@.contains_key(entries@[j].0));
            }
            assert forall|k: i32| self@.contains_key(k) implies exists|j: int|
                0 <= j < fresh.len() && (#[trigger] fresh[j]).weekday * 24 + fresh[j].hour
                    == k by {
                let j = choose|j: int| 0 <= j < entries@.len() && #[trigger] entries@[j].0 == k;
                assert(fresh[j].weekday * 24 + fresh[j].hour == k);
            }
            assert(is_punch_rows(fresh, self@));
            assert(viewmodel.punch_data@ == old(viewmodel).punch_data@ + fresh);
        }
    }
}

/// The paths of the files of a list of file operations.
pub open spec fn paths_of(ops: Seq<FileOperation>) -> Seq<Seq<char>> {
    Seq::new(ops.len(), |j: int| ops[j].file@)
}

/// The paths of each list of files.
pub open spec fn window_paths(recent: Seq<Vec<String>>) -> Seq<Seq<Seq<char>>> {
    Seq::new(recent.len(), |i: int| Seq::new(recent[i]@.len(), |j: int| recent[i]@[j]@))
}

/// The last `window` lists of a sequence of lists.
pub open spec fn trailing(all: Seq<Seq<Seq<char>>>, window: int) -> Seq<Seq<Seq<char>>> {
    if all.len() > window {
        all.subrange(all.len() - window, all.len() as int)
    } else {
        all
    }
}

/// Keeps the files of the most recent commits, for a detector of files that
/// change together. It writes nothing to the report.
pub struct SimilarFilesChangingCollector {
    pub window: usize,
    pub recent: Vec<Vec<String>>,
}

impl SimilarFilesChangingCollector {
    /// No more lists are kept than the window allows.
    pub open spec fn wf(&self) -> bool {
        self.recent@.len() <= self.window
    }

    /// A collector over the last ten commits.
    pub fn _default() -> (r: SimilarFilesChangingCollector)
        ensures
            r.window == 10,
            r.recent@.len() == 0,
            r.wf(),
    {
        SimilarFilesChangingCollector { window: 10, recent: Vec::new() }
    }

    /// Takes in the paths of the commit's files and drops the oldest list
    /// once more than `window` are held.
    pub fn process(&mut self, commit: &GitCommit)
        requires
            old(self).wf(),
        ensures
            final(self).wf(),
            final(self).window == old(self).window,
            window_paths(final(self).recent@) == trailing(
                window_paths(old(self).recent@).push(paths_of(commit.file_operations@)),
                old(self).window as int,
            ),
    {
        let mut files: Vec<String> = Vec::new();
        let mut i: usize = 0;
        while i < commit.file_operations.len()
            invariant
                i <= commit.file_operations@.len(),
                files@.len() == i,
                forall|j: int| 0 <= j < i ==> (#[trigger] files@[j])@
                    == commit.file_operations@[j].file@,
            decreases commit.file_operations@.len() - i,
        {
            files.push(commit.file_operations[i].file.clone());
            i += 1;
        }
        let ghost before = self.recent@;
        self.recent.push(files);
        let ghost pushed = self.recent@;
        proof {
            assert(window_paths(pushed) =~= window_paths(before).push(
                paths_of(commit.file_operations@),
            )) by {
                assert(window_paths(pushed).last() =~= paths_of(commit.file_operations@));
            }
        }
        if self.recent.len() > self.window {
            self.recent.remove(0);
            proof {
                assert(window_paths(self.recent@) =~= trailing(
                    window_paths(pushed),
                    self.window as int,
                ));
            }
        }
    }

    /// Writes nothing.
    pub fn update(&self, viewmodel: &mut GitStatsViewModel)
        ensures
            *final(viewmodel) == *old(viewmodel),
    {
    }
}

/// The summary collector has written: five rows more at the end of the summary,
/// and the rest of the report as it was.
pub open spec fn summary_written(
    m: SummaryModel,
    before: GitStatsViewModel,
    after: GitStatsViewModel,
) -> bool {
    &&& after.summary@.len() == before.summary@.len() + 5
    &&& after.summary@.take(before.summary@.len() as int) == before.summary@
    &&& row_is(
        after.summary@[before.summary@.len() as int],
        "First committer"@,
        m.first_committer
    )
    &&& row_is(
        after.summary@[before.summary@.len() as int + 1],
        "Date of first commit"@,
        m.date_first_commit
    )
    &&& row_is(
        after.summary@[before.summary@.len() as int + 2],
        "Number of commits_collection"@,
        decimal_text(m.commit_count as nat)
    )
    &&& row_is(
        after.summary@[before.summary@.len() as int + 3],
        "Total lines_collection added"@,
        decimal_text(m.total_lines_added as nat)
    )
    &&& row_is(
        after.summary@[before.summary@.len() as int + 4],
        "Total lines_collection deleted"@,
        decimal_text(m.total_lines_deleted as nat)
    )
    &&& after.total_commits_by_day == before.total_commits_by_day
    &&& after.total_lines_by_day == before.total_lines_by_day
    &&& after.total_files_by_day == before.total_files_by_day
    &&& after.punch_data == before.punch_data
}

/// The message collector has written: six rows more at the end of the summary,
/// the sizes printed in byte units, and the rest of the report as it was.
pub open spec fn messages_written(
    m: MessageStatsCollector,
    before: GitStatsViewModel,
    after: GitStatsViewModel,
) -> bool {
    &&& after.summary@.len() == before.summary@.len() + 6
    &&& after.summary@.take(before.summary@.len() as int) == before.summary@
    &&& row_is(
        after.summary@[before.summary@.len() as int],
        "Total size of all commit messages"@,
        byte_size_text(m.total_message_size as int)
    )
    &&& row_is(
        after.summary@[before.summary@.len() as int + 1],
        "Total number of lines_collection across all commit messages"@,
        decimal_text(m.total_message_lines as nat)
    )
    &&& row_is(
        after.summary@[before.summary@.len() as int + 2],
        "Max number of lines_collection in a commit message"@,
        decimal_text(m.message_stats.max_lines as nat)
    )
    &&& row_is(
        after.summary@[before.summary@.len() as int + 3],
        "Max size of a commit message"@,
        byte_size_text(m.message_stats.max_size as int)
    )
    &&& row_is(
        after.summary@[before.summary@.len() as int + 4],
        "Avg number of lines_collection in a commit message"@,
        decimal_text(m.message_stats.avg_lines as nat)
    )
    &&& row_is(
        after.summary@[before.summary@.len() as int + 5],
        "Avg size of a commit message"@,
        byte_size_text(m.message_stats.avg_size as int)
    )
    &&& after.total_commits_by_day == before.total_commits_by_day
    &&& after.total_lines_by_day == before.total_lines_by_day
    &&& after.total_files_by_day == before.total_files_by_day
    &&& after.punch_data == before.punch_data
}

/// The commits per day have been written: the list is in ascending order of
/// days and holds what it held before, in the same order within each day, and
/// one row for each day of the map, behind the rows of that day that were there.
pub open spec fn commit_rows_written(
    m: Map<i32, u64>,
    before: GitStatsViewModel,
    after: GitStatsViewModel,
) -> bool {
    &&& sorted_by_day(after.total_commits_by_day@)
    &&& exists|fresh: Seq<KeyValue>|
        is_commit_rows(fresh, m) && after.total_commits_by_day@.to_multiset()
            =~= before.total_commits_by_day@.to_multiset().add(
            #[trigger] fresh.to_multiset(),
        ) && forall|day: int|
            #[trigger] of_day(after.total_commits_by_day@, day) == of_day(
                before.total_commits_by_day@,
                day,
            ) + of_day(fresh, day)
    &&& after.total_commits_by_day@.len() == before.total_commits_by_day@.len()
        + m.dom().len()
    &&& after.summary == before.summary
    &&& after.total_lines_by_day == before.total_lines_by_day
    &&& after.total_files_by_day == before.total_files_by_day
    &&& after.punch_data == before.punch_data
}

/// The lines per day have been written: the list is in ascending order of
/// days and holds what it held before, in the same order within each day, and
/// one row for each day of the map, behind the rows of that day that were there.
pub open spec fn line_rows_written(
    m: Map<i32, LineStats>,
    before: GitStatsViewModel,
    after: GitStatsViewModel,
) -> bool {
    &&& sorted_by_day(after.total_lines_by_day@)
    &&& exists|fresh: Seq<LinesValue>|
        is_line_rows(fresh, m) && after.total_lines_by_day@.to_multiset()
            =~= before.total_lines_by_day@.to_multiset().add(#[trigger] fresh.to_multiset())
            && forall|day: int|
            #[trigger] of_day(after.total_lines_by_day@, day)
                == of_day(before.total_lines_by_day@, day) + of_day(
                fresh,
                day,
            )
    &&& after.total_lines_by_day@.len() == before.total_lines_by_day@.len() + m.dom().len()
    &&& after.summary == before.summary
    &&& after.total_commits_by_day == before.total_commits_by_day
    &&& after.total_files_by_day == before.total_files_by_day
    &&& after.punch_data == before.punch_data
}

/// The files per day have been written: the list is in ascending order of
/// days and holds what it held before, in the same order within each day, and
/// one row for each day of the map, behind the rows of that day that were there.
pub open spec fn file_rows_written(
    m: Map<i32, FileStats>,
    before: GitStatsViewModel,
    after: GitStatsViewModel,
) -> bool {
    &&& sorted_by_day(after.total_files_by_day@)
    &&& exists|fresh: Seq<FilesValue>|
        is_file_rows(fresh, m) && after.total_files_by_day@.to_multiset()
            =~= before.total_files_by_day@.to_multiset().add(#[trigger] fresh.to_multiset())
            && forall|day: int|
            #[trigger] of_day(after.total_files_by_day@, day)
                == of_day(before.total_files_by_day@, day) + of_day(
                fresh,
                day,
            )
    &&& after.total_files_by_day@.len() == before.total_files_by_day@.len() + m.dom().len()
    &&& after.summary == before.summary
    &&& after.total_commits_by_day == before.total_commits_by_day
    &&& after.total_lines_by_day == before.total_lines_by_day
    &&& after.punch_data == before.punch_data
}

/// The punch card has been written: behind the rows that were there stands one
/// row for each cell of the map.
pub open spec fn punch_written(
    m: Map<i32, PunchStats>,
    before: GitStatsViewModel,
    after: GitStatsViewModel,
) -> bool {
    &&& exists|fresh: Seq<PunchesValue>|
        #[trigger] is_punch_rows(fresh, m) && after.punch_data@ == before.punch_data@ + fresh
    &&& after.summary == before.summary
    &&& after.total_commits_by_day == before.total_commits_by_day
    &&& after.total_lines_by_day == before.total_lines_by_day
    &&& after.total_files_by_day == before.total_files_by_day
}

/// What a collector of the given state writes to a report.
pub open spec fn model_written(
    m: CollectorModel,
    before: GitStatsViewModel,
    after: GitStatsViewModel,
) -> bool {
    match m {
        CollectorModel::Summary(s) => summary_written(s, before, after),
        CollectorModel::CommitsByDay(d) => commit_rows_written(d, before, after),
        CollectorModel::LinesByDay(d) => line_rows_written(d, before, after),
        CollectorModel::Messages(s) => messages_written(s, before, after),
        CollectorModel::FilesByDay(d) => file_rows_written(d, before, after),
        CollectorModel::PunchCard(p) => punch_written(p, before, after),
        CollectorModel::SimilarFiles { window, paths } => after == before,
        CollectorModel::FileExtensions(h) => after == before,
    }
}

/// What collectors of the given states write to a report, one after the
/// other.
pub open spec fn all_written(
    models: Seq<CollectorModel>,
    before: GitStatsViewModel,
    after: GitStatsViewModel,
) -> bool
    decreases models.len(),
{
    if models.len() == 0 {
        after == before
    } else {
        exists|mid: GitStatsViewModel|
            all_written(models.drop_last(), before, mid) && #[trigger] model_written(
                models.last(),
                mid,
                after,
            )
    }
}

/// The states of a list of collectors.
pub open spec fn models_of(collectors: Seq<StatCollector>) -> Seq<CollectorModel> {
    Seq::new(collectors.len(), |i: int| collectors[i]@)
}

/// The counts of a histogram of extensions, as a map that gives 0 to an
/// extension never seen.
pub open spec fn extension_counts(entries: Seq<ExtensionCount>) -> Map<Seq<char>, int> {
    Map::total(|name: Seq<char>| count_of(entries, name))
}

/// The histogram of extensions after one more commit.
pub open spec fn extension_counts_step(m: Map<Seq<char>, int>, c: GitCommit) -> Map<
    Seq<char>,
    int,
> {
    Map::total(|name: Seq<char>| capped(m[name] + touches(c.file_operations@, name)))
}

/// What a collector holds, as mathematical values.
pub ghost enum CollectorModel {
    Summary(SummaryModel),
    CommitsByDay(Map<i32, u64>),
    LinesByDay(Map<i32, LineStats>),
    Messages(MessageStatsCollector),
    FilesByDay(Map<i32, FileStats>),
    PunchCard(Map<i32, PunchStats>),
    SimilarFiles { window: int, paths: Seq<Seq<Seq<char>>> },
    FileExtensions(Map<Seq<char>, int>),
}

/// What a collector holds after it has processed one more commit.
pub open spec fn model_step(m: CollectorModel, c: GitCommit) -> CollectorModel {
    match m {
        CollectorModel::Summary(s) => CollectorModel::Summary(summary_step(s, c)),
        CollectorModel::CommitsByDay(d) => CollectorModel::CommitsByDay(commits_by_day_step(d, c)),
        CollectorModel::LinesByDay(d) => CollectorModel::LinesByDay(lines_by_day_step(d, c)),
        CollectorModel::Messages(s) => CollectorModel::Messages(s.after(c)),
        CollectorModel::FilesByDay(d) => CollectorModel::FilesByDay(files_by_day_step(d, c)),
        CollectorModel::PunchCard(p) => CollectorModel::PunchCard(punch_step(p, c)),
        CollectorModel::SimilarFiles { window, paths } => CollectorModel::SimilarFiles {
            window,
            paths: trailing(paths.push(paths_of(c.file_operations@)), window),
        },
        CollectorModel::FileExtensions(h) => CollectorModel::FileExtensions(
            extension_counts_step(h, c),
        ),
    }
}

/// What a collector holds after it has processed the commits in their order.
pub open spec fn model_run(m: CollectorModel, commits: Seq<GitCommit>) -> CollectorModel
    decreases commits.len(),
{
    if commits.len() == 0 {
        m
    } else {
        model_step(model_run(m, commits.drop_last()), commits.last())
    }
}

/// One collector of any kind.
pub enum StatCollector {
    Summary(SummaryStatsCollector),
    CommitsByDay(TotalCommitsByDayCollector),
    LinesByDay(TotalLinesByDayCollector),
    Messages(MessageStatsCollector),
    FilesByDay(TotalFilesByDayCollector),
    PunchCard(PunchCardCollector),
    SimilarFiles(SimilarFilesChangingCollector),
    FileExtensions(CommitsByFileExtension),
}

impl View for StatCollector {
    type V = CollectorModel;

    open spec fn view(&self) -> CollectorModel {
        match self {
            StatCollector::Summary(c) => CollectorModel::Summary(c@),
            StatCollector::CommitsByDay(c) => CollectorModel::CommitsByDay(c@),
            StatCollector::LinesByDay(c) => CollectorModel::LinesByDay(c@),
            StatCollector::Messages(c) => CollectorModel::Messages(*c),
            StatCollector::FilesByDay(c) => CollectorModel::FilesByDay(c@),
            StatCollector::PunchCard(c) => CollectorModel::PunchCard(c@),
            StatCollector::SimilarFiles(c) => CollectorModel::SimilarFiles {
                window: c.window as int,
                paths: window_paths(c.recent@),
            },
            StatCollector::FileExtensions(c) => CollectorModel::FileExtensions(
                extension_counts(c@),
            ),
        }
    }
}

impl StatCollector {
    /// The collector's own invariant.
    pub open spec fn wf(&self) -> bool {
        match self {
            StatCollector::Summary(_) => true,
            StatCollector::CommitsByDay(c) => c.wf(),
            StatCollector::LinesByDay(c) => c.wf(),
            StatCollector::Messages(_) => true,
            StatCollector::FilesByDay(c) => c.wf(),
            StatCollector::PunchCard(c) => c.wf(),
            StatCollector::SimilarFiles(c) => c.wf(),
            StatCollector::FileExtensions(c) => c.wf(),
        }
    }

    /// Hands the commit to the collector.
    pub fn process(&mut self, commit: &GitCommit)
        requires
            commit.wf(),
            old(self).wf(),
        ensures
            final(self).wf(),
            final(self)@ == model_step(old(self)@, *commit),
    {
        match self {
            StatCollector::Summary(c) => c.process(commit),
            StatCollector::CommitsByDay(c) => c.process(commit),
            StatCollector::LinesByDay(c) => c.process(commit),
            StatCollector::Messages(c) => c.process(commit),
            StatCollector::FilesByDay(c) => c.process(commit),
            StatCollector::PunchCard(c) => c.process(commit),
            StatCollector::SimilarFiles(c) => c.process(commit),
            StatCollector::FileExtensions(c) => {
                let ghost before = c@;
                c.process(commit);
                proof {
                    assert(extension_counts(c@) =~= extension_counts_step(
                        extension_counts(before),
                        *commit,
                    ));
                }
            },
        }
    }

    /// Lets the collector write its part of the report.
    pub fn update(&self, viewmodel: &mut GitStatsViewModel)
        requires
            self.wf(),
        ensures
            model_written(self@, *old(viewmodel), *final(viewmodel)),
    {
        match self {
            StatCollector::Summary(c) => c.update(viewmodel),
            StatCollector::CommitsByDay(c) => c.update(viewmodel),
            StatCollector::LinesByDay(c) => c.update(viewmodel),
            StatCollector::Messages(c) => c.update(viewmodel),
            StatCollector::FilesByDay(c) => c.update(viewmodel),
            StatCollector::PunchCard(c) => c.update(viewmodel),
            StatCollector::SimilarFiles(c) => c.update(viewmodel),
            StatCollector::FileExtensions(c) => c.update(viewmodel),
        }
    }
}

/// The collectors of a report, fresh, in the order in which they write it:
/// summary, commits per day, lines per day, message statistics, files per
/// day, punch card.
pub fn create_stat_collectors() -> (r: Vec<StatCollector>)
    ensures
        r@.len() == 6,
        forall|i: int| 0 <= i < 6 ==> (#[trigger] r@[i]).wf(),
        r@[0]@ == CollectorModel::Summary(empty_summary()),
        r@[1]@ == CollectorModel::CommitsByDay(Map::empty()),
        r@[2]@ == CollectorModel::LinesByDay(Map::empty()),
        r@[3]@ == CollectorModel::Messages(empty_messages()),
        r@[4]@ == CollectorModel::FilesByDay(Map::empty()),
        r@[5]@ == CollectorModel::PunchCard(Map::empty()),
{
    let mut collectors: Vec<StatCollector> = Vec::new();
    collectors.push(StatCollector::Summary(SummaryStatsCollector::default()));
    collectors.push(StatCollector::CommitsByDay(TotalCommitsByDayCollector::default()));
    collectors.push(StatCollector::LinesByDay(TotalLinesByDayCollector::default()));
    collectors.push(StatCollector::Messages(MessageStatsCollector::default()));
    collectors.push(StatCollector::FilesByDay(TotalFilesByDayCollector::default()));
    collectors.push(StatCollector::PunchCard(PunchCardCollector::default()));
    collectors
}

/// The summary before any commit.
pub open spec fn empty_summary() -> SummaryModel {
    SummaryModel {
        commit_count: 0,
        first_committer: Seq::<char>::empty(),
        date_first_commit: Seq::<char>::empty(),
        total_lines_added: 0,
        total_lines_deleted: 0,
    }
}

/// The message statistics before any commit.
pub open spec fn empty_messages() -> MessageStatsCollector {
    MessageStatsCollector {
        count: 0,
        total_message_lines: 0,
        total_message_size: 0,
        message_stats: MessageStats {
            max_size: 0,
            max_lines: 0,
            min_size: 0,
            min_lines: 0,
            avg_size: 0,
            avg_lines: 0,
        },
    }
}

} // verus!
