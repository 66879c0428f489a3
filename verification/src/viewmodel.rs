//! The report that the collectors fill in.

use vstd::prelude::*;
use vstd::seq_lib::{to_multiset_build, to_multiset_insert};
use vstd::multiset::{Multiset, lemma_multiset_empty_len};

verus! {

/// One named value of the summary.
#[derive(Debug)]
pub struct SummaryViewModel {
    pub name: String,
    pub value: String,
}

/// Commits of one day. `day` is the day number, `key` its ISO date.
#[derive(Debug)]
pub struct KeyValue {
    pub day: i32,
    pub key: String,
    pub value: u64,
}

/// Lines changed on one day.
#[derive(Debug)]
pub struct LinesValue {
    pub day: i32,
    pub key: String,
    pub lines_added: u64,
    pub lines_deleted: u64,
}

/// Files changed on one day.
#[derive(Debug)]
pub struct FilesValue {
    pub day: i32,
    pub key: String,
    pub files_added: u64,
    pub files_deleted: u64,
    pub files_modified: u64,
    pub files_renamed: u64,
}

/// Commits of one weekday and hour.
#[derive(Clone, Copy, Debug)]
pub struct PunchesValue {
    pub weekday: u32,
    pub hour: u32,
    pub commits: u64,
}

/// One block of the JSON export.
#[derive(Debug)]
pub struct GitStatsJsonViewModelItem {
    pub summary: Vec<SummaryViewModel>,
    pub key: String,
    pub data: serde_json::Value,
}

/// The whole report.
#[derive(Debug)]
pub struct GitStatsViewModel {
    pub summary: Vec<SummaryViewModel>,
    pub total_commits_by_day: Vec<KeyValue>,
    pub total_lines_by_day: Vec<LinesValue>,
    pub total_files_by_day: Vec<FilesValue>,
    pub punch_data: Vec<PunchesValue>,
}

/// Whether a report has nothing in it.
pub open spec fn is_empty_report(r: GitStatsViewModel) -> bool {
    &&& r.summary@.len() == 0
    &&& r.total_commits_by_day@.len() == 0
    &&& r.total_lines_by_day@.len() == 0
    &&& r.total_files_by_day@.len() == 0
    &&& r.punch_data@.len() == 0
}

impl Default for GitStatsViewModel {
    /// The empty report.
    fn default() -> (r: GitStatsViewModel)
        ensures
            is_empty_report(r),
    {
        GitStatsViewModel {
            summary: Vec::new(),
            total_commits_by_day: Vec::new(),
            total_lines_by_day: Vec::new(),
            total_files_by_day: Vec::new(),
            punch_data: Vec::new(),
        }
    }
}

/// A row of a day series.
pub trait DayKeyed {
    /// The day the row stands for.
    spec fn spec_day(&self) -> int;

    /// The day the row stands for.
    fn day_number(&self) -> (r: i32)
        ensures
            r == self.spec_day(),
    ;
}

impl DayKeyed for KeyValue {
    open spec fn spec_day(&self) -> int {
        self.day as int
    }

    /// The day the row stands for.
    fn day_number(&self) -> (r: i32) {
        self.day
    }
}

impl DayKeyed for LinesValue {
    open spec fn spec_day(&self) -> int {
        self.day as int
    }

    /// The day the row stands for.
    fn day_number(&self) -> (r: i32) {
        self.day
    }
}

impl DayKeyed for FilesValue {
    open spec fn spec_day(&self) -> int {
        self.day as int
    }

    /// The day the row stands for.
    fn day_number(&self) -> (r: i32) {
        self.day
    }
}

/// Rows in ascending order of their days.
pub open spec fn sorted_by_day<R: DayKeyed>(rows: Seq<R>) -> bool {
    forall|i: int, j: int| 0 <= i <= j < rows.len() ==> rows[i].spec_day() <= rows[j].spec_day()
}

/// An empty list holds nothing.
pub(crate) proof fn lemma_empty_multiset<R>(rows: Seq<R>)
    requires
        rows.len() == 0,
    ensures
        rows.to_multiset() =~= Multiset::<R>::empty(),
{
    rows.to_multiset_ensures();
    lemma_multiset_empty_len(rows.to_multiset());
}

/// The rows of one day, in their order.
pub open spec fn of_day<R: DayKeyed>(rows: Seq<R>, day: int) -> Seq<R>
    decreases rows.len(),
{
    if rows.len() == 0 {
        Seq::empty()
    } else if rows.last().spec_day() == day {
        of_day(rows.drop_last(), day).push(rows.last())
    } else {
        of_day(rows.drop_last(), day)
    }
}

/// The rows of one day in two lists put together are those of the first and
/// then those of the second.
pub(crate) proof fn lemma_of_day_add<R: DayKeyed>(a: Seq<R>, b: Seq<R>, day: int)
    ensures
        of_day(a + b, day) == of_day(a, day) + of_day(b, day),
    decreases b.len(),
{
    if b.len() == 0 {
        assert(a + b =~= a);
        assert(of_day(a, day) + of_day(b, day) =~= of_day(a, day));
    } else {
        lemma_of_day_add(a, b.drop_last(), day);
        assert((a + b).drop_last() =~= a + b.drop_last());
        assert((a + b).last() == b.last());
        if b.last().spec_day() == day {
            assert(of_day(a, day) + of_day(b, day) =~= (of_day(a, day) + of_day(
                b.drop_last(),
                day,
            )).push(b.last()));
        }
    }
}

/// A list without a row of the day has no rows of that day.
pub(crate) proof fn lemma_of_day_none<R: DayKeyed>(rows: Seq<R>, day: int)
    requires
        forall|i: int| 0 <= i < rows.len() ==> (#[trigger] rows[i]).spec_day() != day,
    ensures
        of_day(rows, day) == Seq::<R>::empty(),
    decreases rows.len(),
{
    if rows.len() > 0 {
        assert forall|i: int| 0 <= i < rows.drop_last().len() implies (
        #[trigger] rows.drop_last()[i]).spec_day() != day by {
            assert(rows.drop_last()[i] == rows[i]);
        }
        lemma_of_day_none(rows.drop_last(), day);
        assert(rows[rows.len() - 1].spec_day() != day);
    }
}

/// A row put at its place joins the rows of its day, at their end if
/// `behind_equal` and at their head if not, and leaves the other days alone.
pub(crate) proof fn lemma_of_day_insert<R: DayKeyed>(
    rows: Seq<R>,
    row: R,
    behind_equal: bool,
    at: int,
    day: int,
)
    requires
        is_place(rows, row.spec_day(), behind_equal, at),
    ensures
        of_day(rows.insert(at, row), day) == if day != row.spec_day() {
            of_day(rows, day)
        } else if behind_equal {
            of_day(rows, day).push(row)
        } else {
            seq![row] + of_day(rows, day)
        },
{
    let head = rows.take(at);
    let tail = rows.skip(at);
    let one = seq![row];
    assert(rows.insert(at, row) =~= head + one + tail);
    assert(rows =~= head + tail);
    lemma_of_day_add(head + one, tail, day);
    lemma_of_day_add(head, one, day);
    lemma_of_day_add(head, tail, day);
    assert(one.drop_last() =~= Seq::<R>::empty());
    assert(of_day(one.drop_last(), day) =~= Seq::<R>::empty());
    if day != row.spec_day() {
        assert(of_day(one, day) =~= Seq::<R>::empty());
        assert(of_day(head, day) + of_day(one, day) =~= of_day(head, day));
    } else {
        assert(of_day(one, day) =~= one);
        if behind_equal {
            assert forall|i: int| 0 <= i < tail.len() implies (#[trigger] tail[i]).spec_day()
                != day by {
                assert(tail[i] == rows[at + i]);
            }
            lemma_of_day_none(tail, day);
            assert(of_day(head, day) + one + Seq::<R>::empty() =~= of_day(head, day).push(row));
            assert(of_day(head, day) + Seq::<R>::empty() =~= of_day(head, day));
        } else {
            assert forall|i: int| 0 <= i < head.len() implies (#[trigger] head[i]).spec_day()
                != day by {
                assert(head[i] == rows[i]);
            }
            lemma_of_day_none(head, day);
            assert(Seq::<R>::empty() + one + of_day(tail, day) =~= one + of_day(tail, day));
            assert(Seq::<R>::empty() + of_day(tail, day) =~= of_day(tail, day));
        }
    }
}

/// Whether `at` is the place of a row of the given day in a sorted list:
/// behind the rows of earlier days and before those of later days, and behind
/// the rows of the same day if `behind_equal`, before them if not.
pub open spec fn is_place<R: DayKeyed>(
    rows: Seq<R>,
    day: int,
    behind_equal: bool,
    at: int,
) -> bool {
    &&& 0 <= at <= rows.len()
    &&& forall|i: int|
        0 <= i < at ==> (#[trigger] rows[i]).spec_day() < day || (behind_equal
            && rows[i].spec_day() == day)
    &&& forall|i: int|
        at <= i < rows.len() ==> (#[trigger] rows[i]).spec_day() > day || (!behind_equal
            && rows[i].spec_day() == day)
}

/// Puts a row into a sorted list at its place: behind the rows of the same
/// day if `behind_equal`, before them if not.
pub fn insert_by_day<R: DayKeyed>(rows: &mut Vec<R>, row: R, behind_equal: bool)
    requires
        sorted_by_day(old(rows)@),
    ensures
        sorted_by_day(final(rows)@),
        exists|at: int|
            #[trigger] is_place(old(rows)@, row.spec_day(), behind_equal, at) && final(rows)@
                == old(rows)@.insert(at, row),
        forall|day: int|
            #[trigger] of_day(final(rows)@, day) == if day != row.spec_day() {
                of_day(old(rows)@, day)
            } else if behind_equal {
                of_day(old(rows)@, day).push(row)
            } else {
                seq![row] + of_day(old(rows)@, day)
            },
        final(rows)@.to_multiset() =~= old(rows)@.to_multiset().insert(row),
        final(rows)@.len() == old(rows)@.len() + 1,
{
    let day: i32 = row.day_number();
    let mut at: usize = 0;
    while at < rows.len() && (rows[at].day_number() < day || (behind_equal && rows[at].day_number()
        == day))
        invariant
            at <= rows@.len(),
            rows@ == old(rows)@,
            forall|i: int|
                0 <= i < at ==> (#[trigger] rows@[i]).spec_day() < day || (behind_equal
                    && rows@[i].spec_day() == day),
        decreases rows@.len() - at,
    {
        at += 1;
    }
    proof {
        to_multiset_insert(rows@, at as int, row);
        assert forall|i: int| at <= i < rows@.len() implies (#[trigger] rows@[i]).spec_day() > day
            || (!behind_equal && rows@[i].spec_day() == day) by {
            assert(rows@[at as int].spec_day() <= rows@[i].spec_day());
        }
        assert(is_place(rows@, day as int, behind_equal, at as int));
        assert forall|d: int| #[trigger] of_day(rows@.insert(at as int, row), d) == if d
            != row.spec_day() {
            of_day(rows@, d)
        } else if behind_equal {
            of_day(rows@, d).push(row)
        } else {
            seq![row] + of_day(rows@, d)
        } by {
            lemma_of_day_insert(rows@, row, behind_equal, at as int, d);
        }
    }
    rows.insert(at, row);
    proof {
        let before = old(rows)@;
        let after = rows@;
        assert forall|i: int, j: int| 0 <= i <= j < after.len() implies after[i].spec_day()
            <= after[j].spec_day() by {
            if i < at && j > at {
                assert(after[i] == before[i]);
                assert(after[j] == before[j - 1]);
            } else if i > at {
                assert(after[i] == before[i - 1]);
                assert(after[j] == before[j - 1]);
            } else if j < at {
                assert(after[i] == before[i]);
                assert(after[j] == before[j]);
            } else if i == at && j > at {
                assert(after[j] == before[j - 1]);
            } else if j == at && i < at {
                assert(after[i] == before[i]);
            }
        }
    }
}

/// Sorts a list of rows by day, keeping rows of one day in their order.
pub fn sort_by_day<R: DayKeyed>(rows: &mut Vec<R>)
    ensures
        sorted_by_day(final(rows)@),
        forall|day: int| of_day(final(rows)@, day) == of_day(old(rows)@, day),
        final(rows)@.to_multiset() =~= old(rows)@.to_multiset(),
        final(rows)@.len() == old(rows)@.len(),
{
    let mut sorted: Vec<R> = Vec::new();
    proof {
        lemma_empty_multiset(sorted@);
        assert(rows@ =~= rows@.take(rows@.len() as int));
        assert(rows@.skip(rows@.len() as int) =~= Seq::<R>::empty());
    }
    while rows.len() > 0
        invariant
            sorted_by_day(sorted@),
            sorted@.to_multiset().add(rows@.to_multiset()) =~= old(rows)@.to_multiset(),
            sorted@.len() + rows@.len() == old(rows)@.len(),
            rows@ == old(rows)@.take(rows@.len() as int),
            forall|day: int|
                of_day(sorted@, day) == #[trigger] of_day(
                    old(rows)@.skip(rows@.len() as int),
                    day,
                ),
        decreases rows@.len(),
    {
        let ghost before = rows@;
        let ghost held = sorted@;
        let row = rows.pop().unwrap();
        proof {
            assert(before =~= rows@.push(row));
            to_multiset_build(rows@, row);
        }
        insert_by_day(&mut sorted, row, false);
        proof {
            let all = old(rows)@;
            let k = rows@.len() as int;
            assert(rows@ =~= all.take(k));
            assert(row == all[k]);
            assert(all.skip(k) =~= seq![row] + all.skip(k + 1));
            let at = choose|at: int|
                #[trigger] is_place(held, row.spec_day(), false, at) && sorted@ == held.insert(
                    at,
                    row,
                );
            assert forall|day: int| of_day(sorted@, day) == #[trigger] of_day(
                all.skip(k),
                day,
            ) by {
                lemma_of_day_insert(held, row, false, at, day);
                lemma_of_day_add(seq![row], all.skip(k + 1), day);
                assert(seq![row].drop_last() =~= Seq::<R>::empty());
                assert(of_day(seq![row].drop_last(), day) =~= Seq::<R>::empty());
                if day == row.spec_day() {
                    assert(of_day(seq![row], day) =~= seq![row]);
                } else {
                    assert(of_day(seq![row], day) =~= Seq::<R>::empty());
                    assert(Seq::<R>::empty() + of_day(all.skip(k + 1), day) =~= of_day(
                        all.skip(k + 1),
                        day,
                    ));
                }
            }
        }
    }
    proof {
        lemma_empty_multiset(rows@);
        assert(old(rows)@.skip(0) =~= old(rows)@);
    }
    *rows = sorted;
}

} // verus!
