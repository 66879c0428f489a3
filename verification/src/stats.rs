//! The running statistics that the collectors keep.

use vstd::prelude::*;

verus! {

/// Totals over a whole history.
#[derive(Debug)]
pub struct SummaryStats {
    pub commit_count: u64,
    pub first_committer: String,
    pub date_first_commit: String,
    pub total_lines_added: u64,
    pub total_lines_deleted: u64,
}

/// What a `SummaryStats` holds, as mathematical values.
pub ghost struct SummaryModel {
    pub commit_count: int,
    pub first_committer: Seq<char>,
    pub date_first_commit: Seq<char>,
    pub total_lines_added: int,
    pub total_lines_deleted: int,
}

impl View for SummaryStats {
    type V = SummaryModel;

    open spec fn view(&self) -> SummaryModel {
        SummaryModel {
            commit_count: self.commit_count as int,
            first_committer: self.first_committer@,
            date_first_commit: self.date_first_commit@,
            total_lines_added: self.total_lines_added as int,
            total_lines_deleted: self.total_lines_deleted as int,
        }
    }
}

impl Default for SummaryStats {
    /// No commit seen yet.
    fn default() -> (r: SummaryStats)
        ensures
            r@ == (SummaryModel {
                commit_count: 0,
                first_committer: Seq::<char>::empty(),
                date_first_commit: Seq::<char>::empty(),
                total_lines_added: 0,
                total_lines_deleted: 0,
            }),
    {
        SummaryStats {
            commit_count: 0,
            first_committer: String::new(),
            date_first_commit: String::new(),
            total_lines_added: 0,
            total_lines_deleted: 0,
        }
    }
}

/// Extremes and averages of commit messages.
#[derive(Clone, Copy, Debug)]
pub struct MessageStats {
    pub max_size: u64,
    pub max_lines: u64,
    pub min_size: u64,
    pub min_lines: u64,
    pub avg_size: u64,
    pub avg_lines: u64,
}

impl Default for MessageStats {
    /// The state before any commit.
    fn default() -> (r: MessageStats)
        ensures
            r == (MessageStats {
                max_size: 0,
                max_lines: 0,
                min_size: 0,
                min_lines: 0,
                avg_size: 0,
                avg_lines: 0,
            }),
    {
        MessageStats {
            max_size: 0,
            max_lines: 0,
            min_size: 0,
            min_lines: 0,
            avg_size: 0,
            avg_lines: 0,
        }
    }
}

/// Lines changed.
#[derive(Clone, Copy, Debug)]
pub struct LineStats {
    pub added: u64,
    pub deleted: u64,
}

/// Files changed.
#[derive(Clone, Copy, Debug)]
pub struct FileStats {
    pub added: u64,
    pub modified: u64,
    pub deleted: u64,
    pub renamed: u64,
}

/// Commits of one weekday and hour.
#[derive(Clone, Copy, Debug)]
pub struct PunchStats {
    pub weekday: u32,
    pub hour: u32,
    pub commits: u64,
}

} // verus!
