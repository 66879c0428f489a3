//! The commit record and the values derived from it.

use vstd::prelude::*;
use crate::calendar::{
    valid_instant, day_of, hour_of, weekday_of, date_text, format_date, day_number,
    weekday_number, hour_number, lemma_reading_bounds, MIN_SECONDS, MAX_SECONDS, MIN_DAY,
    MAX_DAY,
};

verus! {

/// A sum of counters as it is stored: capped at `u64::MAX`.
pub open spec fn capped(n: int) -> int {
    if n > u64::MAX { u64::MAX as int } else { n }
}

/// Lines added and deleted in one file by one commit.
#[derive(Clone, Copy, Debug)]
pub struct LineStat {
    pub lines_added: u64,
    pub lines_deleted: u64,
}

/// What a commit did to a file.
#[derive(Clone, Copy, Debug, PartialEq, Eq, Structural)]
pub enum FileOperationKind {
    Added,
    Modified,
    Deleted,
    Renamed,
}

/// One file touched by a commit.
#[derive(Debug)]
pub struct FileOperation {
    pub file: String,
    pub file_extension: String,
    pub op: FileOperationKind,
}

/// A point in time with its zone: seconds since the Unix epoch and the zone's
/// offset in seconds east of UTC.
#[derive(Clone, Copy, Debug)]
pub struct CommitDate {
    pub seconds: i64,
    pub offset: i32,
}

impl CommitDate {
    /// Whether the date is in the supported range.
    pub open spec fn wf(&self) -> bool {
        valid_instant(self.seconds as int, self.offset as int)
    }

    /// The day the date falls on in its zone.
    pub open spec fn spec_day(&self) -> int {
        day_of(self.seconds as int, self.offset as int)
    }

    /// The hour of the day in its zone.
    pub open spec fn spec_hour(&self) -> int {
        hour_of(self.seconds as int, self.offset as int)
    }

    /// The weekday in its zone, 0 for Sunday.
    pub open spec fn spec_weekday(&self) -> int {
        weekday_of(self.seconds as int, self.offset as int)
    }

    /// The date as text.
    pub open spec fn spec_text(&self) -> Seq<char> {
        date_text(self.seconds as int, self.offset as int)
    }

    /// A date from its two parts, if they are in the supported range.
    pub fn new(seconds: i64, offset: i32) -> (r: Option<CommitDate>)
        ensures
            r is Some <==> valid_instant(seconds as int, offset as int),
            r matches Some(d) ==> d.seconds == seconds && d.offset == offset,
    {
        if MIN_SECONDS <= seconds && seconds <= MAX_SECONDS && -86_400 < offset && offset < 86_400 {
            Some(CommitDate { seconds, offset })
        } else {
            None
        }
    }

    /// The Unix epoch in UTC.
    pub fn epoch() -> (r: CommitDate)
        ensures
            r.seconds == 0,
            r.offset == 0,
            r.wf(),
    {
        CommitDate { seconds: 0, offset: 0 }
    }

    /// The date as text, in its zone.
    pub fn to_string(&self) -> (r: String)
        requires
            self.wf(),
        ensures
            r@ == self.spec_text(),
            r@.len() > 0,
    {
        format_date(self.seconds, self.offset)
    }

    /// The day the date falls on in its zone.
    pub fn day(&self) -> (r: i32)
        requires
            self.wf(),
        ensures
            r == self.spec_day(),
            MIN_DAY <= r <= MAX_DAY,
    {
        proof {
            lemma_reading_bounds(self.seconds as int, self.offset as int);
        }
        day_number(self.seconds, self.offset)
    }

    /// The weekday in its zone, 0 for Sunday to 6 for Saturday.
    pub fn weekday(&self) -> (r: u32)
        requires
            self.wf(),
        ensures
            r == self.spec_weekday(),
            r < 7,
    {
        proof {
            lemma_reading_bounds(self.seconds as int, self.offset as int);
        }
        weekday_number(self.seconds, self.offset)
    }

    /// The hour of the day in its zone, 0 to 23.
    pub fn hour(&self) -> (r: u32)
        requires
            self.wf(),
        ensures
            r == self.spec_hour(),
            r < 24,
    {
        proof {
            lemma_reading_bounds(self.seconds as int, self.offset as int);
        }
        hour_number(self.seconds, self.offset)
    }
}

/// Sum of the lines added over a list of per-file changes.
pub open spec fn sum_added(stats: Seq<LineStat>) -> int
    decreases stats.len(),
{
    if stats.len() == 0 {
        0
    } else {
        sum_added(stats.drop_last()) + stats.last().lines_added
    }
}

/// Sum of the lines deleted over a list of per-file changes.
pub open spec fn sum_deleted(stats: Seq<LineStat>) -> int
    decreases stats.len(),
{
    if stats.len() == 0 {
        0
    } else {
        sum_deleted(stats.drop_last()) + stats.last().lines_deleted
    }
}

/// Number of file operations of one kind in a list.
pub open spec fn count_kind(ops: Seq<FileOperation>, kind: FileOperationKind) -> int
    decreases ops.len(),
{
    if ops.len() == 0 {
        0
    } else {
        count_kind(ops.drop_last(), kind) + if ops.last().op == kind { 1int } else { 0int }
    }
}

/// Number of lines in a text given as bytes: every line feed ends a line, and
/// so does the end of a text that does not end in one.
pub open spec fn line_count(bytes: Seq<u8>) -> int {
    line_feeds(bytes) + if bytes.len() > 0 && bytes.last() != 10u8 { 1int } else { 0int }
}

/// Number of line feeds among the bytes.
pub open spec fn line_feeds(bytes: Seq<u8>) -> int
    decreases bytes.len(),
{
    if bytes.len() == 0 {
        0
    } else {
        line_feeds(bytes.drop_last()) + if bytes.last() == 10u8 { 1int } else { 0int }
    }
}

/// A sum of lines added is not negative.
pub(crate) proof fn lemma_sum_added_nonneg(stats: Seq<LineStat>)
    ensures
        sum_added(stats) >= 0,
    decreases stats.len(),
{
    if stats.len() > 0 {
        lemma_sum_added_nonneg(stats.drop_last());
    }
}

/// A sum of lines deleted is not negative.
pub(crate) proof fn lemma_sum_deleted_nonneg(stats: Seq<LineStat>)
    ensures
        sum_deleted(stats) >= 0,
    decreases stats.len(),
{
    if stats.len() > 0 {
        lemma_sum_deleted_nonneg(stats.drop_last());
    }
}

/// No more operations are of one kind than there are operations.
pub(crate) proof fn lemma_count_kind_bounds(ops: Seq<FileOperation>, kind: FileOperationKind)
    ensures
        0 <= count_kind(ops, kind) <= ops.len(),
    decreases ops.len(),
{
    if ops.len() > 0 {
        lemma_count_kind_bounds(ops.drop_last(), kind);
    }
}

/// No more bytes are line feeds than there are bytes.
pub(crate) proof fn lemma_line_feeds_bounds(bytes: Seq<u8>)
    ensures
        0 <= line_feeds(bytes) <= bytes.len(),
    decreases bytes.len(),
{
    if bytes.len() > 0 {
        lemma_line_feeds_bounds(bytes.drop_last());
    }
}

/// One commit of a history.
#[derive(Debug)]
pub struct GitCommit {
    pub commit_hash: String,
    pub author: String,
    pub date: CommitDate,
    pub message: String,
    pub line_stats: Vec<LineStat>,
    pub file_operations: Vec<FileOperation>,
}

impl Default for GitCommit {
    /// An empty commit dated at the Unix epoch.
    fn default() -> (r: GitCommit)
        ensures
            r.commit_hash@.len() == 0,
            r.author@.len() == 0,
            r.message@.len() == 0,
            r.date.seconds == 0,
            r.date.offset == 0,
            r.line_stats@.len() == 0,
            r.file_operations@.len() == 0,
            r.wf(),
    {
        GitCommit {
            commit_hash: String::new(),
            author: String::new(),
            date: CommitDate::epoch(),
            message: String::new(),
            line_stats: Vec::new(),
            file_operations: Vec::new(),
        }
    }
}

impl GitCommit {
    /// Whether the commit's date is in the supported range.
    pub open spec fn wf(&self) -> bool {
        self.date.wf()
    }

    /// The message as bytes.
    pub open spec fn message_bytes(&self) -> Seq<u8> {
        vstd::utf8::encode_utf8(self.message@)
    }

    /// Lines added over all files, capped.
    pub open spec fn spec_lines_added(&self) -> int {
        capped(sum_added(self.line_stats@))
    }

    /// Lines deleted over all files, capped.
    pub open spec fn spec_lines_deleted(&self) -> int {
        capped(sum_deleted(self.line_stats@))
    }

    /// Number of file operations of one kind.
    pub open spec fn spec_files(&self, kind: FileOperationKind) -> int {
        count_kind(self.file_operations@, kind)
    }

    /// Size of the message in bytes.
    pub open spec fn spec_message_size(&self) -> int {
        self.message_bytes().len() as int
    }

    /// Number of lines of the message.
    pub open spec fn spec_message_lines(&self) -> int {
        line_count(self.message_bytes())
    }

    /// Lines added over all files of the commit.
    pub fn total_lines_added(&self) -> (r: u64)
        ensures
            r == self.spec_lines_added(),
    {
        let mut total: u64 = 0;
        let mut i: usize = 0;
        while i < self.line_stats.len()
            invariant
                i <= self.line_stats@.len(),
                total == capped(sum_added(self.line_stats@.take(i as int))),
            decreases self.line_stats@.len() - i,
        {
            proof {
                let next = self.line_stats@.take(i + 1);
                assert(next.drop_last() =~= self.line_stats@.take(i as int));
                lemma_sum_added_nonneg(self.line_stats@.take(i as int));
            }
            total = total.saturating_add(self.line_stats[i].lines_added);
            i += 1;
        }
        proof {
            assert(self.line_stats@.take(i as int) =~= self.line_stats@);
        }
        total
    }

    /// Lines deleted over all files of the commit.
    pub fn total_lines_deleted(&self) -> (r: u64)
        ensures
            r == self.spec_lines_deleted(),
    {
        let mut total: u64 = 0;
        let mut i: usize = 0;
        while i < self.line_stats.len()
            invariant
                i <= self.line_stats@.len(),
                total == capped(sum_deleted(self.line_stats@.take(i as int))),
            decreases self.line_stats@.len() - i,
        {
            proof {
                let next = self.line_stats@.take(i + 1);
                assert(next.drop_last() =~= self.line_stats@.take(i as int));
                lemma_sum_deleted_nonneg(self.line_stats@.take(i as int));
            }
            total = total.saturating_add(self.line_stats[i].lines_deleted);
            i += 1;
        }
        proof {
            assert(self.line_stats@.take(i as int) =~= self.line_stats@);
        }
        total
    }

    /// Number of the commit's file operations of one kind.
    pub fn total_files(&self, kind: FileOperationKind) -> (r: u64)
        ensures
            r == self.spec_files(kind),
    {
        let mut total: u64 = 0;
        let mut i: usize = 0;
        while i < self.file_operations.len()
            invariant
                i <= self.file_operations@.len(),
                total == count_kind(self.file_operations@.take(i as int), kind),
            decreases self.file_operations@.len() - i,
        {
            proof {
                let next = self.file_operations@.take(i + 1);
                assert(next.drop_last() =~= self.file_operations@.take(i as int));
                lemma_count_kind_bounds(self.file_operations@.take(i as int), kind);
            }
            if self.file_operations[i].op == kind {
                total = total + 1;
            }
            i += 1;
        }
        proof {
            assert(self.file_operations@.take(i as int) =~= self.file_operations@);
        }
        total
    }

    /// Number of files the commit added.
    pub fn total_files_added(&self) -> (r: u64)
        ensures
            r == self.spec_files(FileOperationKind::Added),
    {
        self.total_files(FileOperationKind::Added)
    }

    /// Number of files the commit modified.
    pub fn total_files_modified(&self) -> (r: u64)
        ensures
            r == self.spec_files(FileOperationKind::Modified),
    {
        self.total_files(FileOperationKind::Modified)
    }

    /// Number of files the commit deleted.
    pub fn total_files_deleted(&self) -> (r: u64)
        ensures
            r == self.spec_files(FileOperationKind::Deleted),
    {
        self.total_files(FileOperationKind::Deleted)
    }

    /// Number of files the commit renamed.
    pub fn total_files_renamed(&self) -> (r: u64)
        ensures
            r == self.spec_files(FileOperationKind::Renamed),
    {
        self.total_files(FileOperationKind::Renamed)
    }

    /// Size of the message in bytes.
    pub fn total_message_size(&self) -> (r: u64)
        ensures
            r == self.spec_message_size(),
    {
        let bytes = self.message.as_str().as_bytes();
        bytes.len() as u64
    }

    /// Number of lines of the message.
    pub fn total_message_lines(&self) -> (r: u64)
        ensures
            r == self.spec_message_lines(),
    {
        let bytes = self.message.as_str().as_bytes();
        let mut feeds: u64 = 0;
        let mut i: usize = 0;
        while i < bytes.len()
            invariant
                i <= bytes@.len(),
                bytes@ == self.message_bytes(),
                feeds == line_feeds(bytes@.take(i as int)),
            decreases bytes@.len() - i,
        {
            proof {
                let next = bytes@.take(i + 1);
                assert(next.drop_last() =~= bytes@.take(i as int));
                lemma_line_feeds_bounds(bytes@.take(i as int));
            }
            if bytes[i] == 10u8 {
                feeds = feeds + 1;
            }
            i += 1;
        }
        proof {
            assert(bytes@.take(i as int) =~= bytes@);
            lemma_line_feeds_bounds(bytes@);
            if bytes@.len() > 0 {
                lemma_line_feeds_bounds(bytes@.drop_last());
            }
        }
        if bytes.len() > 0 && bytes[bytes.len() - 1] != 10u8 {
            feeds + 1
        } else {
            feeds
        }
    }

    /// The day the commit falls on, in the zone of its date.
    pub fn day_key(&self) -> (r: i32)
        requires
            self.wf(),
        ensures
            r == self.date.spec_day(),
            MIN_DAY <= r <= MAX_DAY,
    {
        self.date.day()
    }

    /// The weekday and hour of the commit as one number: 24 times the weekday
    /// plus the hour.
    pub fn hour_key_by_weekday(&self) -> (r: u32)
        requires
            self.wf(),
        ensures
            r == self.spec_punch_key(),
            r < 168,
    {
        let weekday: u32 = self.date.weekday();
        let hour: u32 = self.date.hour();
        weekday * 24 + hour
    }

    /// 24 times the weekday plus the hour.
    pub open spec fn spec_punch_key(&self) -> int {
        self.date.spec_weekday() * 24 + self.date.spec_hour()
    }
}

} // verus!
