//! How often each file extension was touched.

use vstd::prelude::*;
use crate::commit::{capped, FileOperation, GitCommit};
use crate::json::{
    json_array, json_array_of, json_error_message, json_number, json_number_of, json_object,
    json_object_of, json_string, json_string_of, json_to_value, to_value_of,
};
use crate::viewmodel::{GitStatsJsonViewModelItem, SummaryViewModel};

verus! {

/// One extension and the number of times a file with it was touched.
#[derive(Debug)]
pub struct ExtensionCount {
    pub name: String,
    pub value: u64,
}

/// The JSON object of each entry: its `name` and its `value`.
pub open spec fn entry_values(entries: Seq<ExtensionCount>) -> Seq<serde_json::Value> {
    Seq::new(
        entries.len(),
        |i: int|
            json_object_of(
                "name"@,
                json_string_of(entries[i].name@),
                "value"@,
                json_number_of(entries[i].value as int),
            ),
    )
}

/// Whether an extension has an entry.
pub open spec fn has_extension(entries: Seq<ExtensionCount>, name: Seq<char>) -> bool {
    exists|i: int| 0 <= i < entries.len() && (#[trigger] entries[i]).name@ == name
}

/// The count kept for an extension, 0 where it has no entry.
pub open spec fn count_of(entries: Seq<ExtensionCount>, name: Seq<char>) -> int {
    if has_extension(entries, name) {
        let i = choose|i: int| 0 <= i < entries.len() && (#[trigger] entries[i]).name@ == name;
        entries[i].value as int
    } else {
        0
    }
}

/// No extension has two entries.
pub open spec fn distinct_names(entries: Seq<ExtensionCount>) -> bool {
    forall|i: int, j: int|
        0 <= i < j < entries.len()
            ==> (#[trigger] entries[i]).name@ != (#[trigger] entries[j]).name@
}

/// Number of file operations in a list that touch a file of the extension.
pub open spec fn touches(ops: Seq<FileOperation>, name: Seq<char>) -> int
    decreases ops.len(),
{
    if ops.len() == 0 {
        0
    } else {
        touches(ops.drop_last(), name) + if ops.last().file_extension@ == name {
            1int
        } else {
            0int
        }
    }
}

/// A number of touches is not negative.
pub(crate) proof fn lemma_touches_nonneg(ops: Seq<FileOperation>, name: Seq<char>)
    ensures
        touches(ops, name) >= 0,
    decreases ops.len(),
{
    if ops.len() > 0 {
        lemma_touches_nonneg(ops.drop_last(), name);
    }
}

/// Two files of one extension in a commit are two touches of it.
pub proof fn law_two_files_are_two_touches(ops: Seq<FileOperation>, name: Seq<char>)
    requires
        ops.len() == 2,
        ops[0].file_extension@ == name,
        ops[1].file_extension@ == name,
    ensures
        touches(ops, name) == 2,
{
    let first = ops.drop_last();
    assert(first.last() == ops[0]);
    assert(touches(first.drop_last(), name) == 0);
    assert(touches(first, name) == 1);
}

/// With distinct names, the count of an extension is the value of its entry.
pub(crate) proof fn lemma_count_at(entries: Seq<ExtensionCount>, i: int)
    requires
        distinct_names(entries),
        0 <= i < entries.len(),
    ensures
        has_extension(entries, entries[i].name@),
        count_of(entries, entries[i].name@) == entries[i].value,
{
    let name = entries[i].name@;
    assert(has_extension(entries, name));
    let j = choose|j: int| 0 <= j < entries.len() && (#[trigger] entries[j]).name@ == name;
    if j < i {
        assert(entries[j].name@ != entries[i].name@);
    } else if i < j {
        assert(entries[i].name@ != entries[j].name@);
    }
}

/// Counts, for each file extension, the file operations that touched a file
/// with it. The entries stand in the order in which the extensions were first
/// seen, and no extension has two.
pub struct CommitsByFileExtension {
    pub data: Vec<ExtensionCount>,
}

impl View for CommitsByFileExtension {
    type V = Seq<ExtensionCount>;

    open spec fn view(&self) -> Seq<ExtensionCount> {
        self.data@
    }
}

impl CommitsByFileExtension {
    /// No extension has two entries.
    pub open spec fn wf(&self) -> bool {
        distinct_names(self@)
    }

    /// The state before any commit.
    pub fn default() -> (r: CommitsByFileExtension)
        ensures
            r@.len() == 0,
            r.wf(),
    {
        CommitsByFileExtension { data: Vec::new() }
    }

    /// Counts one touch of a file with the extension.
    pub fn touch(&mut self, name: &String)
        requires
            old(self).wf(),
        ensures
            final(self).wf(),
            forall|other: Seq<char>|
                count_of(final(self)@, other) == if other == name@ {
                    capped(count_of(old(self)@, other) + 1)
                } else {
                    count_of(old(self)@, other)
                },
            forall|other: Seq<char>|
                has_extension(final(self)@, other) <==> has_extension(old(self)@, other) || other
                    == name@,
    {
        let mut i: usize = 0;
        while i < self.data.len() && self.data[i].name != *name
            invariant
                i <= self.data@.len(),
                self.data@ == old(self).data@,
                forall|j: int| 0 <= j < i ==> (#[trigger] self.data@[j]).name@ != name@,
            decreases self.data@.len() - i,
        {
            i += 1;
        }
        if i < self.data.len() {
            let ghost before = self.data@;
            self.data[i].value = self.data[i].value.saturating_add(1);
            proof {
                let after = self.data@;
                assert(after.len() == before.len());
                assert(forall|j: int| 0 <= j < after.len() ==> after[j].name@ == before[j].name@);
                assert forall|other: Seq<char>| count_of(after, other) == if other == name@ {
                    capped(count_of(before, other) + 1)
                } else {
                    count_of(before, other)
                } by {
                    lemma_count_same_names(before, after, other, i as int);
                }
                assert forall|other: Seq<char>|
                    has_extension(after, other) <==> has_extension(before, other) || other
                        == name@ by {
                    lemma_count_same_names(before, after, other, i as int);
                    lemma_count_at(before, i as int);
                }
            }
        } else {
            let ghost before = self.data@;
            self.data.push(ExtensionCount { name: name.clone(), value: 1 });
            proof {
                let after = self.data@;
                assert(!has_extension(before, name@));
                assert(after.drop_last() =~= before);
                assert forall|other: Seq<char>| count_of(after, other) == if other == name@ {
                    capped(count_of(before, other) + 1)
                } else {
                    count_of(before, other)
                } by {
                    lemma_count_pushed(before, after, other);
                }
                assert forall|other: Seq<char>|
                    has_extension(after, other) <==> has_extension(before, other) || other
                        == name@ by {
                    lemma_count_pushed(before, after, other);
                }
            }
        }
    }

    /// Counts every file operation of the commit under the extension of its
    /// file: a commit that touches two files of one extension adds 2 to it.
    pub fn process(&mut self, commit: &GitCommit)
        requires
            old(self).wf(),
        ensures
            final(self).wf(),
            forall|name: Seq<char>|
                count_of(final(self)@, name) == capped(
                    count_of(old(self)@, name) + touches(commit.file_operations@, name),
                ),
            forall|name: Seq<char>|
                has_extension(final(self)@, name) <==> has_extension(old(self)@, name) || touches(
                    commit.file_operations@,
                    name,
                ) > 0,
    {
        let mut i: usize = 0;
        while i < commit.file_operations.len()
            invariant
                i <= commit.file_operations@.len(),
                self.wf(),
                forall|name: Seq<char>|
                    count_of(self@, name) == capped(
                        count_of(old(self)@, name) + touches(
                            commit.file_operations@.take(i as int),
                            name,
                        ),
                    ),
                forall|name: Seq<char>|
                    has_extension(self@, name) <==> has_extension(old(self)@, name) || touches(
                        commit.file_operations@.take(i as int),
                        name,
                    ) > 0,
            decreases commit.file_operations@.len() - i,
        {
            let ghost before = self@;
            self.touch(&commit.file_operations[i].file_extension);
            proof {
                let done = commit.file_operations@.take(i as int);
                let next = commit.file_operations@.take(i + 1);
                assert(next.drop_last() =~= done);
                assert forall|name: Seq<char>| count_of(self@, name) == capped(
                    count_of(old(self)@, name) + touches(next, name),
                ) by {
                    lemma_touches_nonneg(done, name);
                    assert(count_of(before, name) == capped(
                        count_of(old(self)@, name) + touches(done, name),
                    ));
                }
                assert forall|name: Seq<char>|
                    has_extension(self@, name) <==> has_extension(old(self)@, name) || touches(
                        next,
                        name,
                    ) > 0 by {
                    lemma_touches_nonneg(done, name);
                    assert(has_extension(before, name) <==> has_extension(old(self)@, name)
                        || touches(done, name) > 0);
                }
            }
            i += 1;
        }
        proof {
            assert(commit.file_operations@.take(i as int) =~= commit.file_operations@);
        }
    }

    /// The export of the histogram: an array with one object for each
    /// extension, its `name` and its `value`, under the key
    /// `files_by_extension`. An error of the encoder is handed on.
    pub fn get_json_viewmodel(&self) -> (r: Result<GitStatsJsonViewModelItem, ExportError>)
        ensures
            match to_value_of(json_array_of(entry_values(self@))) {
                Some(made) => r matches Ok(item) && item.data == made && item.key@
                    == "files_by_extension"@ && item.summary@.len() == 0,
                None => r is Err,
            },
    {
        let mut items: Vec<serde_json::Value> = Vec::new();
        let mut i: usize = 0;
        while i < self.data.len()
            invariant
                i <= self.data@.len(),
                items@ =~= entry_values(self@).take(i as int),
            decreases self.data@.len() - i,
        {
            items.push(
                json_object(
                    "name",
                    json_string(&self.data[i].name),
                    "value",
                    json_number(self.data[i].value),
                ),
            );
            i += 1;
        }
        proof {
            assert(items@ =~= entry_values(self@));
        }
        let encoded = match json_to_value(json_array(items)) {
            Ok(value) => Ok(value),
            Err(error) => Err(ExportError { message: json_error_message(&error) }),
        };
        export_item(encoded)
    }

    /// Writes nothing: this collector reports through its own export.
    pub fn update(&self, viewmodel: &mut crate::viewmodel::GitStatsViewModel)
        ensures
            *final(viewmodel) == *old(viewmodel),
    {
    }
}

/// Why an export failed: the encoder's message.
#[derive(Debug)]
pub struct ExportError {
    pub message: String,
}

/// Frames encoded data as the export of the histogram, or hands the error on.
pub fn export_item(encoded: Result<serde_json::Value, ExportError>) -> (r: Result<
    GitStatsJsonViewModelItem,
    ExportError,
>)
    ensures
        encoded matches Ok(value) ==> r matches Ok(item) && item.data == value && item.key@
            == "files_by_extension"@ && item.summary@.len() == 0,
        encoded matches Err(error) ==> r matches Err(e) && e == error,
{
    match encoded {
        Ok(value) => Ok(
            GitStatsJsonViewModelItem {
                summary: Vec::new(),
                key: "files_by_extension".to_owned(),
                data: value,
            },
        ),
        Err(error) => Err(error),
    }
}

/// A changed value at one entry changes the count of that entry's name only.
pub(crate) proof fn lemma_count_same_names(
    before: Seq<ExtensionCount>,
    after: Seq<ExtensionCount>,
    other: Seq<char>,
    at: int,
)
    requires
        distinct_names(before),
        0 <= at < before.len(),
        after.len() == before.len(),
        forall|j: int| 0 <= j < after.len() ==> (#[trigger] after[j]).name@ == before[j].name@,
        forall|j: int| 0 <= j < after.len()
            && j != at ==> (#[trigger] after[j]).value == before[j].value,
    ensures
        distinct_names(after),
        has_extension(after, other) == has_extension(before, other),
        other != before[at].name@ ==> count_of(after, other) == count_of(before, other),
        other == before[at].name@ ==> count_of(before, other) == before[at].value && count_of(
            after,
            other,
        ) == after[at].value,
{
    assert forall|i: int, j: int| 0 <= i < j < after.len() implies (#[trigger] after[i]).name@ != (
    #[trigger] after[j]).name@ by {
        assert(before[i].name@ != before[j].name@);
    }
    if has_extension(before, other) {
        let j = choose|j: int| 0 <= j < before.len() && (#[trigger] before[j]).name@ == other;
        assert(after[j].name@ == other);
        lemma_count_at(before, j);
        lemma_count_at(after, j);
        if j != at && other == before[at].name@ {
            if j < at {
                assert(before[j].name@ != before[at].name@);
            } else {
                assert(before[at].name@ != before[j].name@);
            }
        }
    } else if has_extension(after, other) {
        let j = choose|j: int| 0 <= j < after.len() && (#[trigger] after[j]).name@ == other;
        assert(before[j].name@ == other);
    }
}

/// A new entry gives its name a count and leaves the others as they were.
pub(crate) proof fn lemma_count_pushed(
    before: Seq<ExtensionCount>,
    after: Seq<ExtensionCount>,
    other: Seq<char>,
)
    requires
        distinct_names(before),
        after.len() == before.len() + 1,
        after.drop_last() == before,
        !has_extension(before, after.last().name@),
    ensures
        distinct_names(after),
        other == after.last().name@ ==> count_of(after, other) == after.last().value
            && count_of(before, other) == 0,
        other != after.last().name@ ==> count_of(after, other) == count_of(before, other),
        has_extension(after, other) <==> has_extension(before, other) || other
            == after.last().name@,
{
    assert forall|i: int, j: int| 0 <= i < j < after.len() implies (#[trigger] after[i]).name@ != (
    #[trigger] after[j]).name@ by {
        assert(after[i] == before[i]);
        if j < before.len() {
            assert(after[j] == before[j]);
        } else {
            assert(before[i].name@ != after.last().name@);
        }
    }
    lemma_count_at(after, after.len() - 1);
    if has_extension(before, other) {
        let j = choose|j: int| 0 <= j < before.len() && (#[trigger] before[j]).name@ == other;
        assert(after[j] == before[j]);
    }
    if other != after.last().name@ {
        if has_extension(before, other) {
            let j = choose|j: int| 0 <= j < before.len() && (#[trigger] before[j]).name@ == other;
            assert(after[j] == before[j]);
            lemma_count_at(before, j);
            lemma_count_at(after, j);
        } else if has_extension(after, other) {
            let j = choose|j: int| 0 <= j < after.len() && (#[trigger] after[j]).name@ == other;
            assert(after[j] == before[j]);
        }
    }
}

} // verus!
