use forora::collectors::commits_by_file_extension::CommitsByFileExtension;
use forora::collectors::{
    create_stat_collectors, MessageStatsCollector, PunchCardCollector,
    SimilarFilesChangingCollector, StatCollector, SummaryStatsCollector,
    TotalCommitsByDayCollector, TotalFilesByDayCollector, TotalLinesByDayCollector,
};
use forora::commit::{CommitDate, FileOperation, FileOperationKind, GitCommit, LineStat};
use forora::process::{collect, process_commit, process_commits, update_all};
use forora::viewmodel::{insert_by_day, sort_by_day, GitStatsViewModel, KeyValue};

// 2021-03-04 05:06:07 UTC, a Thursday.
const THURSDAY: i64 = 1_614_834_367;
const DAY: i64 = 86_400;

fn file(path: &str, extension: &str, op: FileOperationKind) -> FileOperation {
    FileOperation { file: path.to_string(), file_extension: extension.to_string(), op }
}

fn commit(author: &str, seconds: i64, added: u64, deleted: u64, files: Vec<FileOperation>) -> GitCommit {
    let mut commit = GitCommit::default();
    commit.author = author.to_string();
    commit.date = CommitDate::new(seconds, 0).unwrap();
    commit.line_stats = vec![LineStat { lines_added: added, lines_deleted: deleted }];
    commit.file_operations = files;
    commit
}

fn three_commits() -> Vec<GitCommit> {
    vec![
        commit("Alice", THURSDAY, 10, 0, vec![file("a.rs", "rs", FileOperationKind::Added)]),
        commit(
            "Bob",
            THURSDAY + DAY,
            5,
            2,
            vec![
                file("a.rs", "rs", FileOperationKind::Modified),
                file("b.rs", "rs", FileOperationKind::Added),
            ],
        ),
        commit("Carl", THURSDAY + 2 * DAY, 0, 3, vec![file("b.rs", "rs", FileOperationKind::Deleted)]),
    ]
}

fn row<'a>(report: &'a GitStatsViewModel, name: &str) -> &'a str {
    report.summary.iter().find(|r| r.name == name).map(|r| r.value.as_str()).unwrap()
}

#[test]
fn three_commits_end_to_end() {
    let commits = three_commits();
    let mut collectors = create_stat_collectors();
    let mut histogram = CommitsByFileExtension::default();
    process_commits(&commits, &mut collectors);
    for c in &commits {
        histogram.process(c);
    }
    let mut report = GitStatsViewModel::default();
    update_all(&collectors, &mut report);

    assert_eq!(row(&report, "Number of commits_collection"), "3");
    assert_eq!(row(&report, "Total lines_collection added"), "15");
    assert_eq!(row(&report, "Total lines_collection deleted"), "5");
    assert_eq!(row(&report, "First committer"), "Alice");
    assert_eq!(row(&report, "Date of first commit"), "2021-03-04 05:06:07 +00:00");
    assert_eq!(histogram.data.len(), 1);
    assert_eq!(histogram.data[0].name, "rs");
    assert_eq!(histogram.data[0].value, 4);
}

#[test]
fn summary_rows_come_in_the_order_of_the_collectors() {
    let mut collectors = create_stat_collectors();
    process_commits(&three_commits(), &mut collectors);
    let mut report = GitStatsViewModel::default();
    update_all(&collectors, &mut report);
    let names: Vec<&str> = report.summary.iter().map(|r| r.name.as_str()).collect();
    assert_eq!(
        names,
        vec![
            "First committer",
            "Date of first commit",
            "Number of commits_collection",
            "Total lines_collection added",
            "Total lines_collection deleted",
            "Total size of all commit messages",
            "Total number of lines_collection across all commit messages",
            "Max number of lines_collection in a commit message",
            "Max size of a commit message",
            "Avg number of lines_collection in a commit message",
            "Avg size of a commit message",
        ]
    );
}

#[test]
fn fresh_collectors_stand_in_their_order() {
    let collectors = create_stat_collectors();
    assert_eq!(collectors.len(), 6);
    assert!(matches!(collectors[0], StatCollector::Summary(_)));
    assert!(matches!(collectors[1], StatCollector::CommitsByDay(_)));
    assert!(matches!(collectors[2], StatCollector::LinesByDay(_)));
    assert!(matches!(collectors[3], StatCollector::Messages(_)));
    assert!(matches!(collectors[4], StatCollector::FilesByDay(_)));
    assert!(matches!(collectors[5], StatCollector::PunchCard(_)));
}

#[test]
fn commit_count_is_the_length_of_the_history() {
    let mut collector = SummaryStatsCollector::default();
    for c in &three_commits() {
        collector.process(c);
    }
    assert_eq!(collector.summary.commit_count, 3);
}

#[test]
fn first_is_the_first_handed_in_not_the_earliest() {
    let mut collector = SummaryStatsCollector::default();
    let late = commit("Late", THURSDAY + 2 * DAY, 0, 0, vec![]);
    let early = commit("Early", THURSDAY, 0, 0, vec![]);
    collector.process(&late);
    collector.process(&early);
    assert_eq!(collector.summary.first_committer, "Late");
    assert_eq!(collector.summary.date_first_commit, "2021-03-06 05:06:07 +00:00");
}

#[test]
fn totals_do_not_depend_on_the_order() {
    let mut forward = SummaryStatsCollector::default();
    let mut backward = SummaryStatsCollector::default();
    let commits = three_commits();
    for c in commits.iter() {
        forward.process(c);
    }
    for c in commits.iter().rev() {
        backward.process(c);
    }
    assert_eq!(forward.summary.total_lines_added, backward.summary.total_lines_added);
    assert_eq!(forward.summary.total_lines_deleted, backward.summary.total_lines_deleted);
    assert_eq!(backward.summary.first_committer, "Carl");
}

#[test]
fn totals_stay_at_the_largest_number() {
    let mut collector = SummaryStatsCollector::default();
    collector.process(&commit("a", THURSDAY, u64::MAX, 1, vec![]));
    collector.process(&commit("b", THURSDAY, 7, 1, vec![]));
    assert_eq!(collector.summary.total_lines_added, u64::MAX);
    assert_eq!(collector.summary.total_lines_deleted, 2);
    let mut wide = GitCommit::default();
    wide.line_stats = vec![
        LineStat { lines_added: u64::MAX, lines_deleted: 1 },
        LineStat { lines_added: 1, lines_deleted: 2 },
    ];
    assert_eq!(wide.total_lines_added(), u64::MAX);
    assert_eq!(wide.total_lines_deleted(), 3);
}

#[test]
fn day_series_is_sorted_whatever_the_order() {
    let mut commits = three_commits();
    commits.reverse();
    commits.push(commit("Dan", THURSDAY + DAY + 60, 1, 1, vec![]));
    let mut collector = TotalCommitsByDayCollector::default();
    for c in &commits {
        collector.process(c);
    }
    let mut report = GitStatsViewModel::default();
    collector.update(&mut report);
    let keys: Vec<&str> = report.total_commits_by_day.iter().map(|r| r.key.as_str()).collect();
    assert_eq!(keys, vec!["2021-03-04", "2021-03-05", "2021-03-06"]);
    let values: Vec<u64> = report.total_commits_by_day.iter().map(|r| r.value).collect();
    assert_eq!(values, vec![1, 2, 1]);
    assert_eq!(values.iter().sum::<u64>(), 4);
    assert_eq!(report.total_commits_by_day[0].day, 737_853);
}

#[test]
fn lines_per_day_add_up_to_the_totals() {
    let mut commits = three_commits();
    commits.push(commit("Dan", THURSDAY + 120, 4, 6, vec![]));
    let mut lines = TotalLinesByDayCollector::default();
    let mut summary = SummaryStatsCollector::default();
    for c in &commits {
        lines.process(c);
        summary.process(c);
    }
    let mut report = GitStatsViewModel::default();
    lines.update(&mut report);
    let rows = &report.total_lines_by_day;
    assert_eq!(rows.len(), 3);
    assert_eq!((rows[0].key.as_str(), rows[0].lines_added, rows[0].lines_deleted), ("2021-03-04", 14, 6));
    assert_eq!((rows[1].key.as_str(), rows[1].lines_added, rows[1].lines_deleted), ("2021-03-05", 5, 2));
    assert_eq!((rows[2].key.as_str(), rows[2].lines_added, rows[2].lines_deleted), ("2021-03-06", 0, 3));
    assert_eq!(rows.iter().map(|r| r.lines_added).sum::<u64>(), summary.summary.total_lines_added);
    assert_eq!(rows.iter().map(|r| r.lines_deleted).sum::<u64>(), summary.summary.total_lines_deleted);
}

#[test]
fn files_per_day_count_each_kind() {
    let mut collector = TotalFilesByDayCollector::default();
    let mut first = commit(
        "a",
        THURSDAY,
        0,
        0,
        vec![
            file("a.rs", "rs", FileOperationKind::Added),
            file("b.rs", "rs", FileOperationKind::Added),
            file("c.md", "md", FileOperationKind::Renamed),
        ],
    );
    first.file_operations.push(file("d.md", "md", FileOperationKind::Modified));
    collector.process(&first);
    collector.process(&commit("b", THURSDAY + 1, 0, 0, vec![file("a.rs", "rs", FileOperationKind::Deleted)]));
    collector.process(&commit("c", THURSDAY - DAY, 0, 0, vec![]));
    let mut report = GitStatsViewModel::default();
    collector.update(&mut report);
    let rows = &report.total_files_by_day;
    assert_eq!(rows.len(), 2);
    assert_eq!(rows[0].key, "2021-03-03");
    assert_eq!((rows[0].files_added, rows[0].files_modified, rows[0].files_deleted, rows[0].files_renamed), (0, 0, 0, 0));
    assert_eq!(rows[1].key, "2021-03-04");
    assert_eq!((rows[1].files_added, rows[1].files_modified, rows[1].files_deleted, rows[1].files_renamed), (2, 1, 1, 1));
    assert_eq!(first.total_files_added(), 2);
    assert_eq!(first.total_files_renamed(), 1);
    assert_eq!(first.total_files_modified(), 1);
    assert_eq!(first.total_files_deleted(), 0);
}

#[test]
fn update_sorts_rows_that_were_there() {
    let mut report = GitStatsViewModel::default();
    report.total_commits_by_day.push(KeyValue { day: 737_900, key: "2021-04-20".to_string(), value: 9 });
    report.total_commits_by_day.push(KeyValue { day: 737_000, key: "2018-11-02".to_string(), value: 8 });
    let mut collector = TotalCommitsByDayCollector::default();
    collector.process(&commit("a", THURSDAY, 0, 0, vec![]));
    collector.update(&mut report);
    let days: Vec<i32> = report.total_commits_by_day.iter().map(|r| r.day).collect();
    assert_eq!(days, vec![737_000, 737_853, 737_900]);
}

#[test]
fn sorting_keeps_every_row() {
    let mut rows: Vec<KeyValue> = vec![5, 1, 4, 1, 3]
        .into_iter()
        .enumerate()
        .map(|(i, day)| KeyValue { day, key: String::new(), value: i as u64 })
        .collect();
    sort_by_day(&mut rows);
    let seen: Vec<(i32, u64)> = rows.iter().map(|r| (r.day, r.value)).collect();
    assert_eq!(seen, vec![(1, 1), (1, 3), (3, 4), (4, 2), (5, 0)]);
    insert_by_day(&mut rows, KeyValue { day: 1, key: String::new(), value: 7 }, true);
    insert_by_day(&mut rows, KeyValue { day: 4, key: String::new(), value: 8 }, false);
    let seen: Vec<(i32, u64)> = rows.iter().map(|r| (r.day, r.value)).collect();
    assert_eq!(seen, vec![(1, 1), (1, 3), (1, 7), (3, 4), (4, 8), (4, 2), (5, 0)]);
}

#[test]
fn message_statistics_are_exact() {
    let mut collector = MessageStatsCollector::default();
    let mut one = GitCommit::default();
    one.message = "fix\n\nlonger body\n".to_string();
    let mut two = GitCommit::default();
    two.message = "ab".to_string();
    assert_eq!(one.total_message_size(), 17);
    assert_eq!(one.total_message_lines(), 3);
    assert_eq!(two.total_message_size(), 2);
    assert_eq!(two.total_message_lines(), 1);
    collector.process(&one);
    assert_eq!(collector.message_stats.avg_size, 17);
    assert_eq!(collector.message_stats.avg_lines, 3);
    collector.process(&two);
    assert_eq!(collector.count, 2);
    assert_eq!(collector.total_message_size, 19);
    assert_eq!(collector.total_message_lines, 4);
    assert_eq!(collector.message_stats.avg_size, 9);
    assert_eq!(collector.message_stats.avg_lines, 2);
    assert_eq!(collector.message_stats.max_size, 17);
    assert_eq!(collector.message_stats.max_lines, 3);
    assert_eq!(collector.message_stats.min_size, 0);
    assert_eq!(collector.message_stats.min_lines, 0);
}

#[test]
fn message_lines_at_the_edges() {
    let mut c = GitCommit::default();
    assert_eq!(c.total_message_lines(), 0);
    assert_eq!(c.total_message_size(), 0);
    c.message = "a".to_string();
    assert_eq!(c.total_message_lines(), 1);
    c.message = "a\n".to_string();
    assert_eq!(c.total_message_lines(), 1);
    c.message = "a\nb".to_string();
    assert_eq!(c.total_message_lines(), 2);
    c.message = "\n".to_string();
    assert_eq!(c.total_message_lines(), 1);
    c.message = "é".to_string();
    assert_eq!(c.total_message_size(), 2);
}

#[test]
fn message_rows_print_sizes_in_byte_units() {
    let mut collector = MessageStatsCollector::default();
    let mut big = GitCommit::default();
    big.message = "x".repeat(1500);
    let mut small = GitCommit::default();
    small.message = "y".repeat(300);
    collector.process(&big);
    collector.process(&small);
    let mut report = GitStatsViewModel::default();
    collector.update(&mut report);
    assert_eq!(report.summary.len(), 6);
    assert_eq!(row(&report, "Total size of all commit messages"), bytesize::ByteSize(1800).to_string());
    assert_eq!(row(&report, "Total size of all commit messages"), "1.8 KB");
    assert_eq!(row(&report, "Total number of lines_collection across all commit messages"), "2");
    assert_eq!(row(&report, "Max number of lines_collection in a commit message"), "1");
    assert_eq!(row(&report, "Max size of a commit message"), "1.5 KB");
    assert_eq!(row(&report, "Avg number of lines_collection in a commit message"), "1");
    assert_eq!(row(&report, "Avg size of a commit message"), "900 B");
}

#[test]
fn punch_card_counts_every_commit_once() {
    let mut collector = PunchCardCollector::default();
    let commits = vec![
        commit("a", THURSDAY, 0, 0, vec![]),
        commit("b", THURSDAY + 60, 0, 0, vec![]),
        commit("c", THURSDAY + 3 * DAY + 3_600, 0, 0, vec![]),
        commit("d", THURSDAY + 7 * DAY, 0, 0, vec![]),
    ];
    for c in &commits {
        collector.process(c);
    }
    let mut report = GitStatsViewModel::default();
    collector.update(&mut report);
    let mut cells: Vec<(u32, u32, u64)> =
        report.punch_data.iter().map(|p| (p.weekday, p.hour, p.commits)).collect();
    cells.sort();
    assert_eq!(cells, vec![(0, 6, 1), (4, 5, 3)]);
    assert_eq!(cells.iter().map(|c| c.2).sum::<u64>(), 4);
}

#[test]
fn readings_follow_the_zone() {
    let utc = CommitDate::new(THURSDAY, 0).unwrap();
    assert_eq!((utc.weekday(), utc.hour(), utc.day()), (4, 5, 737_853));
    let east = CommitDate::new(THURSDAY, 19 * 3_600).unwrap();
    assert_eq!((east.weekday(), east.hour(), east.day()), (5, 0, 737_854));
    assert_eq!(east.to_string(), "2021-03-05 00:06:07 +19:00");
    let west = CommitDate::new(THURSDAY, -6 * 3_600).unwrap();
    assert_eq!((west.weekday(), west.hour(), west.day()), (3, 23, 737_852));
    let before = CommitDate::new(-1, 0).unwrap();
    assert_eq!((before.weekday(), before.hour(), before.day()), (3, 23, 719_162));
    let mut c = GitCommit::default();
    c.date = east;
    assert_eq!(c.day_key(), 737_854);
    assert_eq!(c.hour_key_by_weekday(), 120);
    assert_eq!(CommitDate::epoch().to_string(), "1970-01-01 00:00:00 +00:00");
}

#[test]
fn dates_out_of_range_are_refused() {
    assert!(CommitDate::new(0, 86_400).is_none());
    assert!(CommitDate::new(0, -86_400).is_none());
    assert!(CommitDate::new(253_402_300_800, 0).is_none());
    assert!(CommitDate::new(-62_167_219_201, 0).is_none());
    assert!(CommitDate::new(253_402_300_799, 86_399).is_some());
    assert!(CommitDate::new(-62_167_219_200, -86_399).is_some());
    let last = CommitDate::new(253_402_300_799, 86_399).unwrap();
    assert_eq!(last.day(), 3_652_060);
    let first = CommitDate::new(-62_167_219_200, -86_399).unwrap();
    assert_eq!(first.day(), -366);
    let mut collector = TotalCommitsByDayCollector::default();
    let mut c = GitCommit::default();
    c.date = last;
    collector.process(&c);
    c.date = first;
    collector.process(&c);
    let mut report = GitStatsViewModel::default();
    collector.update(&mut report);
    assert_eq!(report.total_commits_by_day.len(), 2);
    assert_eq!(report.total_commits_by_day[1].key, "+10000-01-01");
}

#[test]
fn an_extension_touched_twice_counts_twice() {
    let mut histogram = CommitsByFileExtension::default();
    histogram.process(&commit(
        "a",
        THURSDAY,
        0,
        0,
        vec![
            file("a.rs", "rs", FileOperationKind::Added),
            file("r.md", "md", FileOperationKind::Added),
            file("b.rs", "rs", FileOperationKind::Modified),
        ],
    ));
    histogram.process(&commit("b", THURSDAY, 0, 0, vec![]));
    let seen: Vec<(&str, u64)> = histogram.data.iter().map(|e| (e.name.as_str(), e.value)).collect();
    assert_eq!(seen, vec![("rs", 2), ("md", 1)]);
    histogram.touch(&"md".to_string());
    assert_eq!(histogram.data[1].value, 2);
}

#[test]
fn histogram_exports_names_and_values() {
    let mut histogram = CommitsByFileExtension::default();
    histogram.process(&commit(
        "a",
        THURSDAY,
        0,
        0,
        vec![
            file("a.rs", "rs", FileOperationKind::Added),
            file("b.rs", "rs", FileOperationKind::Added),
            file("c.md", "md", FileOperationKind::Added),
        ],
    ));
    let item = histogram.get_json_viewmodel().unwrap();
    assert_eq!(item.key, "files_by_extension");
    assert!(item.summary.is_empty());
    let mut first = serde_json::Map::new();
    first.insert("name".to_string(), serde_json::Value::String("rs".to_string()));
    first.insert("value".to_string(), serde_json::Value::Number(serde_json::Number::from(2u64)));
    let mut second = serde_json::Map::new();
    second.insert("name".to_string(), serde_json::Value::String("md".to_string()));
    second.insert("value".to_string(), serde_json::Value::Number(serde_json::Number::from(1u64)));
    let expected =
        serde_json::Value::Array(vec![serde_json::Value::Object(first), serde_json::Value::Object(second)]);
    assert_eq!(item.data, expected);
    assert_eq!(item.data.to_string(), "[{\"name\":\"rs\",\"value\":2},{\"name\":\"md\",\"value\":1}]");
    let empty = CommitsByFileExtension::default().get_json_viewmodel().unwrap();
    assert_eq!(empty.data, serde_json::Value::Array(vec![]));
}

#[test]
fn a_commit_without_files_or_lines_changes_no_total() {
    let mut collectors = create_stat_collectors();
    let mut bare = GitCommit::default();
    bare.line_stats = vec![];
    process_commit(&bare, &mut collectors);
    let mut report = GitStatsViewModel::default();
    update_all(&collectors, &mut report);
    assert_eq!(row(&report, "Number of commits_collection"), "1");
    assert_eq!(row(&report, "Total lines_collection added"), "0");
    assert_eq!(report.total_files_by_day.len(), 1);
    assert_eq!(report.total_files_by_day[0].files_added, 0);
    assert_eq!(report.total_files_by_day[0].key, "1970-01-01");
    assert_eq!(report.punch_data.len(), 1);
}

#[test]
fn recent_files_keep_to_the_window() {
    let mut collector = SimilarFilesChangingCollector::_default();
    assert_eq!(collector.window, 10);
    for i in 0..12 {
        let name = format!("f{}.rs", i);
        collector.process(&commit("a", THURSDAY, 0, 0, vec![file(&name, "rs", FileOperationKind::Added)]));
    }
    assert_eq!(collector.recent.len(), 10);
    assert_eq!(collector.recent[0], vec!["f2.rs".to_string()]);
    assert_eq!(collector.recent[9], vec!["f11.rs".to_string()]);
    let mut report = GitStatsViewModel::default();
    collector.update(&mut report);
    assert!(report.summary.is_empty());
}

#[test]
fn collect_makes_the_whole_report() {
    let report = collect(&three_commits());
    assert_eq!(report.summary.len(), 11);
    assert_eq!(row(&report, "Number of commits_collection"), "3");
    let commits: Vec<(&str, u64)> =
        report.total_commits_by_day.iter().map(|r| (r.key.as_str(), r.value)).collect();
    assert_eq!(commits, vec![("2021-03-04", 1), ("2021-03-05", 1), ("2021-03-06", 1)]);
    let lines: Vec<(u64, u64)> =
        report.total_lines_by_day.iter().map(|r| (r.lines_added, r.lines_deleted)).collect();
    assert_eq!(lines, vec![(10, 0), (5, 2), (0, 3)]);
    let files: Vec<(u64, u64, u64, u64)> = report
        .total_files_by_day
        .iter()
        .map(|r| (r.files_added, r.files_modified, r.files_deleted, r.files_renamed))
        .collect();
    assert_eq!(files, vec![(1, 0, 0, 0), (1, 1, 0, 0), (0, 0, 1, 0)]);
    let mut cells: Vec<(u32, u32, u64)> =
        report.punch_data.iter().map(|p| (p.weekday, p.hour, p.commits)).collect();
    cells.sort();
    assert_eq!(cells, vec![(4, 5, 1), (5, 5, 1), (6, 5, 1)]);
    let empty = collect(&Vec::new());
    assert_eq!(row(&empty, "Number of commits_collection"), "0");
    assert_eq!(row(&empty, "First committer"), "");
    assert_eq!(row(&empty, "Avg size of a commit message"), "0 B");
    assert!(empty.total_commits_by_day.is_empty());
    assert!(empty.punch_data.is_empty());
}

#[test]
fn large_numbers_print_in_decimal() {
    let mut collector = SummaryStatsCollector::default();
    collector.process(&commit("a", THURSDAY, 18_446_744_073_709_551_615, 1_234_567_890, vec![]));
    let mut report = GitStatsViewModel::default();
    collector.update(&mut report);
    assert_eq!(row(&report, "Total lines_collection added"), "18446744073709551615");
    assert_eq!(row(&report, "Total lines_collection deleted"), "1234567890");
}
