use chrono::{DateTime, Duration, FixedOffset, Utc};
use forora::collectors::{StatCollector, SummaryStatsCollector};
use forora::commit::{CommitDate, GitCommit, LineStat};
use forora::process::process_commit;
use forora::stats::SummaryStats;

fn summary_of(collectors: &[StatCollector]) -> &SummaryStats {
    match &collectors[0] {
        StatCollector::Summary(collector) => &collector.summary,
        _ => panic!("the first collector is not the summary"),
    }
}

fn date_of(moment: DateTime<Utc>) -> CommitDate {
    CommitDate::new(moment.timestamp(), 0).unwrap()
}

fn printed(moment: DateTime<Utc>) -> String {
    let zone = FixedOffset::east_opt(0).unwrap();
    DateTime::from_timestamp(moment.timestamp(), 0).unwrap().with_timezone(&zone).to_string()
}

#[test]
fn test_overall_commit_count_with_1_commit() {
    let mut commit: GitCommit = GitCommit::default();
    commit.commit_hash = String::from("123");

    let mut stat_functions = vec![StatCollector::Summary(SummaryStatsCollector::default())];

    process_commit(&commit, &mut stat_functions);

    assert_eq!(1, summary_of(&stat_functions).commit_count);
}

#[test]
fn test_date_1_commit() {
    let now = Utc::now();
    let mut commit: GitCommit = GitCommit::default();
    commit.date = date_of(now);

    let mut stat_functions = vec![StatCollector::Summary(SummaryStatsCollector::default())];

    process_commit(&commit, &mut stat_functions);

    assert_eq!(commit.date.to_string(), summary_of(&stat_functions).date_first_commit);
    assert_eq!(printed(now), summary_of(&stat_functions).date_first_commit);
}

#[test]
fn test_date_2_commits() {
    let earlier = Utc::now() - Duration::days(2);
    let mut commit_1: GitCommit = GitCommit::default();
    commit_1.date = date_of(earlier);
    let mut commit_2: GitCommit = GitCommit::default();
    commit_2.date = date_of(Utc::now());

    let mut stat_functions = vec![StatCollector::Summary(SummaryStatsCollector::default())];

    process_commit(&commit_1, &mut stat_functions);
    process_commit(&commit_2, &mut stat_functions);

    assert_eq!(commit_1.date.to_string(), summary_of(&stat_functions).date_first_commit);
    assert_eq!(printed(earlier), summary_of(&stat_functions).date_first_commit);
}

#[test]
fn test_first_committer_1_commit() {
    let mut commit: GitCommit = GitCommit::default();
    commit.author = String::from("Bob");

    let mut stat_functions = vec![StatCollector::Summary(SummaryStatsCollector::default())];

    process_commit(&commit, &mut stat_functions);

    assert_eq!(summary_of(&stat_functions).first_committer, "Bob");
}

#[test]
fn test_first_committer_2_commits() {
    let mut commit_1: GitCommit = GitCommit::default();
    commit_1.author = String::from("Jeff");
    let mut commit_2: GitCommit = GitCommit::default();
    commit_2.author = String::from("Alan");

    let mut stat_functions = vec![StatCollector::Summary(SummaryStatsCollector::default())];

    process_commit(&commit_1, &mut stat_functions);
    process_commit(&commit_2, &mut stat_functions);

    assert_eq!(summary_of(&stat_functions).first_committer, "Jeff");
}

#[test]
fn test_lines_added_1_commit() {
    let mut commit: GitCommit = GitCommit::default();
    commit.line_stats = vec![LineStat { lines_added: 10, lines_deleted: 0 }];

    let mut stat_functions = vec![StatCollector::Summary(SummaryStatsCollector::default())];

    process_commit(&commit, &mut stat_functions);

    assert_eq!(summary_of(&stat_functions).total_lines_added, 10);
}

#[test]
fn test_lines_added_2_commit() {
    let mut commit_1: GitCommit = GitCommit::default();
    commit_1.line_stats = vec![LineStat { lines_added: 10, lines_deleted: 0 }];

    let mut commit_2: GitCommit = GitCommit::default();
    commit_2.line_stats = vec![LineStat { lines_added: 5, lines_deleted: 0 }];

    let mut stat_functions = vec![StatCollector::Summary(SummaryStatsCollector::default())];

    process_commit(&commit_1, &mut stat_functions);
    process_commit(&commit_2, &mut stat_functions);

    assert_eq!(summary_of(&stat_functions).total_lines_added, 15);
}

#[test]
fn test_lines_deleted_1_commit() {
    let mut commit: GitCommit = GitCommit::default();
    commit.line_stats = vec![LineStat { lines_added: 0, lines_deleted: 2 }];

    let mut stat_functions = vec![StatCollector::Summary(SummaryStatsCollector::default())];

    process_commit(&commit, &mut stat_functions);

    assert_eq!(summary_of(&stat_functions).total_lines_deleted, 2);
}

#[test]
fn test_lines_deleted_2_commit() {
    let mut commit_1: GitCommit = GitCommit::default();
    commit_1.line_stats = vec![LineStat { lines_added: 0, lines_deleted: 2 }];

    let mut commit_2: GitCommit = GitCommit::default();
    commit_2.line_stats = vec![LineStat { lines_added: 0, lines_deleted: 7 }];

    let mut stat_functions = vec![StatCollector::Summary(SummaryStatsCollector::default())];

    process_commit(&commit_1, &mut stat_functions);
    process_commit(&commit_2, &mut stat_functions);

    assert_eq!(summary_of(&stat_functions).total_lines_deleted, 9);
}
