use std::path::Path;
use witchcraft_server::logging::logger::log_date::{LogDate, MIN_YEAR};
use witchcraft_server::logging::logger::rolling_file::archive_file_name;
use witchcraft_server::logging::logger::rolling_file::{
    archive_gz_path, archive_gz_tmp_path, archive_path, clear_old_archives_inner, join_path, log_dir,
    log_path, next_archive_index, sort_archives, ArchiveKind, ArchiveLocator, ArchivedLog,
    CurrentFile, ReadyStep, RollingFileAppender, MAX_LOG_SIZE,
};

fn ymd(year: i32, month: u32, day: u32) -> LogDate {
    LogDate { year, month, day }
}

fn archived(path: String, date: LogDate, number: u32, len: u64) -> ArchivedLog {
    ArchivedLog { path, date, number, len }
}

#[test]
fn log_path_format() {
    let name = "service";

    assert_eq!(Path::new(&log_path(log_dir(), name)), Path::new("var/log/service.log"));
}

#[test]
fn archive_tmp_path_format() {
    let name = "service";
    let date = ymd(2017, 4, 20);
    let number = 3;

    assert_eq!(
        Path::new(&archive_path(log_dir(), name, date, number)),
        Path::new("var/log/service-2017-04-20-3.log"),
    );
}

#[test]
fn archive_path_format() {
    let name = "service";
    let date = ymd(2017, 4, 20);
    let number = 3;

    assert_eq!(
        Path::new(&archive_gz_path(log_dir(), name, date, number)),
        Path::new("var/log/service-2017-04-20-3.log.gz"),
    );
}

#[test]
fn archive_gz_tmp_path_format() {
    assert_eq!(
        archive_gz_tmp_path("var/log", "service", ymd(2017, 4, 20), 3),
        "var/log/service-2017-04-20-3.log.gz.tmp",
    );
}

#[test]
fn paths_in_an_absolute_directory() {
    assert_eq!(log_path("/tmp/x", "requests"), "/tmp/x/requests.log");
    assert_eq!(log_path("/tmp/x/", "requests"), "/tmp/x/requests.log");
}

#[test]
fn archive_locator() {
    // A log directory with two live logs and five archives of two logs.
    let files: Vec<(String, u64)> = vec![
        ("service.log".to_string(), 1),
        ("requests.log".to_string(), 2),
        ("service-2017-04-20-0.log.gz".to_string(), 3),
        ("service-2017-04-20-1.log.gz".to_string(), 4),
        ("service-2017-04-21-0.log.gz".to_string(), 5),
        ("service-2017-04-21-1.log.gz".to_string(), 6),
        ("requests-2017-04-20-0.log.gz".to_string(), 7),
    ];
    let day1 = ymd(2017, 4, 20);
    let day2 = ymd(2017, 4, 21);

    let locator = ArchiveLocator::new("service");
    let mut logs = Vec::new();
    for (file, len) in &files {
        if let Some((date, number)) = locator.parse(file, ArchiveKind::Gz) {
            logs.push(archived(join_path("dir", file), date, number, *len));
        }
    }
    let order = sort_archives(&logs);
    let logs: Vec<&ArchivedLog> = order.iter().map(|&i| &logs[i]).collect();

    let expected = [
        archived(archive_gz_path("dir", "service", day1, 0), day1, 0, 3),
        archived(archive_gz_path("dir", "service", day1, 1), day1, 1, 4),
        archived(archive_gz_path("dir", "service", day2, 0), day2, 0, 5),
        archived(archive_gz_path("dir", "service", day2, 1), day2, 1, 6),
    ];
    assert_eq!(logs.len(), expected.len());
    for (log, want) in logs.iter().zip(expected.iter()) {
        assert_eq!(log.path, want.path);
        assert_eq!(log.date, want.date);
        assert_eq!(log.number, want.number);
        assert_eq!(log.len, want.len);
    }
}

#[test]
fn archive_locator_kinds() {
    let locator = ArchiveLocator::new("service");
    assert_eq!(
        locator.parse("service-2017-04-20-3.log", ArchiveKind::Raw),
        Some((ymd(2017, 4, 20), 3))
    );
    assert_eq!(
        locator.parse("service-2017-04-20-3.log.gz.tmp", ArchiveKind::GzTmp),
        Some((ymd(2017, 4, 20), 3))
    );
    assert_eq!(locator.parse("service-2017-04-20-3.log", ArchiveKind::Gz), None);
    assert_eq!(locator.parse("service-2017-02-30-3.log.gz", ArchiveKind::Gz), None);
    assert_eq!(locator.parse("service-2017-04-20-x.log.gz", ArchiveKind::Gz), None);
    assert_eq!(locator.parse("service-2017-04-20-.log.gz", ArchiveKind::Gz), None);
    assert_eq!(locator.parse("service-2017-04-20-4294967296.log.gz", ArchiveKind::Gz), None);
    assert_eq!(
        locator.parse("service-2017-04-20-4294967295.log.gz", ArchiveKind::Gz),
        Some((ymd(2017, 4, 20), 4294967295))
    );
    assert_eq!(locator.parse("requests-2017-04-20-0.log.gz", ArchiveKind::Gz), None);
}

fn four_archives(lens: [u64; 4]) -> Vec<ArchivedLog> {
    let day1 = ymd(2017, 4, 20);
    let day2 = ymd(2017, 4, 21);
    vec![
        archived(archive_gz_path("dir", "service", day1, 0), day1, 0, lens[0]),
        archived(archive_gz_path("dir", "service", day1, 1), day1, 1, lens[1]),
        archived(archive_gz_path("dir", "service", day2, 0), day2, 0, lens[2]),
        archived(archive_gz_tmp_path("dir", "service", day2, 1), day2, 1, lens[3]),
    ]
}

#[test]
fn clear_old_archives_always_deletes_old_logs() {
    let logs = four_archives([0, 0, 0, 0]);
    let deleted = clear_old_archives_inner(ymd(2017, 5, 21), 1024 * 1024 * 1024, 30, &logs);

    assert!(deleted.contains(&0));
    assert!(deleted.contains(&1));
    assert!(!deleted.contains(&2));
    assert!(!deleted.contains(&3));
}

#[test]
fn clear_old_archives_deletes_to_save_space() {
    let logs = four_archives([4, 5, 1, 1023]);
    let deleted = clear_old_archives_inner(ymd(2017, 4, 21), 1024, 30, &logs);

    assert!(deleted.contains(&0));
    assert!(deleted.contains(&1));
    assert!(deleted.contains(&2));
    assert!(!deleted.contains(&3));
}

#[test]
fn clear_old_archives_ignores_missing_files() {
    // The first archive is gone from the disk; the decision is the same, and deleting a
    // missing file is not an error.
    let logs = four_archives([4, 5, 1, 1023]);
    let deleted = clear_old_archives_inner(ymd(2017, 4, 21), 1024, 30, &logs);

    assert_eq!(deleted, vec![0, 1, 2]);
}

#[test]
fn clear_old_archives_deletes_oldest_first() {
    let day1 = ymd(2017, 4, 20);
    let day2 = ymd(2017, 4, 21);
    let logs = vec![
        archived("c".to_string(), day2, 0, 10),
        archived("b".to_string(), day1, 1, 10),
        archived("a".to_string(), day1, 0, 10),
    ];
    assert_eq!(clear_old_archives_inner(day2, 15, 30, &logs), vec![2, 1]);
    assert_eq!(clear_old_archives_inner(day2, 31, 30, &logs), Vec::<usize>::new());
    assert_eq!(clear_old_archives_inner(day2, 30, 30, &logs), vec![2]);
}

#[test]
fn next_archive_number() {
    let today = ymd(2017, 4, 21);
    let archived_logs = vec![
        archived("a".to_string(), today, 0, 1),
        archived("b".to_string(), today, 4, 1),
        archived("c".to_string(), ymd(2017, 4, 20), 9, 1),
    ];
    let uncompressed = vec![archived("d".to_string(), today, 5, 1)];
    assert_eq!(next_archive_index(&archived_logs, &uncompressed, today), 6);
    assert_eq!(next_archive_index(&Vec::new(), &Vec::new(), today), 0);
}

#[test]
fn rolls_over_on_size_and_date() {
    let today = ymd(2017, 4, 21);
    let mut appender = RollingFileAppender::new("service", 1, 30, 10, today, &Vec::new(), &Vec::new());
    assert_eq!(appender.live(), Some(CurrentFile { len: 10, date: today }));
    assert_eq!(appender.max_archive_size(), 1024 * 1024 * 1024);
    assert_eq!(appender.max_archive_days(), 30);
    assert_eq!(appender.name(), "service");
    assert!(matches!(appender.poll_ready(today), ReadyStep::Write));
    appender.start_send(MAX_LOG_SIZE - 10);
    match appender.poll_ready(today) {
        ReadyStep::Rotate { date, number } => {
            assert_eq!(date, today);
            assert_eq!(number, 0);
        }
        ReadyStep::Write => panic!("a full log is rotated"),
    }
    appender.rotated(today);
    assert!(matches!(appender.poll_ready(today), ReadyStep::Write));
    let tomorrow = ymd(2017, 4, 22);
    match appender.poll_ready(tomorrow) {
        ReadyStep::Rotate { date, number } => {
            assert_eq!(date, today);
            assert_eq!(number, 1);
        }
        ReadyStep::Write => panic!("yesterday's log is rotated"),
    }
}

#[test]
fn log_dates() {
    assert_eq!(ymd(2017, 3, 1).pred(), ymd(2017, 2, 28));
    assert_eq!(ymd(2016, 3, 1).pred(), ymd(2016, 2, 29));
    assert_eq!(ymd(2017, 1, 1).pred(), ymd(2016, 12, 31));
    assert_eq!(ymd(2017, 5, 21).go_back(30), ymd(2017, 4, 21));
    assert!(ymd(2017, 4, 20).lt(&ymd(2017, 4, 21)));
    assert!(!ymd(2017, 4, 21).lt(&ymd(2017, 4, 21)));
    assert!(ymd(2017, 4, 21).le(&ymd(2017, 4, 21)));
    assert!(!ymd(2017, 2, 29).is_valid());
    assert!(ymd(2000, 2, 29).is_valid());
    assert!(!ymd(1900, 2, 29).is_valid());
    let mut s = String::new();
    ymd(17, 1, 2).push_text(&mut s);
    assert_eq!(s, "0017-01-02");
}

#[test]
fn archive_names_read_back() {
    let locator = ArchiveLocator::new("request");
    for (date, number) in [(ymd(2017, 4, 20), 0), (ymd(1, 1, 1), 4_294_967_295), (ymd(9999, 12, 31), 17)] {
        for kind in [ArchiveKind::Raw, ArchiveKind::Gz, ArchiveKind::GzTmp] {
            let file = archive_file_name("request", date, number, kind);
            assert_eq!(locator.parse(&file, kind), Some((date, number)));
        }
    }
    assert_eq!(
        archive_file_name("request", ymd(2017, 4, 20), 3, ArchiveKind::Gz),
        "request-2017-04-20-3.log.gz"
    );
}

#[test]
fn going_back_stops_at_the_first_date() {
    assert_eq!(ymd(2017, 5, 21).try_go_back(30), Some(ymd(2017, 4, 21)));
    let first = ymd(MIN_YEAR, 1, 1);
    assert_eq!(first.try_go_back(0), Some(first));
    assert_eq!(first.try_go_back(1), None);
    assert_eq!(ymd(MIN_YEAR, 1, 3).try_go_back(2), Some(first));
    assert_eq!(ymd(MIN_YEAR, 1, 3).try_go_back(3), None);
}
