//! Levels, dates and the rotation of log files.

use std::path::{Component, PathBuf};

use asset_shelf::calendar::civil_from_days;
use asset_shelf::logging::{
    active_log_path, current_level, enabled, log_file_name, log_line, logs_dir, logs_to_remove,
    mirrored, newest_log, open_log, options_from_env, set_level, timestamp_str, ActiveLog,
    InitOptions, Level, LogFile,
};
use asset_shelf::startup::default_log_dir;

const LEVELS: [Level; 6] = [
    Level::Off,
    Level::Error,
    Level::Warn,
    Level::Info,
    Level::Debug,
    Level::Trace,
];

#[test]
fn level_parse_roundtrip() {
    for lvl in LEVELS {
        assert_eq!(Level::parse(lvl.as_str()), Some(lvl));
        assert_eq!(Level::parse(&lvl.as_str().to_uppercase()), Some(lvl));
    }
    assert_eq!(Level::parse("verbose"), None);
    assert_eq!(Level::parse(""), None);
}

#[test]
fn level_ordering_is_monotonic() {
    assert!(Level::Off < Level::Error);
    assert!(Level::Error < Level::Warn);
    assert!(Level::Warn < Level::Info);
    assert!(Level::Info < Level::Debug);
    assert!(Level::Debug < Level::Trace);
}

#[test]
fn timestamp_is_utc_iso_like() {
    let now = std::time::SystemTime::now()
        .duration_since(std::time::UNIX_EPOCH)
        .unwrap()
        .as_millis() as u64;
    let s = timestamp_str(now);
    assert!(s.len() >= 24, "{s}");
    assert!(s.ends_with(" UTC"));
    assert!(s.contains(':'));
}

#[test]
fn civil_from_days_epoch() {
    assert_eq!(civil_from_days(0), (1970, 1, 1));
}

#[test]
fn dates_are_those_of_the_calendar() {
    assert_eq!(civil_from_days(-1), (1969, 12, 31));
    assert_eq!(civil_from_days(11_016), (2000, 2, 29));
    assert_eq!(civil_from_days(11_017), (2000, 3, 1));
    assert_eq!(civil_from_days(20_694), (2026, 8, 29));
    assert_eq!(civil_from_days(-719_468), (0, 3, 1));
    assert_eq!(civil_from_days(-719_529), (-1, 12, 31));
}

#[test]
fn timestamps_name_the_moment() {
    assert_eq!(timestamp_str(0), "1970-01-01 00:00:00.000 UTC");
    assert_eq!(timestamp_str(951_827_696_789), "2000-02-29 12:34:56.789 UTC");
}

#[test]
fn prune_keeps_newest_n() {
    let files: Vec<LogFile> = (0..12u64)
        .map(|i| LogFile { name: format!("probe-1-{i}.log"), modified: Some(1000 + i) })
        .collect();
    let gone = logs_to_remove(&files, "probe", 8);
    assert_eq!(gone, vec![0, 1, 2, 3]);
    assert_eq!(files.len() - gone.len(), 8);
}

#[test]
fn pruning_leaves_other_files_alone() {
    let file = |name: &str, modified: Option<u64>| LogFile { name: name.to_string(), modified };
    let files = vec![
        file("app-1-9.log", Some(9)),
        file("probe-1-5.log", Some(5)),
        file("probe-1-1.txt", Some(1)),
        file("probe-1-3.log", None),
        file("probe-1-2.log", Some(2)),
    ];
    assert_eq!(logs_to_remove(&files, "probe", 1), vec![4]);
    assert_eq!(logs_to_remove(&files, "probe", 0), vec![4, 1]);
    assert_eq!(logs_to_remove(&files, "none", 0), Vec::<usize>::new());
    assert_eq!(newest_log(&files), Some(0));
    assert_eq!(newest_log(&vec![file("a.txt", Some(1))]), None);
}

#[test]
fn lines_and_names_of_the_log() {
    assert_eq!(log_file_name("app", 17, 42), "app-17-42.log");
    let line = log_line("2026-01-01 00:00:00.000 UTC", Level::Warn, "lib", "careful");
    assert!(line.contains("careful"), "{line}");
    assert!(line.contains("lib"), "{line}");
    assert!(line.starts_with("2026-01-01"), "{line}");
}

#[test]
fn settings_of_the_environment_win() {
    let own = options_from_env(
        "worker",
        Some("/env".to_string()),
        Some("TRACE"),
        Some("/fallback".to_string()),
        "/default".to_string(),
        Level::Info,
    );
    assert_eq!((own.dir.as_str(), own.level), ("/env", Level::Trace));
    let none = options_from_env("worker", None, Some("loud"), None, "/default".to_string(), Level::Info);
    assert_eq!((none.dir.as_str(), none.level), ("/default", Level::Info));
    assert_eq!(none.name, "worker");
    assert!(none.mirror_stderr);
}

#[test]
fn level_of_the_active_log_can_change() {
    let mut log = None;
    set_level(&mut log, Level::Trace);
    assert_eq!(current_level(&log), Level::Off);
    assert_eq!(logs_dir(&log), None);
    assert_eq!(active_log_path(&log), None);
    let mut log = Some(ActiveLog {
        level: Level::Info,
        mirror_stderr: true,
        path: "/logs/app.log".to_string(),
    });
    set_level(&mut log, Level::Debug);
    assert_eq!(current_level(&log), Level::Debug);
    assert_eq!(logs_dir(&log), Some("/logs".to_string()));
    assert_eq!(active_log_path(&log), Some("/logs/app.log".to_string()));
    let active = log.unwrap();
    assert!(mirrored(&active, Level::Error) && !mirrored(&active, Level::Info));
    assert!(enabled(Level::Info, Level::Debug) && !enabled(Level::Trace, Level::Debug));
}

#[test]
fn log_directory_is_never_the_current_one() {
    let dir = default_log_dir(Some("C:/local"), Some("C:/me"), "C:/tmp");
    assert_eq!(dir.base.as_deref(), Some("C:/local"));
    assert_eq!(dir.below, vec!["asset-manager", "logs"]);
    let dir = default_log_dir(None, Some("C:/me"), "C:/tmp");
    assert_eq!(dir.base.as_deref(), Some("C:/me"));
    assert_eq!(dir.below, vec!["AppData", "Local", "asset-manager", "logs"]);
    let dir = default_log_dir(None, None, "C:/tmp");
    assert_eq!(dir.base.as_deref(), Some("C:/tmp"));
}

#[test]
fn platform_default_dir_is_absolute_and_never_cwd() {
    let homes = [(Some("/u/AppData/Local"), None), (None, Some("/u")), (None, None)];
    for (local, profile) in homes {
        let place = default_log_dir(local, profile, "/tmp");
        let mut dir = PathBuf::from(place.base.expect("a base"));
        for part in place.below {
            dir.push(part);
        }
        assert!(dir.is_absolute(), "{dir:?}");
        for component in dir.components() {
            assert!(!matches!(component, Component::CurDir), "{dir:?}");
        }
        assert!(dir.ends_with("asset-manager/logs"));
    }
}

#[test]
fn a_log_is_opened_once() {
    let options = |dir: &str, level: Level| InitOptions {
        dir: dir.to_string(),
        name: "app".to_string(),
        level,
        mirror_stderr: false,
    };
    let mut log = None;
    assert_eq!(open_log(&mut log, options("/a", Level::Debug), None), None);
    assert_eq!(current_level(&log), Level::Off);
    let path = Some("/a/app.log".to_string());
    assert_eq!(open_log(&mut log, options("/a", Level::Debug), path.clone()), path);
    assert_eq!(current_level(&log), Level::Debug);
    set_level(&mut log, Level::Warn);
    let before = log.clone();
    let other = Some("/b/app.log".to_string());
    assert_eq!(open_log(&mut log, options("/b", Level::Trace), other), path);
    assert_eq!(log, before);
    assert_eq!(current_level(&log), Level::Warn);
    assert_eq!(logs_dir(&log), Some("/a".to_string()));
}

#[test]
fn logs_lie_where_their_file_is() {
    let dir_of = |path: &str| {
        logs_dir(&Some(ActiveLog {
            level: Level::Info,
            mirror_stderr: false,
            path: path.to_string(),
        }))
    };
    assert_eq!(dir_of("/logs/sub/app-1-2.log"), Some("/logs/sub".to_string()));
    assert_eq!(dir_of("/logs//app-1-2.log"), Some("/logs".to_string()));
    assert_eq!(dir_of("app-1-2.log"), Some(String::new()));
    assert_eq!(dir_of("/"), None);
}
