use zxtracker::cli::{report_window, tags_listing};
use zxtracker::config::{
    data_dir, data_dir_from, db_path, db_path_from, desktop_dirs, desktop_dirs_from, join_path, socket_path,
    socket_path_from,
};
use zxtracker::dates::{date_days_before, days_window, today, DateError};
use zxtracker::idle::{idle_from_dbus_reply, idle_from_ticks, idle_from_xprintidle, parse_u64};
use zxtracker::ipc::{hourly_by_app, max_bucket, parse_command, split_app_list, unknown_command_error, Command};
use zxtracker::tracker::{app_id_from_path, FocusEvent};

#[test]
fn commands_by_name() {
    assert_eq!(parse_command("status"), Command::Status);
    assert_eq!(parse_command("get_today"), Command::GetToday);
    assert_eq!(parse_command("get_weekly"), Command::GetWeekly);
    assert_eq!(parse_command("get_hourly"), Command::GetHourly);
    assert_eq!(parse_command("get_tags"), Command::GetTags);
    assert_eq!(parse_command("shutdown"), Command::Shutdown);
    assert_eq!(parse_command("Status"), Command::Unknown);
    assert_eq!(parse_command(""), Command::Unknown);
    assert_eq!(unknown_command_error("foo"), "unknown cmd: foo");
}

#[test]
fn buckets_and_their_maximum() {
    assert_eq!(max_bucket(&vec![0, 5, 3, 5, -1]), 5);
    assert_eq!(max_bucket(&vec![0; 12]), 0);
    assert_eq!(max_bucket(&vec![]), 1);
    let rows = vec![
        ("b".to_string(), 1i64, 10i64),
        ("a".to_string(), 30, 99),
        ("a".to_string(), 3, 4),
        ("b".to_string(), 2, 5),
    ];
    let per_app = hourly_by_app(&rows);
    assert_eq!(per_app.len(), 2);
    assert_eq!(per_app[0].0, "b");
    assert_eq!(per_app[0].1, vec![10, 5, 0, 0, 0, 0, 0, 0, 0, 0, 0, 0]);
    assert_eq!(per_app[1].0, "a");
    assert_eq!(per_app[1].1, vec![0, 4, 0, 0, 0, 0, 0, 0, 0, 0, 0, 0]);
    let only_outside = vec![("z".to_string(), 25i64, 1i64)];
    assert!(hourly_by_app(&only_outside).is_empty());
}

#[test]
fn tag_lists() {
    assert_eq!(split_app_list("firefox,discord"), vec!["firefox".to_string(), "discord".to_string()]);
    assert_eq!(split_app_list(""), Vec::<String>::new());
    assert_eq!(split_app_list("a,,b"), vec!["a".to_string(), String::new(), "b".to_string()]);
    let tags = vec![
        ("摸鱼".to_string(), vec!["firefox".to_string(), "discord".to_string()]),
        ("empty".to_string(), vec![]),
    ];
    assert_eq!(tags_listing(&tags), "[摸鱼]\n  - firefox\n  - discord\n[empty]\n");
}

#[test]
fn numbers_as_str_parse_reads_them() {
    for s in ["0", "42", "+7", "", "+", "-1", "1 2", "18446744073709551615", "18446744073709551616", "0007", "x1"] {
        let chars: Vec<char> = s.chars().collect();
        assert_eq!(parse_u64(&chars), s.parse::<u64>().ok(), "input {:?}", s);
    }
}

#[test]
fn idle_outputs() {
    assert_eq!(idle_from_xprintidle("12345\n"), Some(12));
    assert_eq!(idle_from_xprintidle("  999 "), Some(0));
    assert_eq!(idle_from_xprintidle("abc"), None);
    assert_eq!(idle_from_xprintidle(""), None);
    assert_eq!(
        idle_from_dbus_reply("method return time=1.2 sender=:1.3 -> destination=:1.9 serial=5 reply_serial=2\n   uint32 61000\n"),
        Some(61)
    );
    assert_eq!(idle_from_dbus_reply("no numbers here"), None);
    assert_eq!(idle_from_dbus_reply("uint32 5000 uint32 7000"), Some(7));
    assert_eq!(idle_from_ticks(5000, 1000), 4);
    assert_eq!(idle_from_ticks(1000, 5000), 0);
}

#[test]
fn dates_through_chrono() {
    assert_eq!(date_days_before("2026-06-23", 6), Ok("2026-06-17".to_string()));
    assert_eq!(date_days_before("2024-03-01", 1), Ok("2024-02-29".to_string()));
    assert_eq!(date_days_before("2026-12-31", -1), Ok("2027-01-01".to_string()));
    assert_eq!(date_days_before("2026-06-23", 0), Ok("2026-06-23".to_string()));
    assert_eq!(date_days_before("june", 1), Err(DateError::NotADate));
    assert_eq!(date_days_before("2026-02-30", 1), Err(DateError::NotADate));
    assert_eq!(date_days_before("2026-06-23", i64::MAX), Err(DateError::OutOfRange));
    assert_eq!(date_days_before("2026-06-23", 2_000_000_000), Err(DateError::OutOfRange));
    let t = today();
    assert_eq!(t.len(), 10);
    assert_eq!(date_days_before(&t, 0), Ok(t.clone()));
    let (from, to) = days_window(7).unwrap();
    assert_eq!(to, t);
    assert_eq!(date_days_before(&to, 6), Ok(from.clone()));
    let (f, _, label) = report_window(true).unwrap();
    assert_eq!(label, "Month");
    assert_eq!(date_days_before(&to, 29), Ok(f));
    assert_eq!(report_window(false).unwrap().2, "Week");
}

#[test]
fn paths() {
    assert_eq!(join_path("/home/u/.local/share", "track"), "/home/u/.local/share/track");
    assert_eq!(join_path("/tmp/", "x"), "/tmp/x");
    assert_eq!(join_path("", "x"), "x");
    assert!(socket_path().ends_with("/track.sock"));
    assert!(data_dir().ends_with("/track"));
    assert!(db_path().ends_with("track/track.db"));
    let dirs = desktop_dirs();
    assert_eq!(dirs[0], "/usr/share/applications");
    if dirs.len() == 2 {
        assert!(dirs[1].ends_with("/applications"));
    }
}

#[test]
fn paths_from_given_directories() {
    let home = Some("/home/u/.local/share".to_string());
    assert_eq!(data_dir_from(home.clone()), "/home/u/.local/share/track");
    assert_eq!(data_dir_from(None), "/tmp/track");
    assert_eq!(db_path_from(home.clone()), "/home/u/.local/share/track/track.db");
    assert_eq!(db_path_from(None), "/tmp/track/track.db");
    assert_eq!(socket_path_from(Some("/run/user/1000".to_string())), "/run/user/1000/track.sock");
    assert_eq!(socket_path_from(None), "/tmp/track.sock");
    assert_eq!(
        desktop_dirs_from(home),
        vec!["/usr/share/applications".to_string(), "/home/u/.local/share/applications".to_string()]
    );
    assert_eq!(desktop_dirs_from(None), vec!["/usr/share/applications".to_string()]);
}

#[test]
fn windows_app_ids() {
    assert_eq!(app_id_from_path("C:\\Program Files\\Microsoft VS Code\\Code.exe"), "code");
    assert_eq!(app_id_from_path(""), "");
    assert_eq!(app_id_from_path("/usr/bin/Foo.BIN"), "foo");
    assert_eq!(app_id_from_path("D:\\games\\.hidden"), ".hidden");
    assert_eq!(app_id_from_path("archive.tar.GZ"), "archive.tar");
    assert_eq!(app_id_from_path("C:Code.exe"), "code");
    assert_eq!(app_id_from_path("\\\\server\\share"), "");
    assert_eq!(app_id_from_path("\\\\server\\share\\App.exe"), "app");
    assert_eq!(app_id_from_path("//server/share/App.exe"), "app");
    assert_eq!(app_id_from_path("\\\\server"), "server");
    assert_eq!(app_id_from_path("\\\\?\\C:\\dir/Tool.exe"), "dir/tool");
    assert_eq!(app_id_from_path("\\\\?\\UNC\\srv\\share\\X.exe"), "x");
    assert_eq!(app_id_from_path("\\\\?\\UNC\\srv\\share"), "");
    assert_eq!(app_id_from_path("\\\\?\\C:\\a\\."), "");
    assert_eq!(app_id_from_path("\\\\?\\pipe\\Name.x"), "name");
    assert_eq!(app_id_from_path("\\\\.\\COM42"), "");
    assert_eq!(app_id_from_path("C:\\a\\."), "a");
    assert_eq!(app_id_from_path("C:\\Program Files\\Mozilla Firefox\\FIREFOX.EXE"), "firefox");
    let e = FocusEvent { app_id: "a".to_string(), title: "t".to_string(), pid: 1, path: String::new(), timestamp: 0 };
    assert_eq!(e.pid, 1);
}
