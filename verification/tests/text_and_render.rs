use zxtracker::order::desc_order_of;
use zxtracker::render::{
    format_duration, init_screen, label_usage, not_running_frame, render_dashboard, restore_screen, usage_table,
};
use zxtracker::text::trun;

fn oracle_trun(s: &str, max: usize) -> &str {
    match s.char_indices().nth(max) {
        Some((i, _)) => &s[..i],
        None => s,
    }
}

fn oracle_duration(total_secs: i64) -> String {
    let h = total_secs / 3600;
    let m = (total_secs % 3600) / 60;
    let s = total_secs % 60;
    format!("{:>3}h {:>2}m {:>2}s", h, m, s)
}

#[test]
fn format_duration_exact_values() {
    assert_eq!(format_duration(9015), "  2h 30m 15s");
    assert_eq!(format_duration(0), "  0h  0m  0s");
    assert_eq!(format_duration(59), "  0h  0m 59s");
    assert_eq!(format_duration(360000), "100h  0m  0s");
    assert_eq!(format_duration(-61), "  0h -1m -1s");
}

#[test]
fn format_duration_matches_std_formatting() {
    for t in [0i64, 1, 61, 3599, 3600, 86399, 123456789, -1, -3601, i64::MAX, i64::MIN] {
        assert_eq!(format_duration(t), oracle_duration(t));
    }
}

#[test]
fn trun_cuts_by_characters() {
    assert_eq!(trun("firefox", 3), "fir");
    assert_eq!(trun("fox", 10), "fox");
    assert_eq!(trun("摸鱼摸鱼", 2), "摸鱼");
    assert_eq!(trun("", 0), "");
    assert_eq!(trun("abc", 0), "");
}

#[test]
fn screen_sequences() {
    assert_eq!(init_screen(), "\x1b[?1049h\x1b[?25l");
    assert_eq!(restore_screen(), "\x1b[?25h\x1b[?1049l");
    assert_eq!(
        not_running_frame("/tmp/track.sock"),
        "\x1b[H\x1b[Jdaemon not running (/tmp/track.sock not found)\x1b[K"
    );
}

fn oracle_dashboard(current: &str, app_id: &str, is_idle: bool, usage: &[(String, i64)]) -> String {
    let mut out = String::new();
    out.push_str("\x1b[H");
    out.push_str("ZXTracker — real-time dashboard\x1b[K\n");
    let status = if is_idle { "[IDLE] " } else { "" };
    let app_display = if app_id.is_empty() { "-" } else { app_id };
    out.push_str(&format!(
        "{}{:<30}  {}\x1b[K\n",
        status,
        oracle_trun(app_display, 28),
        oracle_trun(current, 70)
    ));
    out.push_str(&format!("{:-<80}\x1b[K\n", ""));
    for (app, secs) in usage {
        out.push_str(&format!("  {:<30} {}\x1b[K\n", oracle_trun(app, 30), oracle_duration(*secs)));
    }
    out.push_str("\x1b[J");
    out
}

#[test]
fn dashboard_frame_matches_layout() {
    let usage = vec![
        ("firefox".to_string(), 5000i64),
        ("a-very-long-application-identifier-indeed".to_string(), 61),
    ];
    assert_eq!(
        render_dashboard("Mozilla Firefox", "firefox", false, &usage),
        oracle_dashboard("Mozilla Firefox", "firefox", false, &usage)
    );
    assert_eq!(
        render_dashboard("[idle]", "", true, &Vec::new()),
        oracle_dashboard("[idle]", "", true, &[])
    );
    let frame = render_dashboard("t", "", true, &Vec::new());
    assert!(frame.contains("[IDLE] -"));
}

fn oracle_usage_table(label: &str, usage: &[(String, i64, i64)]) -> String {
    let mut out = String::new();
    out.push_str(&format!("{}\n", label));
    out.push_str(&format!("{:-<60}\n", ""));
    out.push_str(&format!("{:<32} {:>12} {:>8}\n", "APP", "TIME", "TIMES"));
    out.push_str(&format!("{:-<60}\n", ""));
    let mut total = 0i64;
    for (app, secs, ct) in usage {
        out.push_str(&format!("  {:<30} {:>12} {:>8}\n", oracle_trun(app, 30), oracle_duration(*secs), ct));
        total += secs;
    }
    out.push_str(&format!("{:-<60}\n", ""));
    out.push_str(&format!("  Total: {}\n", oracle_duration(total)));
    out
}

#[test]
fn usage_table_matches_layout() {
    let usage = vec![
        ("code-oss".to_string(), 9015i64, 5i64),
        ("firefox".to_string(), 4808, 3),
        ("alacritty".to_string(), 2722, 7),
    ];
    let text = usage_table("Today", &usage);
    assert_eq!(text, oracle_usage_table("Today", &usage));
    assert!(text.ends_with("  Total:   4h 35m 45s\n"));
    assert_eq!(usage_table("Week", &Vec::new()), oracle_usage_table("Week", &[]));
}

fn oracle_label_usage(label: &str, usage: &[(String, i64)]) -> String {
    let mut out = String::new();
    out.push_str(&format!("[{}] label usage\n", label));
    out.push_str(&format!("{:-<50}\n", ""));
    let mut total = 0i64;
    for (app, secs) in usage {
        out.push_str(&format!("  {:<30} {}\n", oracle_trun(app, 30), oracle_duration(*secs)));
        total += secs;
    }
    out.push_str(&format!("{:-<50}\n", ""));
    out.push_str(&format!("  Total: {}\n", oracle_duration(total)));
    out
}

#[test]
fn label_usage_matches_layout() {
    let usage = vec![("firefox".to_string(), 5422i64), ("discord".to_string(), 1205)];
    let text = label_usage("摸鱼", &usage);
    assert_eq!(text, oracle_label_usage("摸鱼", &usage));
    assert!(text.ends_with("  Total:   1h 50m 27s\n"));
}

#[test]
fn descending_order_is_stable() {
    assert_eq!(desc_order_of(&vec![3, 5, 3, 9]), vec![3, 1, 0, 2]);
    assert_eq!(desc_order_of(&vec![]), Vec::<usize>::new());
    assert_eq!(desc_order_of(&vec![1, 1, 1]), vec![0, 1, 2]);
    assert_eq!(desc_order_of(&vec![-5, 0, 7, -5]), vec![2, 1, 0, 3]);
}
