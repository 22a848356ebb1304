use std::collections::HashMap;
use zxtracker::analyze::{
    bucket_totals, render_activations, render_duration, render_heatmap,
    render_schedule, schedule_times, total_seconds,
};
use zxtracker::browse::{key_from_bytes, next_view, Analysis, AnalysisView, Key};
use zxtracker::desktop::DesktopDB;
use zxtracker::names::NameMap;
use zxtracker::render::format_duration;

fn rows(v: &[(&str, i64, i64)]) -> Vec<(String, i64, i64)> {
    v.iter().map(|(a, b, c)| (a.to_string(), *b, *c)).collect()
}

fn trun(s: &str, max: usize) -> String {
    s.chars().take(max).collect()
}

fn oracle_duration_view(stats: &[(String, i64, i64)], names: &dyn Fn(&str) -> String) -> String {
    let mut out = String::new();
    out.push_str("  ── Duration ──\n");
    out.push_str(&format!("  {:<32} {:>12} {:>8}\n", "APP", "TIME", "TIMES"));
    out.push_str(&format!("  {:-<54}\n", ""));
    for (app, secs, ct) in stats.iter().take(12) {
        out.push_str(&format!("  {:<32} {:>12} {:>8}\n", trun(&names(app), 32), format_duration(*secs), ct));
    }
    out.push('\n');
    out
}

fn oracle_activation_view(stats: &[(String, i64, i64)], names: &dyn Fn(&str) -> String) -> String {
    let mut sorted: Vec<_> = stats.iter().collect();
    sorted.sort_by_key(|b| std::cmp::Reverse(b.2));
    let mut out = String::new();
    out.push_str("  ── Activations ──\n");
    out.push_str(&format!("  {:<32} {:>8} {:>12}\n", "APP", "SWITCHES", "TIME"));
    out.push_str(&format!("  {:-<54}\n", ""));
    for (app, secs, ct) in sorted.iter().take(12) {
        out.push_str(&format!("  {:<32} {:>8} {:>12}\n", trun(&names(app), 32), ct, format_duration(*secs)));
    }
    out.push('\n');
    out
}

fn fallback(app: &str) -> String {
    zxtracker::desktop::friendly_fallback(app)
}

#[test]
fn duration_view_lists_first_twelve_rows() {
    let mut v = Vec::new();
    for i in 0..15 {
        v.push((format!("app{}", i), 1000 - i as i64, i as i64));
    }
    let text = render_duration(&v, &DesktopDB::new(), &NameMap::new());
    assert_eq!(text, oracle_duration_view(&v, &fallback));
    assert!(!text.contains("App13"));
}

#[test]
fn activation_view_ranks_by_switches() {
    let stats = rows(&[("code-oss", 9000, 5), ("firefox", 8000, 9), ("alacritty", 7000, 5), ("steam", 100, 12)]);
    let text = render_activations(&stats, &DesktopDB::new(), &NameMap::new());
    assert_eq!(text, oracle_activation_view(&stats, &fallback));
    let steam = text.find("Steam").unwrap();
    let firefox = text.find("Firefox").unwrap();
    let code = text.find("Code-oss").unwrap();
    let alacritty = text.find("Alacritty").unwrap();
    assert!(steam < firefox && firefox < code && code < alacritty);
}

#[test]
fn names_come_from_stored_names() {
    let stats = rows(&[("firefox", 60, 1)]);
    let mut meta = NameMap::new();
    meta.insert("firefox".to_string(), "Mozilla Firefox".to_string());
    let text = render_duration(&stats, &DesktopDB::new(), &meta);
    assert!(text.contains("  Mozilla Firefox "));
}

#[test]
fn buckets_sum_two_hour_slots() {
    let hourly = rows(&[
        ("firefox", 9, 4000),
        ("firefox", 8, 100),
        ("code", 23, 700),
        ("firefox", 24, 9999),
        ("firefox", -1, 9999),
        ("code", 0, 5),
    ]);
    let ff = "firefox".to_string();
    let b = bucket_totals(&hourly, Some(&ff));
    assert_eq!(b, vec![0, 0, 0, 0, 4100, 0, 0, 0, 0, 0, 0, 0]);
    let all = bucket_totals(&hourly, None);
    assert_eq!(all, vec![5, 0, 0, 0, 4100, 0, 0, 0, 0, 0, 0, 700]);
}

fn oracle_heatmap(hourly: &[(String, i64, i64)], stats: &[(String, i64, i64)]) -> String {
    let top: Vec<&str> = stats.iter().take(6).map(|(a, _, _)| a.as_str()).collect();
    let mut hm: HashMap<(&str, usize), i64> = HashMap::new();
    for (app, hour, secs) in hourly {
        let b = (*hour as usize) / 2;
        if b < 12 {
            *hm.entry((app.as_str(), b)).or_insert(0) += secs;
        }
    }
    let mut out = String::new();
    out.push_str("  ── Heatmap (2h buckets) ──\n");
    out.push_str(&format!("  {:<32}", ""));
    for h in 0..12 {
        out.push_str(&format!("{:02}-{:02} ", h * 2, (h + 1) * 2));
    }
    out.push('\n');
    for app in &top {
        out.push_str(&format!("  {:<32}", trun(&fallback(app), 32)));
        for b in 0..12 {
            let v = *hm.get(&(*app, b)).unwrap_or(&0);
            let ch = if v > 3600 { '█' } else if v > 1800 { '▓' } else if v > 600 { '▒' } else if v > 60 { '░' } else { ' ' };
            out.push_str(&format!(" {}  ", ch));
        }
        out.push('\n');
    }
    out.push_str("  █ >1h  ▓ >30m  ▒ >10m  ░ >1m\n");
    out.push('\n');
    out
}

#[test]
fn heatmap_marks_density() {
    let hourly = rows(&[("firefox", 9, 4000), ("code", 23, 700), ("code", 12, 2000), ("vim", 3, 61), ("x", 5, 60)]);
    let stats = rows(&[("firefox", 4000, 1), ("code", 2700, 2), ("vim", 61, 1), ("x", 60, 1)]);
    let text = render_heatmap(&hourly, &stats, &DesktopDB::new(), &NameMap::new());
    assert_eq!(text, oracle_heatmap(&hourly, &stats));
    assert!(text.contains('█') && text.contains('▓') && text.contains('▒') && text.contains('░'));
}

#[test]
fn heatmap_shows_first_six_apps() {
    let stats: Vec<(String, i64, i64)> = (0..10).map(|i| (format!("app{}", i), 10, 1)).collect();
    let text = render_heatmap(&Vec::new(), &stats, &DesktopDB::new(), &NameMap::new());
    assert!(text.contains("App5"));
    assert!(!text.contains("App6"));
}

#[test]
fn schedule_shows_dash_without_time() {
    let seen = vec![("firefox".to_string(), 0i64), ("code".to_string(), 1_700_000_000i64)];
    let text = render_schedule(&seen, &DesktopDB::new(), &NameMap::new());
    let lines: Vec<&str> = text.lines().collect();
    assert_eq!(lines[0], "  ── Average First Seen ──");
    assert_eq!(lines[3], format!("  {:<32} {:>12}", "Firefox", "-"));
    assert!(lines[4].starts_with(&format!("  {:<32}        ", "Code")));
    assert_eq!(lines[4].chars().count(), 2 + 32 + 1 + 12);
    assert_eq!(lines[4].chars().nth(2 + 32 + 1 + 9), Some(':'));
}

#[test]
fn schedule_times_follow_the_timestamps() {
    let seen = vec![("a".to_string(), 1_700_000_000i64), ("b".to_string(), 1_700_003_600i64), ("c".to_string(), -5i64)];
    let times = schedule_times(&seen);
    let local = |ts: i64| {
        chrono::DateTime::from_timestamp(ts, 0).unwrap().with_timezone(&chrono::Local).format("%H:%M").to_string()
    };
    assert_eq!(times, vec![local(1_700_000_000), local(1_700_003_600), "-".to_string()]);
    assert_ne!(times[0], times[1]);
}

#[test]
fn report_without_data() {
    let a = Analysis::new(7, "2026-06-17".to_string(), "2026-06-23".to_string(), Vec::new(), Vec::new(), Vec::new());
    assert!(!a.has_data());
    assert_eq!(
        a.no_data_text(),
        "\n  ══════ 7-Day Analysis (2026-06-17 ~ 2026-06-23) ══════\n  Total tracked:   0h  0m  0s\n\n  No data yet. Keep the daemon running to collect data.\n"
    );
}

#[test]
fn analysis_shows_one_view_at_a_time() {
    let stats = rows(&[("firefox", 7200, 3), ("code", 3600, 4)]);
    let hourly = rows(&[("firefox", 10, 7200), ("code", 14, 3600)]);
    let seen = vec![("firefox".to_string(), 0i64)];
    let a = Analysis::new(14, "a".to_string(), "b".to_string(), stats.clone(), hourly.clone(), seen.clone());
    assert!(a.has_data());
    let desktop = DesktopDB::new();
    let meta = NameMap::new();
    let head = |tabs: &str| {
        format!(
            "\x1b[H\x1b[JZXTracker — 14-Day Analysis (a ~ b)  |  ← → / 1-4 switch view  |  q quit\n{}\n{:-<60}\n  Total tracked:   3h  0m  0s\n\n",
            tabs, ""
        )
    };
    let screen = a.screen(AnalysisView::Duration, &desktop, &meta);
    assert_eq!(
        screen,
        head(" [Duration]   Activations    Heatmap    Schedule ") + &render_duration(&stats, &desktop, &meta)
    );
    assert!(!screen.contains("── Activations"));
    assert_eq!(
        a.screen(AnalysisView::Activations, &desktop, &meta),
        head("  Duration   [Activations]   Heatmap    Schedule ") + &render_activations(&stats, &desktop, &meta)
    );
    assert_eq!(
        a.screen(AnalysisView::Heatmap, &desktop, &meta),
        head("  Duration    Activations   [Heatmap]   Schedule ") + &render_heatmap(&hourly, &stats, &desktop, &meta)
    );
    assert_eq!(
        a.screen(AnalysisView::Schedule, &desktop, &meta),
        head("  Duration    Activations    Heatmap   [Schedule]") + &render_schedule(&seen, &desktop, &meta)
    );
    assert_eq!(total_seconds(&stats), 10800);
}

#[test]
fn keys_switch_views() {
    assert_eq!(key_from_bytes(&vec![27, 91, 68]), Key::Left);
    assert_eq!(key_from_bytes(&vec![27, 91, 67]), Key::Right);
    assert_eq!(key_from_bytes(&vec![b'1']), Key::Select(AnalysisView::Duration));
    assert_eq!(key_from_bytes(&vec![b'2']), Key::Select(AnalysisView::Activations));
    assert_eq!(key_from_bytes(&vec![b'3']), Key::Select(AnalysisView::Heatmap));
    assert_eq!(key_from_bytes(&vec![b'4']), Key::Select(AnalysisView::Schedule));
    assert_eq!(key_from_bytes(&vec![b'q']), Key::Quit);
    assert_eq!(key_from_bytes(&vec![27]), Key::Quit);
    assert_eq!(key_from_bytes(&vec![b'5']), Key::Other);
    assert_eq!(key_from_bytes(&vec![27, 91, 65]), Key::Other);
    assert_eq!(key_from_bytes(&vec![]), Key::Other);
    assert_eq!(key_from_bytes(&vec![b'q', b'q']), Key::Other);

    let d = AnalysisView::Duration;
    assert_eq!(next_view(d, Key::Right), Some(AnalysisView::Activations));
    assert_eq!(next_view(d, Key::Left), Some(AnalysisView::Schedule));
    assert_eq!(next_view(AnalysisView::Schedule, Key::Right), Some(d));
    assert_eq!(next_view(AnalysisView::Heatmap, Key::Left), Some(AnalysisView::Activations));
    assert_eq!(next_view(d, Key::Select(AnalysisView::Heatmap)), Some(AnalysisView::Heatmap));
    assert_eq!(next_view(AnalysisView::Heatmap, Key::Other), Some(AnalysisView::Heatmap));
    assert_eq!(next_view(AnalysisView::Heatmap, Key::Quit), None);
    let mut v = AnalysisView::Activations;
    for _ in 0..4 {
        v = next_view(v, Key::Right).unwrap();
    }
    assert_eq!(v, AnalysisView::Activations);
    assert_eq!(next_view(next_view(v, Key::Right).unwrap(), Key::Left), Some(v));
}

#[test]
fn bucket_totals_add_up_to_the_rows_in_the_day() {
    let hourly = rows(&[("a", 0, 5), ("b", 23, 7), ("a", 24, 100), ("a", -3, 100), ("b", 11, 1)]);
    let all = bucket_totals(&hourly, None);
    assert_eq!(all.iter().sum::<i64>(), 13);
    let a = "a".to_string();
    assert_eq!(bucket_totals(&hourly, Some(&a)).iter().sum::<i64>(), 5);
}
