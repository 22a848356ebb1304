//! The interactive analysis: one view at a time, switched with the arrow keys or
//! `1`-`4`, left with `q` or `Esc`.
use vstd::prelude::*;
use crate::analyze::{
    activation_section, all_app_sums_fit, duration_section, heatmap_section, render_activations,
    render_duration, render_heatmap, render_schedule_with, report_head, schedule_section,
    schedule_times, schedule_times_ok, total_seconds, usage_total, usage_total_fits, HourRow,
    SeenRow, UsageRow,
};
use crate::desktop::DesktopDB;
use crate::names::NameMap;
use crate::render::{duration_text, push_duration};
use crate::text::{decimal, decimal_of, push_chars, push_repeat, push_str, repeat, string_of};

verus! {

/// The four views of the analysis, in the order of their tabs.
#[derive(PartialEq, Eq, Structural, Clone, Copy, Debug)]
pub enum AnalysisView {
    Duration,
    Activations,
    Heatmap,
    Schedule,
}

/// A key pressed while the analysis is shown.
#[derive(PartialEq, Eq, Structural, Clone, Copy, Debug)]
pub enum Key {
    /// The left arrow: the previous view.
    Left,
    /// The right arrow: the next view.
    Right,
    /// `1` to `4`: that view.
    Select(AnalysisView),
    /// `q` or `Esc`: leave.
    Quit,
    /// Any other key: nothing changes.
    Other,
}

/// The position of a view among the tabs, from 0.
pub open spec fn view_index(v: AnalysisView) -> int {
    match v {
        AnalysisView::Duration => 0,
        AnalysisView::Activations => 1,
        AnalysisView::Heatmap => 2,
        AnalysisView::Schedule => 3,
    }
}

/// The view at position `i` (0 to 3) among the tabs.
pub open spec fn view_at(i: int) -> AnalysisView {
    if i == 0 {
        AnalysisView::Duration
    } else if i == 1 {
        AnalysisView::Activations
    } else if i == 2 {
        AnalysisView::Heatmap
    } else {
        AnalysisView::Schedule
    }
}

/// The key that the bytes read from the terminal stand for: `ESC [ D` and `ESC [ C`
/// are the left and right arrows, `1` to `4` pick a view, `q` and a lone `ESC` quit.
pub open spec fn key_of(b: Seq<u8>) -> Key {
    if b == seq![27u8, 91u8, 68u8] {
        Key::Left
    } else if b == seq![27u8, 91u8, 67u8] {
        Key::Right
    } else if b == seq![49u8] {
        Key::Select(AnalysisView::Duration)
    } else if b == seq![50u8] {
        Key::Select(AnalysisView::Activations)
    } else if b == seq![51u8] {
        Key::Select(AnalysisView::Heatmap)
    } else if b == seq![52u8] {
        Key::Select(AnalysisView::Schedule)
    } else if b == seq![113u8] || b == seq![27u8] {
        Key::Quit
    } else {
        Key::Other
    }
}

/// The view shown after `key` while `v` is shown, or `None` when the key leaves the
/// analysis. The arrows go round the four tabs.
pub open spec fn step(v: AnalysisView, key: Key) -> Option<AnalysisView> {
    match key {
        Key::Left => Some(view_at((view_index(v) + 3) % 4)),
        Key::Right => Some(view_at((view_index(v) + 1) % 4)),
        Key::Select(w) => Some(w),
        Key::Quit => None,
        Key::Other => Some(v),
    }
}

/// The key that the bytes read at once from the terminal stand for.
pub fn key_from_bytes(bytes: &Vec<u8>) -> (r: Key)
    ensures
        r == key_of(bytes@),
{
    let ghost b = bytes@;
    if bytes.len() == 3 {
        assert(b != seq![49u8] && b != seq![50u8] && b != seq![51u8] && b != seq![52u8]);
        assert(b != seq![113u8] && b != seq![27u8]);
        if bytes[0] == 27 && bytes[1] == 91 && bytes[2] == 68 {
            assert(b =~= seq![27u8, 91u8, 68u8]);
            return Key::Left;
        }
        if bytes[0] == 27 && bytes[1] == 91 && bytes[2] == 67 {
            assert(b =~= seq![27u8, 91u8, 67u8]);
            assert(b != seq![27u8, 91u8, 68u8]) by {
                assert(seq![27u8, 91u8, 68u8][2] == 68u8);
            }
            return Key::Right;
        }
        assert(b != seq![27u8, 91u8, 68u8]) by {
            if b == seq![27u8, 91u8, 68u8] {
                assert(b[0] == 27u8 && b[1] == 91u8 && b[2] == 68u8);
            }
        }
        assert(b != seq![27u8, 91u8, 67u8]) by {
            if b == seq![27u8, 91u8, 67u8] {
                assert(b[0] == 27u8 && b[1] == 91u8 && b[2] == 67u8);
            }
        }
        return Key::Other;
    }
    assert(b != seq![27u8, 91u8, 68u8] && b != seq![27u8, 91u8, 67u8]);
    if bytes.len() != 1 {
        assert(b != seq![49u8] && b != seq![50u8] && b != seq![51u8] && b != seq![52u8]);
        assert(b != seq![113u8] && b != seq![27u8]);
        return Key::Other;
    }
    let c = bytes[0];
    assert(b =~= seq![c]);
    if c == 49 {
        Key::Select(AnalysisView::Duration)
    } else if c == 50 {
        Key::Select(AnalysisView::Activations)
    } else if c == 51 {
        Key::Select(AnalysisView::Heatmap)
    } else if c == 52 {
        Key::Select(AnalysisView::Schedule)
    } else if c == 113 || c == 27 {
        Key::Quit
    } else {
        assert(b != seq![113u8] && b != seq![27u8]);
        Key::Other
    }
}

/// The view shown after `key` while `view` is shown, or `None` to leave.
pub fn next_view(view: AnalysisView, key: Key) -> (r: Option<AnalysisView>)
    ensures
        r == step(view, key),
{
    match key {
        Key::Left => Some(
            match view {
                AnalysisView::Duration => AnalysisView::Schedule,
                AnalysisView::Activations => AnalysisView::Duration,
                AnalysisView::Heatmap => AnalysisView::Activations,
                AnalysisView::Schedule => AnalysisView::Heatmap,
            },
        ),
        Key::Right => Some(
            match view {
                AnalysisView::Duration => AnalysisView::Activations,
                AnalysisView::Activations => AnalysisView::Heatmap,
                AnalysisView::Heatmap => AnalysisView::Schedule,
                AnalysisView::Schedule => AnalysisView::Duration,
            },
        ),
        Key::Select(w) => Some(w),
        Key::Quit => None,
        Key::Other => Some(view),
    }
}

/// Moving right and then left (or left and then right) comes back to the same view;
/// four moves the same way come back too; a number key shows its view whatever was
/// shown; leaving is only by `Key::Quit`.
pub proof fn lemma_view_moves(v: AnalysisView, w: AnalysisView, k: Key)
    ensures
        step(step(v, Key::Right)->0, Key::Left) == Some(v),
        step(step(v, Key::Left)->0, Key::Right) == Some(v),
        step(step(step(step(v, Key::Right)->0, Key::Right)->0, Key::Right)->0, Key::Right) == Some(v),
        step(v, Key::Select(w)) == Some(w),
        step(v, k) is None <==> k == Key::Quit,
{
}

/// The name of a view on its tab.
pub open spec fn view_name(v: AnalysisView) -> Seq<char> {
    match v {
        AnalysisView::Duration => "Duration"@,
        AnalysisView::Activations => "Activations"@,
        AnalysisView::Heatmap => "Heatmap"@,
        AnalysisView::Schedule => "Schedule"@,
    }
}

/// One tab: `[Name]` for the view shown, ` Name ` for the others.
pub open spec fn tab(v: AnalysisView, shown: AnalysisView) -> Seq<char> {
    if v == shown {
        "["@ + view_name(v) + "]"@
    } else {
        " "@ + view_name(v) + " "@
    }
}

/// The line of tabs, the view shown in brackets.
pub open spec fn tab_line(shown: AnalysisView) -> Seq<char> {
    " "@ + tab(AnalysisView::Duration, shown) + "  "@ + tab(AnalysisView::Activations, shown) + "  "@
        + tab(AnalysisView::Heatmap, shown) + "  "@ + tab(AnalysisView::Schedule, shown) + "\n"@
}

/// Everything the analysis of a period shows, gathered once.
pub struct Analysis {
    /// The number of days of the period.
    pub days: u32,
    /// Its first day, `YYYY-MM-DD`.
    pub from: String,
    /// Its last day, `YYYY-MM-DD`.
    pub today: String,
    /// Usage per application, by time spent, most first.
    pub stats: Vec<UsageRow>,
    /// Seconds per application and hour of the day.
    pub hourly: Vec<HourRow>,
    /// Average first-seen time per application.
    pub first_seen: Vec<SeenRow>,
    /// The local times shown in the schedule view.
    pub times: Vec<String>,
    /// The seconds of all rows of `stats`.
    pub total: i64,
}

impl Analysis {
    /// The schedule times and the total belong to the rows, and the sums fit.
    pub open spec fn wf(&self) -> bool {
        &&& usage_total_fits(self.stats@)
        &&& all_app_sums_fit(self.hourly@)
        &&& schedule_times_ok(self.first_seen@, self.times_view())
        &&& self.total == usage_total(self.stats@)
    }

    /// The schedule times as text.
    pub open spec fn times_view(&self) -> Seq<Seq<char>> {
        self.times@.map_values(|t: String| t@)
    }

    /// The analysis of the `days` days from `from` to `today`, from the usage rows
    /// (sorted by time), the hourly rows and the first-seen rows of that period.
    pub fn new(
        days: u32,
        from: String,
        today: String,
        stats: Vec<UsageRow>,
        hourly: Vec<HourRow>,
        first_seen: Vec<SeenRow>,
    ) -> (r: Analysis)
        requires
            usage_total_fits(stats@),
            all_app_sums_fit(hourly@),
        ensures
            r.wf(),
            r.days == days,
            r.from@ == from@,
            r.today@ == today@,
            r.stats@ == stats@,
            r.hourly@ == hourly@,
            r.first_seen@ == first_seen@,
    {
        let total = total_seconds(&stats);
        let times = schedule_times(&first_seen);
        Analysis { days, from, today, stats, hourly, first_seen, times, total }
    }

    /// There is usage to show.
    pub fn has_data(&self) -> (r: bool)
        ensures
            r == (self.stats@.len() > 0),
    {
        self.stats.len() > 0
    }

    /// What is printed when the period holds no usage: the head of the analysis and a
    /// note that there is no data yet.
    pub fn no_data_text(&self) -> (r: String)
        requires
            self.wf(),
        ensures
            r@ == report_head(self.days as int, self.from@, self.today@, usage_total(self.stats@))
                + "  No data yet. Keep the daemon running to collect data.\n"@,
    {
        let mut out: Vec<char> = Vec::new();
        push_str(&mut out, "\n");
        push_str(&mut out, "  ══════ ");
        let dd = decimal_of(self.days as i64);
        push_chars(&mut out, &dd);
        push_str(&mut out, "-Day Analysis (");
        push_str(&mut out, self.from.as_str());
        push_str(&mut out, " ~ ");
        push_str(&mut out, self.today.as_str());
        push_str(&mut out, ") ══════\n");
        push_str(&mut out, "  Total tracked: ");
        push_duration(&mut out, self.total);
        push_str(&mut out, "\n");
        push_str(&mut out, "\n");
        push_str(&mut out, "  No data yet. Keep the daemon running to collect data.\n");
        assert(out@ =~= report_head(self.days as int, self.from@, self.today@, usage_total(self.stats@))
            + "  No data yet. Keep the daemon running to collect data.\n"@);
        string_of(&out)
    }

    /// The text of the view `v`.
    pub open spec fn section(&self, v: AnalysisView, d: Map<Seq<char>, Seq<char>>, m: Map<Seq<char>, Seq<char>>) -> Seq<char> {
        match v {
            AnalysisView::Duration => duration_section(self.stats@, d, m),
            AnalysisView::Activations => activation_section(self.stats@, d, m),
            AnalysisView::Heatmap => heatmap_section(self.hourly@, self.stats@, d, m),
            AnalysisView::Schedule => schedule_section(self.first_seen@, self.times_view(), d, m),
        }
    }

    /// The whole screen with the view `v` shown: the head, then the view.
    pub open spec fn screen_text(&self, v: AnalysisView, d: Map<Seq<char>, Seq<char>>, m: Map<Seq<char>, Seq<char>>) -> Seq<char> {
        screen_head(self.days as int, self.from@, self.today@, self.total as int, v) + self.section(v, d, m)
    }

    /// The screen with the view `v` shown.
    pub fn screen(&self, v: AnalysisView, desktop: &DesktopDB, app_meta: &NameMap) -> (r: String)
        requires
            self.wf(),
        ensures
            r@ == self.screen_text(v, desktop.names(), app_meta@),
    {
        let mut out: Vec<char> = Vec::new();
        push_screen_head(&mut out, self.days, self.from.as_str(), self.today.as_str(), self.total, v);
        let ghost head = out@;
        let body = match v {
            AnalysisView::Duration => render_duration(&self.stats, desktop, app_meta),
            AnalysisView::Activations => render_activations(&self.stats, desktop, app_meta),
            AnalysisView::Heatmap => render_heatmap(&self.hourly, &self.stats, desktop, app_meta),
            AnalysisView::Schedule => render_schedule_with(&self.first_seen, &self.times, desktop, app_meta),
        };
        push_str(&mut out, body.as_str());
        assert(body@ == self.section(v, desktop.names(), app_meta@));
        assert(out@ =~= self.screen_text(v, desktop.names(), app_meta@));
        string_of(&out)
    }
}

/// The head of the screen with the view `v` shown: cleared, a title with the period
/// and the keys, the tabs, a rule, then the total tracked time.
pub open spec fn screen_head(days: int, from: Seq<char>, today: Seq<char>, total: int, v: AnalysisView) -> Seq<char> {
    "\x1b[H\x1b[J"@ + "ZXTracker — "@ + decimal(days) + "-Day Analysis ("@ + from + " ~ "@ + today
        + ")  |  ← → / 1-4 switch view  |  q quit\n"@ + tab_line(v) + repeat('-', 60) + "\n"@
        + "  Total tracked: "@ + duration_text(total) + "\n"@ + "\n"@
}

fn push_tab_line(out: &mut Vec<char>, v: AnalysisView)
    ensures
        final(out)@ == old(out)@ + tab_line(v),
{
    push_str(out, " ");
    push_tab(out, AnalysisView::Duration, v);
    push_str(out, "  ");
    push_tab(out, AnalysisView::Activations, v);
    push_str(out, "  ");
    push_tab(out, AnalysisView::Heatmap, v);
    push_str(out, "  ");
    push_tab(out, AnalysisView::Schedule, v);
    push_str(out, "\n");
    assert(final(out)@ =~= old(out)@ + tab_line(v));
}

fn push_screen_head(out: &mut Vec<char>, days: u32, from: &str, today: &str, total: i64, v: AnalysisView)
    ensures
        final(out)@ == old(out)@ + screen_head(days as int, from@, today@, total as int, v),
{
    push_str(out, "\x1b[H\x1b[J");
    push_str(out, "ZXTracker — ");
    let dd = decimal_of(days as i64);
    push_chars(out, &dd);
    push_str(out, "-Day Analysis (");
    push_str(out, from);
    push_str(out, " ~ ");
    push_str(out, today);
    push_str(out, ")  |  ← → / 1-4 switch view  |  q quit\n");
    push_tab_line(out, v);
    push_repeat(out, '-', 60);
    push_str(out, "\n");
    push_str(out, "  Total tracked: ");
    push_duration(out, total);
    push_str(out, "\n");
    push_str(out, "\n");
    assert(final(out)@ =~= old(out)@ + screen_head(days as int, from@, today@, total as int, v));
}

fn push_tab(out: &mut Vec<char>, v: AnalysisView, shown: AnalysisView)
    ensures
        final(out)@ == old(out)@ + tab(v, shown),
{
    let name = match v {
        AnalysisView::Duration => "Duration",
        AnalysisView::Activations => "Activations",
        AnalysisView::Heatmap => "Heatmap",
        AnalysisView::Schedule => "Schedule",
    };
    if v == shown {
        push_str(out, "[");
        push_str(out, name);
        push_str(out, "]");
    } else {
        push_str(out, " ");
        push_str(out, name);
        push_str(out, " ");
    }
    assert(final(out)@ =~= old(out)@ + tab(v, shown));
}

} // verus!
