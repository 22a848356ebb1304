//! What the daemon shares with its clients, and the commands they send it.
use vstd::prelude::*;
use crate::analyze::{bucket_sums_fit, bucket_total, bucket_totals, hour_bucket, all_app_sums_fit, HourRow};
use crate::desktop::{fallback_name, resolve, resolved_name, DesktopDB};
use crate::names::NameMap;
use crate::text::{chars_of, split_any, split_at, string_of, views};
use crate::usage::{is_usage_listing, SecondsMap};

verus! {

/// The live state the daemon publishes: the application in focus, its display title,
/// idleness and today's usage.
pub struct SharedState {
    pub app_id: String,
    pub title: String,
    pub is_idle: bool,
    pub today_usage: Vec<(String, i64)>,
    pub weekly_usage: Vec<(String, i64)>,
    pub tags: Vec<(String, Vec<String>)>,
}

/// The title shown for the application in focus: `[idle]` when there is none.
pub open spec fn shown_title(label: Seq<char>, d: Map<Seq<char>, Seq<char>>, m: Map<Seq<char>, Seq<char>>) -> Seq<char> {
    if label.len() == 0 { "[idle]"@ } else { resolved_name(label, Seq::empty(), d, m) }
}

/// Law: the title of an application in focus is its display name: a non-empty stored
/// name, else its desktop entry's name, else the readable fallback from its id; with
/// nothing in focus it is `[idle]`.
pub proof fn lemma_shown_title(label: Seq<char>, d: Map<Seq<char>, Seq<char>>, m: Map<Seq<char>, Seq<char>>)
    ensures
        label.len() == 0 ==> shown_title(label, d, m) == "[idle]"@,
        label.len() > 0 && m.contains_key(label) && m[label].len() > 0 ==> shown_title(label, d, m) == m[label],
        label.len() > 0 && !(m.contains_key(label) && m[label].len() > 0) && d.contains_key(label)
            ==> shown_title(label, d, m) == d[label],
        label.len() > 0 && !(m.contains_key(label) && m[label].len() > 0) && !d.contains_key(label)
            ==> shown_title(label, d, m) == fallback_name(label),
{
}

impl SharedState {
    /// The state before the first tick: nothing in focus, not idle, no usage.
    pub fn new() -> (r: SharedState)
        ensures
            r.app_id@ == Seq::<char>::empty(),
            r.title@ == Seq::<char>::empty(),
            !r.is_idle,
            r.today_usage@.len() == 0,
            r.weekly_usage@.len() == 0,
            r.tags@.len() == 0,
    {
        SharedState {
            app_id: String::new(),
            title: String::new(),
            is_idle: false,
            today_usage: Vec::new(),
            weekly_usage: Vec::new(),
            tags: Vec::new(),
        }
    }

    /// Publishes a tick: the application of the open session (`label`, empty when
    /// none), its title, idleness, and today's usage from most to fewest seconds.
    pub fn update(&mut self, seconds: &SecondsMap, label: &str, is_idle: bool, desktop: &DesktopDB, app_meta: &NameMap)
        ensures
            final(self).app_id@ == label@,
            final(self).title@ == shown_title(label@, desktop.names(), app_meta@),
            label@.len() == 0 ==> final(self).title@ == "[idle]"@,
            label@.len() > 0 && app_meta@.contains_key(label@) && app_meta@[label@].len() > 0
                ==> final(self).title@ == app_meta@[label@],
            label@.len() > 0 && !(app_meta@.contains_key(label@) && app_meta@[label@].len() > 0)
                && desktop.names().contains_key(label@) ==> final(self).title@ == desktop.names()[label@],
            final(self).is_idle == is_idle,
            is_usage_listing(final(self).today_usage@, seconds@),
            final(self).weekly_usage == old(self).weekly_usage,
            final(self).tags == old(self).tags,
    {
        let sorted = seconds.sorted_usage();
        proof { reveal_strlit(""); }
        assert(""@ =~= Seq::<char>::empty());
        let title = if label.unicode_len() == 0 {
            "[idle]".to_owned()
        } else {
            resolve(label, "", desktop, app_meta)
        };
        self.app_id = label.to_owned();
        self.title = title;
        self.is_idle = is_idle;
        self.today_usage = sorted;
    }
}

/// A request a client can send to the daemon.
#[derive(PartialEq, Eq, Structural, Clone, Copy, Debug)]
pub enum Command {
    Status,
    GetToday,
    GetWeekly,
    GetHourly,
    GetTags,
    Shutdown,
    Unknown,
}

/// The command a request names.
pub open spec fn command_of(cmd: Seq<char>) -> Command {
    if cmd == "status"@ {
        Command::Status
    } else if cmd == "get_today"@ {
        Command::GetToday
    } else if cmd == "get_weekly"@ {
        Command::GetWeekly
    } else if cmd == "get_hourly"@ {
        Command::GetHourly
    } else if cmd == "get_tags"@ {
        Command::GetTags
    } else if cmd == "shutdown"@ {
        Command::Shutdown
    } else {
        Command::Unknown
    }
}

/// The command that the request string `cmd` names.
pub fn parse_command(cmd: &str) -> (r: Command)
    ensures
        r == command_of(cmd@),
{
    let c = cmd.to_owned();
    if c == "status".to_owned() {
        Command::Status
    } else if c == "get_today".to_owned() {
        Command::GetToday
    } else if c == "get_weekly".to_owned() {
        Command::GetWeekly
    } else if c == "get_hourly".to_owned() {
        Command::GetHourly
    } else if c == "get_tags".to_owned() {
        Command::GetTags
    } else if c == "shutdown".to_owned() {
        Command::Shutdown
    } else {
        Command::Unknown
    }
}

/// The error answered to a request with an unknown command.
pub fn unknown_command_error(cmd: &str) -> (r: String)
    ensures
        r@ == "unknown cmd: "@ + cmd@,
{
    let mut s = "unknown cmd: ".to_owned();
    s.append(cmd);
    s
}

/// The largest of the bucket totals, or 1 when there are none.
pub fn max_bucket(buckets: &Vec<i64>) -> (r: i64)
    ensures
        buckets@.len() == 0 ==> r == 1,
        buckets@.len() > 0 ==> exists|i: int| 0 <= i < buckets@.len() && buckets@[i] == r,
        forall|i: int| 0 <= i < buckets@.len() ==> buckets@[i] <= r,
{
    if buckets.len() == 0 {
        return 1;
    }
    let mut best = buckets[0];
    let mut i: usize = 1;
    while i < buckets.len()
        invariant
            1 <= i <= buckets.len(),
            exists|j: int| 0 <= j < i && buckets@[j] == best,
            forall|j: int| 0 <= j < i ==> buckets@[j] <= best,
        decreases buckets.len() - i,
    {
        if buckets[i] > best {
            best = buckets[i];
        }
        i = i + 1;
    }
    best
}

/// The application has a row that falls in a bucket.
pub open spec fn has_bucketed_row(rows: Seq<HourRow>, app: Seq<char>) -> bool {
    exists|k: int| 0 <= k < rows.len() && #[trigger] rows[k].0@ == app && hour_bucket(rows[k].1 as int) is Some
}

/// Per-application bucket totals of `rows`: every application with a row in a
/// bucket, once, with its twelve totals.
pub fn hourly_by_app(rows: &Vec<HourRow>) -> (r: Vec<(String, Vec<i64>)>)
    requires
        all_app_sums_fit(rows@),
    ensures
        forall|i: int, j: int| 0 <= i < j < r@.len() ==> r@[i].0@ != r@[j].0@,
        forall|i: int| 0 <= i < r@.len() ==> has_bucketed_row(rows@, #[trigger] r@[i].0@),
        forall|a: Seq<char>| has_bucketed_row(rows@, a) ==> exists|i: int| 0 <= i < r@.len() && #[trigger] r@[i].0@ == a,
        forall|i: int| 0 <= i < r@.len() ==> (#[trigger] r@[i].1)@.len() == 12,
        forall|i: int, b: int| 0 <= i < r@.len() && 0 <= b < 12 ==> #[trigger] r@[i].1@[b] as int == bucket_total(rows@, Some(r@[i].0@), b),
{
    let mut apps: Vec<String> = Vec::new();
    let mut k: usize = 0;
    while k < rows.len()
        invariant
            k <= rows.len(),
            forall|i: int, j: int| 0 <= i < j < apps@.len() ==> apps@[i]@ != apps@[j]@,
            forall|i: int| 0 <= i < apps@.len() ==> has_bucketed_row(rows@, #[trigger] apps@[i]@),
            forall|q: int| 0 <= q < k && hour_bucket(rows@[q].1 as int) is Some ==> exists|i: int| 0 <= i < apps@.len() && #[trigger] apps@[i]@ == rows@[q].0@,
        decreases rows.len() - k,
    {
        let r = &rows[k];
        let ghost old_apps = apps@;
        if 0 <= r.1 && r.1 < 24 {
            let mut found = false;
            let mut j: usize = 0;
            while j < apps.len()
                invariant
                    j <= apps.len(),
                    !found ==> forall|q: int| 0 <= q < j ==> apps@[q]@ != r.0@,
                    found ==> exists|q: int| 0 <= q < apps@.len() && apps@[q]@ == r.0@,
                decreases apps.len() - j,
            {
                if apps[j] == r.0 {
                    found = true;
                }
                j = j + 1;
            }
            if !found {
                assert(has_bucketed_row(rows@, rows@[k as int].0@));
                apps.push(r.0.clone());
                assert(apps@[apps@.len() - 1]@ == rows@[k as int].0@);
            }
            assert(exists|i: int| 0 <= i < apps@.len() && #[trigger] apps@[i]@ == rows@[k as int].0@);
        }
        assert forall|q: int| 0 <= q < k + 1 && hour_bucket(rows@[q].1 as int) is Some implies exists|i: int|
            0 <= i < apps@.len() && #[trigger] apps@[i]@ == rows@[q].0@ by {
            if q < k {
                let i = choose|i: int| 0 <= i < old_apps.len() && #[trigger] old_apps[i]@ == rows@[q].0@;
                assert(apps@[i] == old_apps[i]);
            }
        }
        k = k + 1;
    }
    let mut out: Vec<(String, Vec<i64>)> = Vec::new();
    let mut i: usize = 0;
    while i < apps.len()
        invariant
            i <= apps.len(),
            all_app_sums_fit(rows@),
            out@.len() == i,
            forall|p: int| 0 <= p < i ==> (#[trigger] out@[p]).0@ == apps@[p]@,
            forall|p: int| 0 <= p < i ==> (#[trigger] out@[p].1)@.len() == 12,
            forall|p: int, b: int| 0 <= p < i && 0 <= b < 12 ==> #[trigger] out@[p].1@[b] as int == bucket_total(rows@, Some(out@[p].0@), b),
        decreases apps.len() - i,
    {
        assert(bucket_sums_fit(rows@, Some(apps@[i as int]@)));
        let b = bucket_totals(rows, Some(&apps[i]));
        out.push((apps[i].clone(), b));
        i = i + 1;
    }
    assert forall|a: Seq<char>| has_bucketed_row(rows@, a) implies exists|i: int| 0 <= i < out@.len() && #[trigger] out@[i].0@ == a by {
        let q = choose|q: int| 0 <= q < rows@.len() && #[trigger] rows@[q].0@ == a && hour_bucket(rows@[q].1 as int) is Some;
        let i = choose|i: int| 0 <= i < apps@.len() && #[trigger] apps@[i]@ == rows@[q].0@;
        assert(out@[i].0@ == a);
    }
    out
}

/// The applications of a tag: none for an empty list, else the comma-separated ids.
pub open spec fn tag_apps(list: Seq<char>) -> Seq<Seq<char>> {
    if list.len() == 0 { Seq::empty() } else { split_any(list, seq![',']) }
}

/// Splits the comma-separated applications of a tag.
pub fn split_app_list(list: &str) -> (r: Vec<String>)
    ensures
        r@.map_values(|s: String| s@) == tag_apps(list@),
{
    let text = chars_of(list);
    if text.len() == 0 {
        let r: Vec<String> = Vec::new();
        assert(r@.map_values(|s: String| s@) =~= tag_apps(list@));
        return r;
    }
    let pieces = split_at(&text, ',');
    let mut out: Vec<String> = Vec::new();
    let mut i: usize = 0;
    while i < pieces.len()
        invariant
            i <= pieces.len(),
            out@.len() == i,
            forall|p: int| 0 <= p < i ==> (#[trigger] out@[p])@ == pieces@[p]@,
        decreases pieces.len() - i,
    {
        out.push(string_of(&pieces[i]));
        i = i + 1;
    }
    assert(out@.map_values(|s: String| s@) =~= views(pieces@));
    out
}

} // verus!
