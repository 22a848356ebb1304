//! Display names of applications: `.desktop` entries, executable paths and a
//! readable fallback derived from the application id.
use vstd::prelude::*;
use crate::names::NameMap;
use crate::paths::{file_name, file_name_of, path_extension, path_stem, stem_and_extension};
use crate::text::{
    chars_eq, chars_of, has_prefix, has_suffix, head_to, lower_of, split_any, split_at,
    split_at_any, starts_with, ends_with, str_lower, string_of, tail_from, trim, trimmed,
    upper_of, char_upper, views, contains_char,
};

verus! {

/// Scanning state of a desktop entry file: inside the `[Desktop Entry]` group,
/// the `StartupWMClass` value, the `Name` value, and whether the group has ended.
pub type ScanState = (bool, Option<Seq<char>>, Option<Seq<char>>, bool);

/// One trimmed line of a desktop entry file applied to the scanning state.
pub open spec fn scan_line(st: ScanState, line: Seq<char>) -> ScanState {
    if st.3 {
        st
    } else if line == "[Desktop Entry]"@ {
        (true, st.1, st.2, st.3)
    } else if !st.0 {
        st
    } else if line.len() > 0 && line[0] == '[' {
        (st.0, st.1, st.2, true)
    } else {
        let wm = if has_prefix(line, "StartupWMClass="@) {
            Some(line.skip("StartupWMClass="@.len() as int))
        } else {
            st.1
        };
        let name = if has_prefix(line, "Name="@) && st.2 is None && line.len() > "Name="@.len() {
            Some(line.skip("Name="@.len() as int))
        } else {
            st.2
        };
        (st.0, wm, name, st.3)
    }
}

/// The scanning state after the given lines (each trimmed before use).
pub open spec fn scan_lines(lines: Seq<Seq<char>>) -> ScanState
    decreases lines.len(),
{
    if lines.len() == 0 {
        (false, None, None, false)
    } else {
        scan_line(scan_lines(lines.drop_last()), trim(lines.last()))
    }
}

/// `(StartupWMClass, Name)` of a desktop entry file: the last `StartupWMClass=` value
/// and the first non-empty `Name=` value of the `[Desktop Entry]` group, or
/// `(None, None)` when the group names nothing. The text is read line by line at
/// `\n`; a final empty piece is blank and changes nothing.
pub open spec fn desktop_fields(content: Seq<char>) -> (Option<Seq<char>>, Option<Seq<char>>) {
    let st = scan_lines(split_any(content, seq!['\n']));
    if st.2 is Some { (st.1, st.2) } else { (None, None) }
}

/// The view of an optional character vector.
pub open spec fn opt_view(o: Option<Vec<char>>) -> Option<Seq<char>> {
    match o {
        Some(v) => Some(v@),
        None => None,
    }
}

/// The view of an optional string.
pub open spec fn opt_str(o: Option<String>) -> Option<Seq<char>> {
    match o {
        Some(v) => Some(v@),
        None => None,
    }
}

fn opt_string(o: Option<Vec<char>>) -> (r: Option<String>)
    ensures
        opt_str(r) == opt_view(o),
{
    match o {
        Some(v) => Some(string_of(&v)),
        None => None,
    }
}

/// Reads `StartupWMClass` and `Name` from the text of a desktop entry file.
pub fn parse_desktop(content: &str) -> (r: (Option<String>, Option<String>))
    ensures
        (opt_str(r.0), opt_str(r.1)) == desktop_fields(content@),
{
    let text = chars_of(content);
    let lines = split_at(&text, '\n');
    let ghost ls = views(lines@);
    let header = chars_of("[Desktop Entry]");
    let wm_key = chars_of("StartupWMClass=");
    let name_key = chars_of("Name=");
    let mut inside = false;
    let mut wm: Option<Vec<char>> = None;
    let mut name: Option<Vec<char>> = None;
    let mut done = false;
    let mut i: usize = 0;
    assert(ls.take(0) =~= Seq::<Seq<char>>::empty());
    while i < lines.len()
        invariant
            i <= lines.len(),
            ls == views(lines@),
            ls == split_any(content@, seq!['\n']),
            header@ == "[Desktop Entry]"@,
            wm_key@ == "StartupWMClass="@,
            name_key@ == "Name="@,
            (inside, opt_view(wm), opt_view(name), done) == scan_lines(ls.take(i as int)),
        decreases lines.len() - i,
    {
        assert(ls.take(i + 1).drop_last() =~= ls.take(i as int));
        assert(ls.take(i + 1).last() == lines@[i as int]@);
        if !done {
            let line = trimmed(&lines[i]);
            if chars_eq(&line, &header) {
                inside = true;
            } else if inside {
                if line.len() > 0 && line[0] == '[' {
                    done = true;
                } else {
                    if starts_with(&line, &wm_key) {
                        wm = Some(tail_from(&line, wm_key.len()));
                    }
                    if starts_with(&line, &name_key) && name.is_none() && line.len() > name_key.len() {
                        name = Some(tail_from(&line, name_key.len()));
                    }
                }
            }
        }
        i = i + 1;
    }
    assert(ls.take(lines.len() as int) =~= ls);
    if name.is_some() {
        (opt_string(wm), opt_string(name))
    } else {
        (None, None)
    }
}

/// `m` with `v` for `k`, unless `k` already has a value.
pub open spec fn or_insert(m: Map<Seq<char>, Seq<char>>, k: Seq<char>, v: Seq<char>) -> Map<
    Seq<char>,
    Seq<char>,
> {
    if m.contains_key(k) { m } else { m.insert(k, v) }
}

/// The table `m` after reading the desktop entry file at `path` with text `content`:
/// only `*.desktop` files with a name count; the name is filed under the
/// `StartupWMClass`, and under the file stem when that is non-empty and differs from
/// it; names already in the table are kept.
pub open spec fn with_desktop_file(
    m: Map<Seq<char>, Seq<char>>,
    path: Seq<char>,
    content: Seq<char>,
) -> Map<Seq<char>, Seq<char>> {
    if path_extension(path, false) != Some("desktop"@) {
        m
    } else {
        let stem = match path_stem(path, false) {
            Some(s) => s,
            None => Seq::empty(),
        };
        let fields = desktop_fields(content);
        match fields.1 {
            None => m,
            Some(n) => match fields.0 {
                Some(w) => {
                    let m1 = or_insert(m, w, n);
                    if stem.len() > 0 && stem != w { or_insert(m1, stem, n) } else { m1 }
                },
                None => if stem.len() > 0 { or_insert(m, stem, n) } else { m },
            },
        }
    }
}

/// Law: reading another desktop entry file never changes a name already filed, so the
/// first file that names an application wins, and only adds names.
pub proof fn lemma_desktop_file_keeps_names(
    m: Map<Seq<char>, Seq<char>>,
    path: Seq<char>,
    content: Seq<char>,
    k: Seq<char>,
)
    requires
        m.contains_key(k),
    ensures
        with_desktop_file(m, path, content).contains_key(k),
        with_desktop_file(m, path, content)[k] == m[k],
        m.dom().subset_of(with_desktop_file(m, path, content).dom()),
{
}

/// The name that `scan_lines` keeps is never empty.
proof fn lemma_scanned_name_nonempty(lines: Seq<Seq<char>>)
    ensures
        scan_lines(lines).2 matches Some(n) ==> n.len() > 0,
    decreases lines.len(),
{
    if lines.len() > 0 {
        lemma_scanned_name_nonempty(lines.drop_last());
    }
}

/// The desktop entry file at `path` with text `content` names `k`: it is a `*.desktop`
/// file with a name, and `k` is its `StartupWMClass` or its non-empty file stem.
pub open spec fn names_key(k: Seq<char>, path: Seq<char>, content: Seq<char>) -> bool {
    &&& path_extension(path, false) == Some("desktop"@)
    &&& desktop_fields(content).1 is Some
    &&& (desktop_fields(content).0 == Some(k) || (path_stem(path, false) == Some(k) && k.len() > 0))
}

/// Reading one file adds exactly the keys it names and does not have yet, each with
/// the file's name, which is never empty.
pub proof fn lemma_desktop_file_step(
    m: Map<Seq<char>, Seq<char>>,
    path: Seq<char>,
    content: Seq<char>,
    k: Seq<char>,
)
    ensures
        with_desktop_file(m, path, content).contains_key(k) <==> (m.contains_key(k) || names_key(k, path, content)),
        !m.contains_key(k) && names_key(k, path, content) ==> with_desktop_file(m, path, content)[k]
            == desktop_fields(content).1->0 && desktop_fields(content).1->0.len() > 0,
        m.contains_key(k) ==> with_desktop_file(m, path, content)[k] == m[k],
{
    lemma_scanned_name_nonempty(split_any(content, seq!['\n']));
}

/// The table built from the files `files` (path, text), read in order from an empty
/// table.
pub open spec fn scanned_names(files: Seq<(Seq<char>, Seq<char>)>) -> Map<Seq<char>, Seq<char>>
    decreases files.len(),
{
    if files.len() == 0 {
        Map::empty()
    } else {
        with_desktop_file(scanned_names(files.drop_last()), files.last().0, files.last().1)
    }
}

/// Every name in a table read from desktop entry files is non-empty and comes from the
/// first of the files that names its key; the keys are exactly those that some file
/// names.
pub proof fn lemma_scanned_names_come_from_files(files: Seq<(Seq<char>, Seq<char>)>, k: Seq<char>)
    ensures
        scanned_names(files).contains_key(k) <==> exists|i: int|
            0 <= i < files.len() && #[trigger] names_key(k, files[i].0, files[i].1),
        scanned_names(files).contains_key(k) ==> exists|i: int|
            0 <= i < files.len() && #[trigger] names_key(k, files[i].0, files[i].1)
                && scanned_names(files)[k] == desktop_fields(files[i].1).1->0
                && scanned_names(files)[k].len() > 0
                && forall|j: int| 0 <= j < i ==> !#[trigger] names_key(k, files[j].0, files[j].1),
    decreases files.len(),
{
    if files.len() > 0 {
        let rest = files.drop_last();
        let n = files.len() - 1;
        lemma_scanned_names_come_from_files(rest, k);
        lemma_desktop_file_step(scanned_names(rest), files[n].0, files[n].1, k);
        assert forall|i: int| 0 <= i < rest.len() implies rest[i] == files[i] by {}
        if scanned_names(files).contains_key(k) {
            if scanned_names(rest).contains_key(k) {
                let i = choose|i: int|
                    0 <= i < rest.len() && #[trigger] names_key(k, rest[i].0, rest[i].1)
                        && scanned_names(rest)[k] == desktop_fields(rest[i].1).1->0
                        && scanned_names(rest)[k].len() > 0
                        && forall|j: int| 0 <= j < i ==> !#[trigger] names_key(k, rest[j].0, rest[j].1);
                assert(names_key(k, files[i].0, files[i].1));
                assert forall|j: int| 0 <= j < i implies !#[trigger] names_key(k, files[j].0, files[j].1) by {
                    assert(rest[j] == files[j]);
                }
            } else {
                assert(names_key(k, files[n].0, files[n].1));
                assert forall|j: int| 0 <= j < n implies !#[trigger] names_key(k, files[j].0, files[j].1) by {
                    assert(rest[j] == files[j]);
                    if names_key(k, files[j].0, files[j].1) {
                        assert(names_key(k, rest[j].0, rest[j].1));
                    }
                }
            }
        } else {
            assert forall|i: int| 0 <= i < files.len() implies !#[trigger] names_key(k, files[i].0, files[i].1) by {
                if i < n {
                    assert(rest[i] == files[i]);
                    if names_key(k, files[i].0, files[i].1) {
                        assert(names_key(k, rest[i].0, rest[i].1));
                    }
                }
            }
        }
        if exists|i: int| 0 <= i < files.len() && #[trigger] names_key(k, files[i].0, files[i].1) {
            let i = choose|i: int| 0 <= i < files.len() && #[trigger] names_key(k, files[i].0, files[i].1);
            if i < n {
                assert(names_key(k, rest[i].0, rest[i].1));
            }
        }
    }
}

/// Law: a desktop entry file `dir/s.desktop` (`s` not empty, dots allowed) whose entry
/// has a name and no `StartupWMClass` files that name under `s`, unless `s` already has
/// one.
pub proof fn lemma_desktop_file_names_stem(
    m: Map<Seq<char>, Seq<char>>,
    dir: Seq<char>,
    s: Seq<char>,
    content: Seq<char>,
)
    requires
        s.len() > 0,
        !s.contains('/'),
        desktop_fields(content).0 is None,
        desktop_fields(content).1 is Some,
        !m.contains_key(s),
    ensures
        with_desktop_file(m, dir + seq!['/'] + s + ".desktop"@, content).contains_key(s),
        with_desktop_file(m, dir + seq!['/'] + s + ".desktop"@, content)[s] == desktop_fields(content).1->0,
{
    crate::paths::lemma_desktop_file_parts(dir, s);
}

/// The paths and texts of files, as text.
pub open spec fn files_view(files: Seq<(String, String)>) -> Seq<(Seq<char>, Seq<char>)> {
    files.map_values(|f: (String, String)| (f.0@, f.1@))
}

/// Whether `path` names a `*.desktop` file.
pub fn is_desktop_file(path: &str) -> (r: bool)
    ensures
        r == (path_extension(path@, false) == Some("desktop"@)),
{
    let p = chars_of(path);
    let want = chars_of("desktop");
    match file_name_of(&p, false) {
        Some(n) => {
            let (_, ext) = stem_and_extension(&n);
            match ext {
                Some(e) => chars_eq(&e, &want),
                None => false,
            }
        },
        None => false,
    }
}

fn stem_or_empty(path: &Vec<char>) -> (r: Vec<char>)
    ensures
        r@ == match path_stem(path@, false) {
            Some(s) => s,
            None => Seq::empty(),
        },
{
    match file_name_of(path, false) {
        Some(n) => stem_and_extension(&n).0,
        None => Vec::new(),
    }
}

/// Display names from the desktop entry files of installed applications, by
/// application id.
pub struct DesktopDB {
    mapping: NameMap,
}

impl DesktopDB {
    /// The names this table holds, by id.
    pub closed spec fn names(&self) -> Map<Seq<char>, Seq<char>> {
        self.mapping@
    }

    /// A table that knows no application yet; the desktop entry files found on the
    /// machine are added with `add_desktop_file`.
    pub fn new() -> (r: DesktopDB)
        ensures
            r.names() == Map::<Seq<char>, Seq<char>>::empty(),
    {
        DesktopDB { mapping: NameMap::new() }
    }

    /// The table read from the desktop entry files `files` (path, text), in order.
    pub fn from_desktop_files(files: &Vec<(String, String)>) -> (r: DesktopDB)
        ensures
            r.names() == scanned_names(files_view(files@)),
    {
        let mut db = DesktopDB::new();
        let ghost fv = files_view(files@);
        let mut i: usize = 0;
        while i < files.len()
            invariant
                i <= files.len(),
                fv == files_view(files@),
                db.names() == scanned_names(fv.take(i as int)),
            decreases files.len() - i,
        {
            db.add_desktop_file(files[i].0.as_str(), files[i].1.as_str());
            proof {
                assert(fv.take(i + 1).drop_last() =~= fv.take(i as int));
            }
            i = i + 1;
        }
        assert(fv.take(files.len() as int) =~= fv);
        db
    }

    /// The display name filed under `app_id`.
    pub fn lookup(&self, app_id: &str) -> (r: Option<String>)
        ensures
            match r {
                Some(v) => self.names().contains_key(app_id@) && self.names()[app_id@] == v@,
                None => !self.names().contains_key(app_id@),
            },
    {
        self.mapping.get(app_id)
    }

    /// Files the name that the desktop entry file at `path`, with text `content`, gives.
    pub fn add_desktop_file(&mut self, path: &str, content: &str)
        ensures
            final(self).names() == with_desktop_file(old(self).names(), path@, content@),
    {
        if !is_desktop_file(path) {
            return;
        }
        let p = chars_of(path);
        let stem = stem_or_empty(&p);
        let (wm, name) = parse_desktop(content);
        match name {
            None => {},
            Some(n) => match wm {
                Some(w) => {
                    self.mapping.insert_if_absent(w.clone(), n.clone());
                    let ws = chars_of(w.as_str());
                    if stem.len() > 0 && !chars_eq(&stem, &ws) {
                        self.mapping.insert_if_absent(string_of(&stem), n);
                    }
                },
                None => {
                    if stem.len() > 0 {
                        self.mapping.insert_if_absent(string_of(&stem), n);
                    }
                },
            },
        }
    }
}


/// `s` with its first character upper-cased (`?` stands in for a missing one).
pub open spec fn capitalized(s: Seq<char>) -> Seq<char> {
    if s.len() == 0 { char_upper('?') } else { char_upper(s[0]) + s.skip(1) }
}

fn capitalize(s: &Vec<char>) -> (r: Vec<char>)
    ensures
        r@ == capitalized(s@),
{
    if s.len() == 0 {
        upper_of('?')
    } else {
        let mut out = upper_of(s[0]);
        let mut rest = tail_from(s, 1);
        out.append(&mut rest);
        out
    }
}

/// `s` without the suffix `x`, if it has it.
pub open spec fn without_suffix(s: Seq<char>, x: Seq<char>) -> Seq<char> {
    if has_suffix(s, x) { s.take(s.len() - x.len()) } else { s }
}

fn strip_suffix_of(s: &Vec<char>, x: &Vec<char>) -> (r: Vec<char>)
    ensures
        r@ == without_suffix(s@, x@),
{
    if ends_with(s, x) {
        head_to(s, s.len() - x.len())
    } else {
        s.clone()
    }
}

/// The name shown for an executable path: its file name without a `.exe` and then a
/// `.bin` suffix, first letter upper-cased; empty when nothing usable is left.
pub open spec fn path_name(path: Seq<char>) -> Seq<char> {
    let bin = match file_name(path, false) {
        Some(n) => n,
        None => Seq::empty(),
    };
    let b = without_suffix(without_suffix(bin, ".exe"@), ".bin"@);
    if b.len() == 0 || b == seq!['.'] { Seq::empty() } else { capitalized(b) }
}

/// A display name from the executable's path, e.g. `/usr/bin/firefox` gives `Firefox`.
pub fn name_from_path(path: &str) -> (r: String)
    ensures
        r@ == path_name(path@),
{
    let p = chars_of(path);
    let bin = match file_name_of(&p, false) {
        Some(n) => n,
        None => Vec::new(),
    };
    let exe = chars_of(".exe");
    let binx = chars_of(".bin");
    let b1 = strip_suffix_of(&bin, &exe);
    let b = strip_suffix_of(&b1, &binx);
    let dot = chars_of(".");
    proof {
        reveal_strlit(".");
        assert(dot@ =~= seq!['.']);
    }
    if b.len() == 0 || chars_eq(&b, &dot) {
        return String::new();
    }
    string_of(&capitalize(&b))
}

/// More than one byte long in UTF-8.
pub open spec fn longer_than_a_byte(p: Seq<char>) -> bool {
    p.len() >= 2 || (p.len() == 1 && (p[0] as u32) >= 0x80)
}

/// The first piece longer than a byte.
pub open spec fn first_long_piece(pieces: Seq<Seq<char>>) -> Option<Seq<char>>
    decreases pieces.len(),
{
    if pieces.len() == 0 {
        None
    } else if longer_than_a_byte(pieces[0]) {
        Some(pieces[0])
    } else {
        first_long_piece(pieces.drop_first())
    }
}

/// Dotted-id components that say nothing about the application.
pub open spec fn is_generic_part(p: Seq<char>) -> bool {
    p == "Client"@ || p == "Studio"@ || p == "Desktop"@ || p == "Application"@ || p == "app"@
        || p == "App"@ || p.len() == 0
}

/// The last piece that is not generic.
pub open spec fn last_specific_part(pieces: Seq<Seq<char>>) -> Option<Seq<char>>
    decreases pieces.len(),
{
    if pieces.len() == 0 {
        None
    } else if !is_generic_part(pieces.last()) {
        Some(pieces.last())
    } else {
        last_specific_part(pieces.drop_last())
    }
}

/// A readable name derived from the application id alone:
/// - an id with a space, `*` or `|` gives its first piece (split also at `.`) longer
///   than a byte, or the whole id, first letter upper-cased;
/// - a dotted id gives its last non-generic component upper-cased, or, when every
///   component is generic, its first component as it is;
/// - any other id gives itself upper-cased (`?` for the empty id).
pub open spec fn fallback_name(app_id: Seq<char>) -> Seq<char> {
    if app_id.contains(' ') || app_id.contains('*') || app_id.contains('|') {
        capitalized(
            match first_long_piece(split_any(app_id, seq![' ', '*', '|', '.'])) {
                Some(p) => p,
                None => app_id,
            },
        )
    } else if app_id.contains('.') {
        let parts = split_any(app_id, seq!['.']);
        match last_specific_part(parts) {
            Some(p) => capitalized(p),
            None => parts[0],
        }
    } else {
        capitalized(app_id)
    }
}

fn longer_than_byte(p: &Vec<char>) -> (r: bool)
    ensures
        r == longer_than_a_byte(p@),
{
    p.len() >= 2 || (p.len() == 1 && (p[0] as u32) >= 0x80)
}

fn generic_part(p: &Vec<char>) -> (r: bool)
    ensures
        r == is_generic_part(p@),
{
    p.len() == 0 || chars_eq(p, &chars_of("Client")) || chars_eq(p, &chars_of("Studio"))
        || chars_eq(p, &chars_of("Desktop")) || chars_eq(p, &chars_of("Application"))
        || chars_eq(p, &chars_of("app")) || chars_eq(p, &chars_of("App"))
}

/// A readable name derived from the application id alone (see `fallback_name`).
pub fn friendly_fallback(app_id: &str) -> (r: String)
    ensures
        r@ == fallback_name(app_id@),
{
    let id = chars_of(app_id);
    if contains_char(&id, ' ') || contains_char(&id, '*') || contains_char(&id, '|') {
        let mut seps: Vec<char> = Vec::new();
        seps.push(' ');
        seps.push('*');
        seps.push('|');
        seps.push('.');
        assert(seps@ =~= seq![' ', '*', '|', '.']);
        let pieces = split_at_any(&id, &seps);
        let ghost ps = views(pieces@);
        let mut i: usize = 0;
        assert(ps.skip(0) =~= ps);
        while i < pieces.len()
            invariant
                i <= pieces.len(),
                ps == views(pieces@),
                ps == split_any(app_id@, seq![' ', '*', '|', '.']),
                id@ == app_id@,
                app_id@.contains(' ') || app_id@.contains('*') || app_id@.contains('|'),
                first_long_piece(ps) == first_long_piece(ps.skip(i as int)),
            decreases pieces.len() - i,
        {
            assert(ps.skip(i as int).drop_first() =~= ps.skip(i + 1));
            assert(ps.skip(i as int)[0] == pieces@[i as int]@);
            if longer_than_byte(&pieces[i]) {
                return string_of(&capitalize(&pieces[i]));
            }
            i = i + 1;
        }
        assert(ps.skip(i as int).len() == 0);
        return string_of(&capitalize(&id));
    }
    if contains_char(&id, '.') {
        let pieces = split_at(&id, '.');
        let ghost ps = views(pieces@);
        let mut i: usize = pieces.len();
        assert(ps.take(i as int) =~= ps);
        while i > 0
            invariant
                i <= pieces.len(),
                ps == views(pieces@),
                ps == split_any(app_id@, seq!['.']),
                id@ == app_id@,
                !(app_id@.contains(' ') || app_id@.contains('*') || app_id@.contains('|')),
                app_id@.contains('.'),
                last_specific_part(ps) == last_specific_part(ps.take(i as int)),
            decreases i,
        {
            assert(ps.take(i as int).drop_last() =~= ps.take(i - 1));
            assert(ps.take(i as int).last() == pieces@[i - 1]@);
            if !generic_part(&pieces[i - 1]) {
                return string_of(&capitalize(&pieces[i - 1]));
            }
            i = i - 1;
        }
        proof { crate::text::lemma_split_any_nonempty(id@, seq!['.']); }
        assert(ps[0] == pieces@[0]@);
        return string_of(&pieces[0]);
    }
    string_of(&capitalize(&id))
}

/// The display name of an application: a non-empty stored name, else the desktop
/// entry's name, else a name from the executable path when that differs from the id
/// other than in case, else the fallback derived from the id.
pub open spec fn resolved_name(
    app_id: Seq<char>,
    path: Seq<char>,
    desktop: Map<Seq<char>, Seq<char>>,
    stored: Map<Seq<char>, Seq<char>>,
) -> Seq<char> {
    if stored.contains_key(app_id) && stored[app_id].len() > 0 {
        stored[app_id]
    } else if desktop.contains_key(app_id) {
        desktop[app_id]
    } else if path.len() > 0 && path_name(path).len() > 0 && str_lower(path_name(path))
        != str_lower(app_id) {
        path_name(path)
    } else {
        fallback_name(app_id)
    }
}

/// Law: a non-empty stored name always wins; without one, the desktop entry's name
/// wins over the executable path, and whenever either of them decides the path plays
/// no part; without both, a name from the path that is not just the id in another
/// case is used, and otherwise the readable fallback from the id.
pub proof fn lemma_resolve_order(
    app_id: Seq<char>,
    path: Seq<char>,
    other_path: Seq<char>,
    desktop: Map<Seq<char>, Seq<char>>,
    stored: Map<Seq<char>, Seq<char>>,
)
    ensures
        stored.contains_key(app_id) && stored[app_id].len() > 0 ==> resolved_name(app_id, path, desktop, stored)
            == stored[app_id],
        !(stored.contains_key(app_id) && stored[app_id].len() > 0) && desktop.contains_key(app_id)
            ==> resolved_name(app_id, path, desktop, stored) == desktop[app_id],
        (stored.contains_key(app_id) && stored[app_id].len() > 0) || desktop.contains_key(app_id)
            ==> resolved_name(app_id, path, desktop, stored) == resolved_name(app_id, other_path, desktop, stored),
        !(stored.contains_key(app_id) && stored[app_id].len() > 0) && !desktop.contains_key(app_id)
            && path.len() == 0 ==> resolved_name(app_id, path, desktop, stored) == fallback_name(app_id),
        !(stored.contains_key(app_id) && stored[app_id].len() > 0) && !desktop.contains_key(app_id)
            && path.len() > 0 && path_name(path).len() > 0 && str_lower(path_name(path)) != str_lower(app_id)
            ==> resolved_name(app_id, path, desktop, stored) == path_name(path),
        !(stored.contains_key(app_id) && stored[app_id].len() > 0) && !desktop.contains_key(app_id)
            && path_name(path).len() == 0 ==> resolved_name(app_id, path, desktop, stored) == fallback_name(app_id),
{
}

/// The display name of an application (see `resolved_name`); `db_meta` holds the
/// names stored in the database.
pub fn resolve(app_id: &str, path: &str, desktop: &DesktopDB, db_meta: &NameMap) -> (r: String)
    ensures
        r@ == resolved_name(app_id@, path@, desktop.names(), db_meta@),
        db_meta@.contains_key(app_id@) && db_meta@[app_id@].len() > 0 ==> r@ == db_meta@[app_id@],
        !(db_meta@.contains_key(app_id@) && db_meta@[app_id@].len() > 0) && desktop.names().contains_key(app_id@)
            ==> r@ == desktop.names()[app_id@],
{
    if let Some(name) = db_meta.get(app_id) {
        if name.as_str().unicode_len() > 0 {
            return name;
        }
    }
    if let Some(name) = desktop.lookup(app_id) {
        return name;
    }
    if path.unicode_len() > 0 {
        let name = name_from_path(path);
        if name.as_str().unicode_len() > 0 {
            let a = lower_of(&chars_of(name.as_str()));
            let b = lower_of(&chars_of(app_id));
            if !chars_eq(&a, &b) {
                return name;
            }
        }
    }
    friendly_fallback(app_id)
}

} // verus!
