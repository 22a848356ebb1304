//! File-name parts of paths, as `std::path::Path` reads them.
use vstd::prelude::*;
use crate::text::{split_any, split_at_any, views, chars_eq, chars_of};

verus! {

/// The separators of a path: `/`, and on Windows also `\`.
pub open spec fn separators(windows: bool) -> Seq<char> {
    if windows { seq!['/', '\\'] } else { seq!['/'] }
}

/// The last component of `pieces` that is not empty and, outside a verbatim path, not
/// `.` either (in a verbatim path `.` is a component of its own).
pub open spec fn last_normal(pieces: Seq<Seq<char>>, verbatim: bool) -> Option<Seq<char>>
    decreases pieces.len(),
{
    if pieces.len() == 0 {
        None
    } else if pieces.last().len() == 0 {
        last_normal(pieces.drop_last(), verbatim)
    } else if pieces.last() == seq!['.'] {
        if verbatim { None } else { last_normal(pieces.drop_last(), verbatim) }
    } else {
        Some(pieces.last())
    }
}

/// `c` is an ASCII letter.
pub open spec fn is_ascii_letter(c: char) -> bool {
    ('a' <= c && c <= 'z') || ('A' <= c && c <= 'Z')
}

/// `c` separates components of a Windows path: `\`, and outside a verbatim path `/`.
pub open spec fn is_win_sep(c: char, verbatim: bool) -> bool {
    c == '\\' || (!verbatim && c == '/')
}

/// Where the component of a Windows path that begins at `from` ends: at the next
/// separator, or at the end of the path.
pub open spec fn comp_end(path: Seq<char>, from: int, verbatim: bool) -> int
    decreases path.len() - from,
{
    if from < 0 || from >= path.len() {
        path.len() as int
    } else if is_win_sep(path[from], verbatim) {
        from
    } else {
        comp_end(path, from + 1, verbatim)
    }
}

/// The prefix of a Windows path, as `std::path::Prefix` reads it: where it ends (0 when
/// there is none) and whether it makes the path verbatim.
/// - `\\?\UNC\server\share`, `\\?\C:` and `\\?\name` are verbatim: there only `\`
///   separates components;
/// - `\\.\device`, `\\server\share` (server and share not empty) and `C:` are not.
/// Within the prefix `/` counts as `\`, except in the `\\?\` that starts a verbatim one.
pub open spec fn prefix_end(path: Seq<char>) -> (int, bool) {
    let n = path.len();
    if n >= 2 && is_win_sep(path[0], false) && is_win_sep(path[1], false) {
        if n >= 4 && path[0] == '\\' && path[1] == '\\' && path[2] == '?' && path[3] == '\\' {
            if n >= 8 && path[4] == 'U' && path[5] == 'N' && path[6] == 'C' && is_win_sep(path[7], false) {
                let e1 = comp_end(path, 8, true);
                if e1 < n && comp_end(path, e1 + 1, true) > e1 + 1 {
                    (comp_end(path, e1 + 1, true), true)
                } else {
                    (e1, true)
                }
            } else if n >= 6 && is_ascii_letter(path[4]) && path[5] == ':' && (n == 6 || path[6] == '\\') {
                (6, true)
            } else {
                (comp_end(path, 4, true), true)
            }
        } else if n >= 4 && path[2] == '.' && is_win_sep(path[3], false) {
            (comp_end(path, 4, false), false)
        } else {
            let e1 = comp_end(path, 2, false);
            if e1 > 2 && e1 < n && comp_end(path, e1 + 1, false) > e1 + 1 {
                (comp_end(path, e1 + 1, false), false)
            } else {
                (0, false)
            }
        }
    } else if n >= 2 && is_ascii_letter(path[0]) && path[1] == ':' {
        (2, false)
    } else {
        (0, false)
    }
}

/// The path after its prefix, whether it is verbatim, and the characters that separate
/// its components.
pub open spec fn path_body(path: Seq<char>, windows: bool) -> (Seq<char>, bool, Seq<char>) {
    if windows {
        let (n, v) = prefix_end(path);
        (path.skip(n), v, if v { seq!['\\'] } else { separators(true) })
    } else {
        (path, false, separators(false))
    }
}

/// `Path::file_name`: the final component after the prefix, unless that is `..`, a
/// verbatim `.`, or there is none.
pub open spec fn file_name(path: Seq<char>, windows: bool) -> Option<Seq<char>> {
    let (body, v, seps) = path_body(path, windows);
    match last_normal(split_any(body, seps), v) {
        Some(c) => if c == seq!['.', '.'] { None } else { Some(c) },
        None => None,
    }
}

/// The index of the last `c` in `s`.
pub open spec fn last_index_of(s: Seq<char>, c: char) -> Option<int>
    decreases s.len(),
{
    if s.len() == 0 {
        None
    } else if s.last() == c {
        Some(s.len() - 1)
    } else {
        last_index_of(s.drop_last(), c)
    }
}

/// `Path::file_stem` of a file name: the part before the last `.`, or the whole name
/// when it has no `.` other than a leading one.
pub open spec fn stem_of(name: Seq<char>) -> Seq<char> {
    match last_index_of(name, '.') {
        Some(i) => if i == 0 { name } else { name.take(i) },
        None => name,
    }
}

/// `Path::extension` of a file name: the part after the last `.`, if that `.` is not
/// the first character.
pub open spec fn extension_of(name: Seq<char>) -> Option<Seq<char>> {
    match last_index_of(name, '.') {
        Some(i) => if i == 0 { None } else { Some(name.skip(i + 1)) },
        None => None,
    }
}

/// `Path::file_stem` of a path.
pub open spec fn path_stem(path: Seq<char>, windows: bool) -> Option<Seq<char>> {
    match file_name(path, windows) {
        Some(n) => Some(stem_of(n)),
        None => None,
    }
}

/// `Path::extension` of a path.
pub open spec fn path_extension(path: Seq<char>, windows: bool) -> Option<Seq<char>> {
    match file_name(path, windows) {
        Some(n) => extension_of(n),
        None => None,
    }
}

/// The last `.` of `s + "." + e`, where `e` holds no `.`, is the one put between them.
proof fn lemma_last_dot(s: Seq<char>, e: Seq<char>)
    requires
        !e.contains('.'),
    ensures
        last_index_of(s + seq!['.'] + e, '.') == Some(s.len() as int),
    decreases e.len(),
{
    let full = s + seq!['.'] + e;
    if e.len() == 0 {
        assert(full.last() == '.');
    } else {
        assert(!e.contains('.') ==> e.last() != '.') by {
            if e.last() == '.' {
                assert(e.contains('.'));
            }
        }
        assert(full.last() == e.last());
        assert(full.drop_last() =~= s + seq!['.'] + e.drop_last());
        assert(!e.drop_last().contains('.')) by {
            if e.drop_last().contains('.') {
                let k = choose|k: int| 0 <= k < e.drop_last().len() && e.drop_last()[k] == '.';
                assert(e[k] == '.');
            }
        }
        lemma_last_dot(s, e.drop_last());
    }
}

/// Law: a file name with text before its last `.` has as extension what follows that
/// `.` and as stem what precedes it, however many dots the stem holds (so
/// `org.gnome.Nautilus.desktop` has extension `desktop` and stem `org.gnome.Nautilus`).
pub proof fn lemma_stem_and_extension(s: Seq<char>, e: Seq<char>)
    requires
        s.len() > 0,
        !e.contains('.'),
    ensures
        extension_of(s + seq!['.'] + e) == Some(e),
        stem_of(s + seq!['.'] + e) == s,
{
    lemma_last_dot(s, e);
    let full = s + seq!['.'] + e;
    assert(full.skip(s.len() as int + 1) =~= e);
    assert(full.take(s.len() as int) =~= s);
}

/// The last piece of `a + sep + b`, split at `seps`, is `b` when `sep` is one of them
/// and `b` holds none.
proof fn lemma_split_last(a: Seq<char>, sep: char, b: Seq<char>, seps: Seq<char>)
    requires
        seps.contains(sep),
        forall|i: int| 0 <= i < b.len() ==> !seps.contains(#[trigger] b[i]),
    ensures
        split_any(a + seq![sep] + b, seps).len() >= 1,
        split_any(a + seq![sep] + b, seps).last() == b,
    decreases b.len(),
{
    let full = a + seq![sep] + b;
    crate::text::lemma_split_any_nonempty(full, seps);
    if b.len() == 0 {
        assert(full.drop_last() =~= a);
        assert(full.last() == sep);
        assert(b =~= Seq::<char>::empty());
    } else {
        assert(full.drop_last() =~= a + seq![sep] + b.drop_last());
        assert(full.last() == b.last());
        assert(!seps.contains(b[b.len() - 1]));
        lemma_split_last(a, sep, b.drop_last(), seps);
        assert(b.drop_last().push(b.last()) =~= b);
    }
}

/// Law: on a Unix path, what follows the last `/` is the file name, unless it is
/// empty, `.` or `..`.
pub proof fn lemma_file_name_after_slash(dir: Seq<char>, name: Seq<char>)
    requires
        name.len() > 0,
        name != seq!['.'],
        name != seq!['.', '.'],
        !name.contains('/'),
    ensures
        file_name(dir + seq!['/'] + name, false) == Some(name),
{
    let seps = separators(false);
    assert(seps.contains('/')) by {
        assert(seps[0] == '/');
    }
    assert forall|i: int| 0 <= i < name.len() implies !seps.contains(#[trigger] name[i]) by {
        if seps.contains(name[i]) {
            assert(name[i] == '/');
            assert(name.contains('/'));
        }
    }
    lemma_split_last(dir, '/', name, seps);
}

/// Law: a `*.desktop` file whose name has text before the `.desktop`, dots included,
/// has the extension `desktop` and that text as its stem.
pub proof fn lemma_desktop_file_parts(dir: Seq<char>, s: Seq<char>)
    requires
        s.len() > 0,
        !s.contains('/'),
    ensures
        path_extension(dir + seq!['/'] + s + ".desktop"@, false) == Some("desktop"@),
        path_stem(dir + seq!['/'] + s + ".desktop"@, false) == Some(s),
{
    reveal_strlit(".desktop");
    reveal_strlit("desktop");
    let e = "desktop"@;
    let name = s + seq!['.'] + e;
    assert(".desktop"@ =~= seq!['.'] + e);
    assert(dir + seq!['/'] + s + ".desktop"@ =~= dir + seq!['/'] + name);
    assert(!e.contains('.')) by {
        if e.contains('.') {
            let k = choose|k: int| 0 <= k < e.len() && e[k] == '.';
            assert(e[k] == '.');
        }
    }
    assert(!name.contains('/')) by {
        if name.contains('/') {
            let k = choose|k: int| 0 <= k < name.len() && name[k] == '/';
            if k < s.len() {
                assert(s[k] == '/');
                assert(s.contains('/'));
            } else if k > s.len() {
                assert(e[k - s.len() - 1] == '/');
            }
        }
    }
    assert(name != seq!['.']) by {
        assert(name.len() >= 2);
    }
    assert(name != seq!['.', '.']) by {
        assert(name.len() > 2);
    }
    lemma_file_name_after_slash(dir, name);
    lemma_stem_and_extension(s, e);
}

fn separator_chars(windows: bool) -> (r: Vec<char>)
    ensures
        r@ == separators(windows),
{
    let mut v: Vec<char> = Vec::new();
    v.push('/');
    if windows {
        v.push('\\');
    }
    assert(v@ =~= separators(windows));
    v
}

fn is_sep_char(c: char, verbatim: bool) -> (r: bool)
    ensures
        r == is_win_sep(c, verbatim),
{
    c == '\\' || (!verbatim && c == '/')
}

fn comp_end_of(path: &Vec<char>, from: usize, verbatim: bool) -> (r: usize)
    requires
        from <= path.len(),
    ensures
        r as int == comp_end(path@, from as int, verbatim),
        from <= r <= path.len(),
{
    let mut i: usize = from;
    while i < path.len() && !is_sep_char(path[i], verbatim)
        invariant
            from <= i <= path.len(),
            comp_end(path@, from as int, verbatim) == comp_end(path@, i as int, verbatim),
        decreases path.len() - i,
    {
        i = i + 1;
    }
    i
}

fn prefix_end_of(path: &Vec<char>) -> (r: (usize, bool))
    ensures
        (r.0 as int, r.1) == prefix_end(path@),
        r.0 <= path.len(),
{
    let n = path.len();
    if n >= 2 && is_sep_char(path[0], false) && is_sep_char(path[1], false) {
        if n >= 4 && path[0] == '\\' && path[1] == '\\' && path[2] == '?' && path[3] == '\\' {
            if n >= 8 && path[4] == 'U' && path[5] == 'N' && path[6] == 'C' && is_sep_char(path[7], false) {
                let e1 = comp_end_of(path, 8, true);
                if e1 < n {
                    let e2 = comp_end_of(path, e1 + 1, true);
                    if e2 > e1 + 1 {
                        return (e2, true);
                    }
                }
                (e1, true)
            } else if n >= 6 && (('a' <= path[4] && path[4] <= 'z') || ('A' <= path[4] && path[4] <= 'Z'))
                && path[5] == ':' && (n == 6 || path[6] == '\\') {
                (6, true)
            } else {
                (comp_end_of(path, 4, true), true)
            }
        } else if n >= 4 && path[2] == '.' && is_sep_char(path[3], false) {
            (comp_end_of(path, 4, false), false)
        } else {
            let e1 = comp_end_of(path, 2, false);
            if e1 > 2 && e1 < n {
                let e2 = comp_end_of(path, e1 + 1, false);
                if e2 > e1 + 1 {
                    return (e2, false);
                }
            }
            (0, false)
        }
    } else if n >= 2 && (('a' <= path[0] && path[0] <= 'z') || ('A' <= path[0] && path[0] <= 'Z'))
        && path[1] == ':' {
        (2, false)
    } else {
        (0, false)
    }
}

/// The final component of `path`.
pub fn file_name_of(path: &Vec<char>, windows: bool) -> (r: Option<Vec<char>>)
    ensures
        match r {
            Some(v) => file_name(path@, windows) == Some(v@),
            None => file_name(path@, windows) is None,
        },
{
    let (rest, v, seps) = if windows {
        let (n, v) = prefix_end_of(path);
        let seps = if v {
            let mut b: Vec<char> = Vec::new();
            b.push('\\');
            assert(b@ =~= seq!['\\']);
            b
        } else {
            separator_chars(true)
        };
        (crate::text::tail_from(path, n), v, seps)
    } else {
        assert(path@.skip(0) =~= path@);
        (path.clone(), false, separator_chars(false))
    };
    let ghost body = path_body(path@, windows);
    assert(rest@ == body.0 && v == body.1 && seps@ == body.2);
    let pieces = split_at_any(&rest, &seps);
    let ghost ps = views(pieces@);
    let dot = chars_of(".");
    let dotdot = chars_of("..");
    proof {
        reveal_strlit(".");
        reveal_strlit("..");
        assert(dot@ =~= seq!['.']);
        assert(dotdot@ =~= seq!['.', '.']);
    }
    let mut i: usize = pieces.len();
    assert(ps.take(i as int) =~= ps);
    while i > 0
        invariant
            i <= pieces.len(),
            ps == views(pieces@),
            ps == split_any(body.0, body.2),
            v == body.1,
            body == path_body(path@, windows),
            dot@ == seq!['.'],
            dotdot@ == seq!['.', '.'],
            last_normal(ps, v) == last_normal(ps.take(i as int), v),
        decreases i,
    {
        let p = &pieces[i - 1];
        assert(ps.take(i as int).drop_last() =~= ps.take(i - 1));
        assert(ps.take(i as int).last() == p@);
        if p.len() != 0 {
            if chars_eq(p, &dot) {
                if v {
                    return None;
                }
            } else {
                if chars_eq(p, &dotdot) {
                    return None;
                }
                return Some(p.clone());
            }
        }
        i = i - 1;
    }
    None
}

/// Splits a file name at its last `.`: `(stem, extension)` as `Path` reads them.
pub fn stem_and_extension(name: &Vec<char>) -> (r: (Vec<char>, Option<Vec<char>>))
    ensures
        r.0@ == stem_of(name@),
        match r.1 {
            Some(e) => extension_of(name@) == Some(e@),
            None => extension_of(name@) is None,
        },
{
    let mut i: usize = name.len();
    assert(name@.take(i as int) =~= name@);
    while i > 0 && name[i - 1] != '.'
        invariant
            i <= name.len(),
            last_index_of(name@, '.') == last_index_of(name@.take(i as int), '.'),
        decreases i,
    {
        assert(name@.take(i as int).drop_last() =~= name@.take(i - 1));
        i = i - 1;
    }
    if i == 0 {
        assert(name@.take(0) =~= Seq::<char>::empty());
        return (name.clone(), None);
    }
    assert(name@.take(i as int).last() == '.');
    if i == 1 {
        return (name.clone(), None);
    }
    let stem = crate::text::head_to(name, i - 1);
    let ext = crate::text::tail_from(name, i);
    (stem, Some(ext))
}

} // verus!
