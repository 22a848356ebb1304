//! Character-level text helpers shared by the tracker's reports and parsers.
use vstd::prelude::*;

verus! {

broadcast use vstd::string::group_string_axioms;

/// Every character of `s`, in order.
pub fn chars_of(s: &str) -> (r: Vec<char>)
    ensures
        r@ == s@,
{
    let mut r: Vec<char> = Vec::new();
    for c in it: s.chars()
        invariant
            it.seq() == s@,
            r@ == it.seq().take(it.index() as int),
    {
        r.push(c);
    }
    r
}

/// Collects characters into an owned string (`String: FromIterator<&char>`).
#[verifier::external_body]
pub fn string_of(v: &Vec<char>) -> (r: String)
    ensures
        r@ == v@,
{
    v.iter().collect()
}

/// The first `max` characters of `s` (all of `s` when it is shorter).
pub open spec fn truncated(s: Seq<char>, max: nat) -> Seq<char> {
    if s.len() <= max { s } else { s.take(max as int) }
}

/// Cuts `s` to at most `max` characters.
pub fn trun(s: &str, max: usize) -> (r: String)
    ensures
        r@ == truncated(s@, max as nat),
{
    let cs = chars_of(s);
    let mut out: Vec<char> = Vec::new();
    let mut i: usize = 0;
    while i < cs.len() && i < max
        invariant
            cs@ == s@,
            i <= cs.len(),
            i <= max,
            out@ == cs@.take(i as int),
        decreases cs.len() - i,
    {
        out.push(cs[i]);
        i = i + 1;
    }
    proof {
        if s@.len() <= max {
            assert(out@ =~= s@);
        }
    }
    string_of(&out)
}


/// `n` copies of `c`.
pub open spec fn repeat(c: char, n: nat) -> Seq<char> {
    Seq::new(n, |i: int| c)
}

/// `s` followed by spaces up to `w` characters (`{:<w}`).
pub open spec fn pad_right(s: Seq<char>, w: nat) -> Seq<char> {
    if s.len() >= w { s } else { s + repeat(' ', (w - s.len()) as nat) }
}

/// `s` preceded by spaces up to `w` characters (`{:>w}`).
pub open spec fn pad_left(s: Seq<char>, w: nat) -> Seq<char> {
    if s.len() >= w { s } else { repeat(' ', (w - s.len()) as nat) + s }
}

/// Appends the characters of `s`.
pub fn push_str(out: &mut Vec<char>, s: &str)
    ensures
        final(out)@ == old(out)@ + s@,
{
    let mut cs = chars_of(s);
    out.append(&mut cs);
}

/// Appends the characters of `s`.
pub fn push_chars(out: &mut Vec<char>, s: &Vec<char>)
    ensures
        final(out)@ == old(out)@ + s@,
{
    let mut i: usize = 0;
    while i < s.len()
        invariant
            i <= s.len(),
            out@ == old(out)@ + s@.take(i as int),
        decreases s.len() - i,
    {
        out.push(s[i]);
        i = i + 1;
        assert(s@.take(i as int) =~= s@.take(i - 1 as int).push(s@[i - 1]));
    }
    assert(s@.take(s.len() as int) =~= s@);
}

/// Appends `n` copies of `c`.
pub fn push_repeat(out: &mut Vec<char>, c: char, n: usize)
    ensures
        final(out)@ == old(out)@ + repeat(c, n as nat),
{
    let mut i: usize = 0;
    while i < n
        invariant
            i <= n,
            out@ == old(out)@ + repeat(c, i as nat),
        decreases n - i,
    {
        out.push(c);
        i = i + 1;
        assert(repeat(c, i as nat) =~= repeat(c, (i - 1) as nat).push(c));
    }
}

/// Appends `s` left-aligned in a field of `w` characters.
pub fn push_pad_right(out: &mut Vec<char>, s: &Vec<char>, w: usize)
    ensures
        final(out)@ == old(out)@ + pad_right(s@, w as nat),
{
    push_chars(out, s);
    if s.len() < w {
        push_repeat(out, ' ', w - s.len());
    }
    assert(out@ =~= old(out)@ + pad_right(s@, w as nat));
}

/// Appends `s` right-aligned in a field of `w` characters.
pub fn push_pad_left(out: &mut Vec<char>, s: &Vec<char>, w: usize)
    ensures
        final(out)@ == old(out)@ + pad_left(s@, w as nat),
{
    if s.len() < w {
        push_repeat(out, ' ', w - s.len());
    }
    push_chars(out, s);
    assert(out@ =~= old(out)@ + pad_left(s@, w as nat));
}

/// The decimal digit character for `d` (`0 <= d < 10`).
pub open spec fn digit_char(d: int) -> char {
    if d == 0 { '0' } else if d == 1 { '1' } else if d == 2 { '2' } else if d == 3 { '3' }
    else if d == 4 { '4' } else if d == 5 { '5' } else if d == 6 { '6' } else if d == 7 { '7' }
    else if d == 8 { '8' } else { '9' }
}

/// Decimal digits of a natural number, most significant first, no leading zeros.
pub open spec fn digits(n: nat) -> Seq<char>
    decreases n,
{
    if n < 10 { seq![digit_char(n as int)] } else { digits(n / 10) + seq![digit_char((n % 10) as int)] }
}

/// The decimal rendering of an integer, as `{}` prints it.
pub open spec fn decimal(n: int) -> Seq<char> {
    if n < 0 { seq!['-'] + digits((-n) as nat) } else { digits(n as nat) }
}

fn digit_of(d: u64) -> (c: char)
    requires
        d < 10,
    ensures
        c == digit_char(d as int),
{
    if d == 0 { '0' } else if d == 1 { '1' } else if d == 2 { '2' } else if d == 3 { '3' }
    else if d == 4 { '4' } else if d == 5 { '5' } else if d == 6 { '6' } else if d == 7 { '7' }
    else if d == 8 { '8' } else { '9' }
}

/// Decimal digits of `n`.
pub fn digits_of(n: u64) -> (r: Vec<char>)
    ensures
        r@ == digits(n as nat),
{
    let mut out: Vec<char> = Vec::new();
    let mut m: u64 = n;
    while m >= 10
        invariant
            digits(n as nat) == digits(m as nat) + out@,
        decreases m,
    {
        let c = digit_of(m % 10);
        out.insert(0, c);
        let ghost old_m = m;
        m = m / 10;
        assert(digits(old_m as nat) == digits(m as nat) + seq![c]);
        assert(digits(n as nat) =~= digits(m as nat) + out@);
    }
    let c = digit_of(m);
    out.insert(0, c);
    assert(digits(n as nat) =~= out@);
    out
}

/// The decimal rendering of `n`.
pub fn decimal_of(n: i64) -> (r: Vec<char>)
    ensures
        r@ == decimal(n as int),
{
    if n < 0 {
        let mag: u64 = (0i128 - n as i128) as u64;
        let mut out: Vec<char> = Vec::new();
        out.push('-');
        let mut ds = digits_of(mag);
        out.append(&mut ds);
        assert(out@ =~= decimal(n as int));
        out
    } else {
        digits_of(n as u64)
    }
}


/// Whether two character sequences are equal.
pub fn chars_eq(a: &Vec<char>, b: &Vec<char>) -> (r: bool)
    ensures
        r == (a@ == b@),
{
    if a.len() != b.len() {
        return false;
    }
    let mut i: usize = 0;
    while i < a.len()
        invariant
            a.len() == b.len(),
            i <= a.len(),
            forall|j: int| 0 <= j < i ==> a@[j] == b@[j],
        decreases a.len() - i,
    {
        if a[i] != b[i] {
            return false;
        }
        i = i + 1;
    }
    assert(a@ =~= b@);
    true
}

/// `p` is a prefix of `s`.
pub open spec fn has_prefix(s: Seq<char>, p: Seq<char>) -> bool {
    p.len() <= s.len() && s.take(p.len() as int) == p
}

/// `p` is a suffix of `s`.
pub open spec fn has_suffix(s: Seq<char>, p: Seq<char>) -> bool {
    p.len() <= s.len() && s.skip(s.len() - p.len()) == p
}

/// Whether `p` is a prefix of `s`.
pub fn starts_with(s: &Vec<char>, p: &Vec<char>) -> (r: bool)
    ensures
        r == has_prefix(s@, p@),
{
    if p.len() > s.len() {
        return false;
    }
    let mut i: usize = 0;
    while i < p.len()
        invariant
            p.len() <= s.len(),
            i <= p.len(),
            forall|j: int| 0 <= j < i ==> s@[j] == p@[j],
        decreases p.len() - i,
    {
        if s[i] != p[i] {
            assert(s@.take(p.len() as int)[i as int] != p@[i as int]);
            return false;
        }
        i = i + 1;
    }
    assert(s@.take(p.len() as int) =~= p@);
    true
}

/// Whether `p` is a suffix of `s`.
pub fn ends_with(s: &Vec<char>, p: &Vec<char>) -> (r: bool)
    ensures
        r == has_suffix(s@, p@),
{
    if p.len() > s.len() {
        return false;
    }
    let off = s.len() - p.len();
    let mut i: usize = 0;
    while i < p.len()
        invariant
            p.len() <= s.len(),
            off == s.len() - p.len(),
            i <= p.len(),
            forall|j: int| 0 <= j < i ==> s@[off + j] == p@[j],
        decreases p.len() - i,
    {
        if s[off + i] != p[i] {
            assert(s@.skip(off as int)[i as int] != p@[i as int]);
            return false;
        }
        i = i + 1;
    }
    assert(s@.skip(off as int) =~= p@);
    true
}

/// The characters of `s` from position `from` on.
pub fn tail_from(s: &Vec<char>, from: usize) -> (r: Vec<char>)
    requires
        from <= s.len(),
    ensures
        r@ == s@.skip(from as int),
{
    let mut out: Vec<char> = Vec::new();
    let mut i: usize = from;
    while i < s.len()
        invariant
            from <= i <= s.len(),
            out@ == s@.subrange(from as int, i as int),
        decreases s.len() - i,
    {
        out.push(s[i]);
        i = i + 1;
        assert(out@ =~= s@.subrange(from as int, i as int));
    }
    assert(out@ =~= s@.skip(from as int));
    out
}

/// The first `n` characters of `s`.
pub fn head_to(s: &Vec<char>, n: usize) -> (r: Vec<char>)
    requires
        n <= s.len(),
    ensures
        r@ == s@.take(n as int),
{
    let mut out: Vec<char> = Vec::new();
    let mut i: usize = 0;
    while i < n
        invariant
            n <= s.len(),
            i <= n,
            out@ == s@.take(i as int),
        decreases n - i,
    {
        out.push(s[i]);
        i = i + 1;
        assert(out@ =~= s@.take(i as int));
    }
    out
}

/// Whether `c` occurs in `s`.
pub fn contains_char(s: &Vec<char>, c: char) -> (r: bool)
    ensures
        r == s@.contains(c),
{
    let mut i: usize = 0;
    while i < s.len()
        invariant
            i <= s.len(),
            forall|j: int| 0 <= j < i ==> s@[j] != c,
        decreases s.len() - i,
    {
        if s[i] == c {
            assert(s@[i as int] == c);
            return true;
        }
        i = i + 1;
    }
    false
}

/// Unicode `White_Space`, the set that `char::is_whitespace` tests for.
pub open spec fn is_white(c: char) -> bool {
    let u = c as u32;
    (9 <= u <= 13) || u == 32 || u == 0x85 || u == 0xa0 || u == 0x1680 || (0x2000 <= u <= 0x200a)
        || u == 0x2028 || u == 0x2029 || u == 0x202f || u == 0x205f || u == 0x3000
}

/// Whether `c` is Unicode white space.
pub fn white(c: char) -> (r: bool)
    ensures
        r == is_white(c),
{
    let u = c as u32;
    (9 <= u && u <= 13) || u == 32 || u == 0x85 || u == 0xa0 || u == 0x1680 || (0x2000 <= u && u
        <= 0x200a) || u == 0x2028 || u == 0x2029 || u == 0x202f || u == 0x205f || u == 0x3000
}

/// `s` without its leading white space.
pub open spec fn trim_start(s: Seq<char>) -> Seq<char>
    decreases s.len(),
{
    if s.len() > 0 && is_white(s[0]) { trim_start(s.drop_first()) } else { s }
}

/// `s` without its trailing white space.
pub open spec fn trim_end(s: Seq<char>) -> Seq<char>
    decreases s.len(),
{
    if s.len() > 0 && is_white(s.last()) { trim_end(s.drop_last()) } else { s }
}

/// `s` without leading and trailing white space (`str::trim`).
pub open spec fn trim(s: Seq<char>) -> Seq<char> {
    trim_end(trim_start(s))
}

proof fn lemma_trim_start_at(s: Seq<char>, a: int)
    requires
        0 <= a <= s.len(),
        forall|j: int| 0 <= j < a ==> is_white(s[j]),
        a == s.len() || !is_white(s[a]),
    ensures
        trim_start(s) == s.skip(a),
    decreases a,
{
    if a > 0 {
        lemma_trim_start_at(s.drop_first(), a - 1);
        assert(s.drop_first().skip(a - 1) =~= s.skip(a));
    } else {
        assert(s.skip(0) =~= s);
    }
}

proof fn lemma_trim_end_at(s: Seq<char>, b: int)
    requires
        0 <= b <= s.len(),
        forall|j: int| b <= j < s.len() ==> is_white(s[j]),
        b == 0 || !is_white(s[b - 1]),
    ensures
        trim_end(s) == s.take(b),
    decreases s.len() - b,
{
    if b < s.len() {
        lemma_trim_end_at(s.drop_last(), b);
        assert(s.drop_last().take(b) =~= s.take(b));
    } else {
        assert(s.take(b) =~= s);
    }
}

/// `s` without leading and trailing white space.
pub fn trimmed(s: &Vec<char>) -> (r: Vec<char>)
    ensures
        r@ == trim(s@),
{
    let mut a: usize = 0;
    while a < s.len() && white(s[a])
        invariant
            a <= s.len(),
            forall|j: int| 0 <= j < a ==> is_white(s@[j]),
        decreases s.len() - a,
    {
        a = a + 1;
    }
    proof { lemma_trim_start_at(s@, a as int); }
    let rest = tail_from(s, a);
    let mut b: usize = rest.len();
    while b > 0 && white(rest[b - 1])
        invariant
            b <= rest.len(),
            forall|j: int| b <= j < rest.len() ==> is_white(rest@[j]),
        decreases b,
    {
        b = b - 1;
    }
    proof { lemma_trim_end_at(rest@, b as int); }
    head_to(&rest, b)
}

/// The pieces of `s` between occurrences of any character of `seps` (`str::split`):
/// `n` separators give `n + 1` pieces, empty pieces included.
pub open spec fn split_any(s: Seq<char>, seps: Seq<char>) -> Seq<Seq<char>>
    decreases s.len(),
{
    if s.len() == 0 {
        seq![Seq::empty()]
    } else {
        let rest = split_any(s.drop_last(), seps);
        if seps.contains(s.last()) {
            rest.push(Seq::empty())
        } else {
            rest.update(rest.len() - 1, rest.last().push(s.last()))
        }
    }
}

pub proof fn lemma_split_any_nonempty(s: Seq<char>, seps: Seq<char>)
    ensures
        split_any(s, seps).len() >= 1,
    decreases s.len(),
{
    if s.len() > 0 {
        lemma_split_any_nonempty(s.drop_last(), seps);
    }
}

/// The views of a list of character vectors.
pub open spec fn views(v: Seq<Vec<char>>) -> Seq<Seq<char>> {
    v.map_values(|x: Vec<char>| x@)
}

/// Splits `s` at every character of `seps`.
pub fn split_at_any(s: &Vec<char>, seps: &Vec<char>) -> (r: Vec<Vec<char>>)
    ensures
        views(r@) == split_any(s@, seps@),
{
    let mut pieces: Vec<Vec<char>> = Vec::new();
    let mut cur: Vec<char> = Vec::new();
    let mut i: usize = 0;
    assert(s@.take(0) =~= Seq::<char>::empty());
    assert(views(pieces@).push(cur@) =~= split_any(s@.take(0), seps@));
    while i < s.len()
        invariant
            i <= s.len(),
            views(pieces@).push(cur@) == split_any(s@.take(i as int), seps@),
        decreases s.len() - i,
    {
        let c = s[i];
        let ghost pre = s@.take(i as int);
        assert(s@.take(i + 1).drop_last() =~= pre);
        assert(s@.take(i + 1).last() == c);
        proof { lemma_split_any_nonempty(pre, seps@); }
        if contains_char(seps, c) {
            let done = cur;
            pieces.push(done);
            cur = Vec::new();
            assert(views(pieces@).push(cur@) =~= split_any(pre, seps@).push(Seq::empty()));
        } else {
            cur.push(c);
            assert(views(pieces@).push(cur@) =~= split_any(pre, seps@).update(
                split_any(pre, seps@).len() - 1,
                split_any(pre, seps@).last().push(c),
            ));
        }
        i = i + 1;
    }
    assert(s@.take(s.len() as int) =~= s@);
    pieces.push(cur);
    pieces
}

/// Splits `s` at every occurrence of `sep`.
pub fn split_at(s: &Vec<char>, sep: char) -> (r: Vec<Vec<char>>)
    ensures
        views(r@) == split_any(s@, seq![sep]),
{
    let mut seps: Vec<char> = Vec::new();
    seps.push(sep);
    assert(seps@ =~= seq![sep]);
    split_at_any(s, &seps)
}


/// What `char::to_uppercase` yields for `c` (Unicode case mapping; may be several characters).
pub uninterp spec fn char_upper(c: char) -> Seq<char>;

/// What `str::to_lowercase` yields for `s` (Unicode case mapping of the whole string).
pub uninterp spec fn str_lower(s: Seq<char>) -> Seq<char>;

/// `char::to_uppercase`: the upper-case mapping of `c`. Its documentation gives the
/// ASCII part: `a`..`z` map to `A`..`Z`, every other ASCII character to itself.
#[verifier::external_body]
pub fn upper_of(c: char) -> (r: Vec<char>)
    ensures
        r@ == char_upper(c),
        (c as u32) < 128 && 97 <= (c as u32) <= 122 ==> r@.len() == 1 && (r@[0] as u32) == (c as u32) - 32,
        (c as u32) < 128 && !(97 <= (c as u32) <= 122) ==> r@ == seq![c],
{
    c.to_uppercase().collect()
}

/// All characters of `s` are ASCII.
pub open spec fn all_ascii(s: Seq<char>) -> bool {
    forall|i: int| 0 <= i < s.len() ==> (#[trigger] s[i] as u32) < 128
}

/// `t` is the ASCII text `s` in lower case: `A`..`Z` become `a`..`z`, every other
/// character stays as it is.
pub open spec fn ascii_lowered(s: Seq<char>, t: Seq<char>) -> bool {
    &&& t.len() == s.len()
    &&& forall|i: int|
        0 <= i < s.len() ==> if 65 <= (#[trigger] s[i] as u32) <= 90 {
            (t[i] as u32) == (s[i] as u32) + 32
        } else {
            t[i] == s[i]
        }
}

/// `str::to_lowercase`: the lower-case mapping of `s`. On ASCII text that mapping
/// goes character by character: `A`..`Z` become `a`..`z`, every other character
/// stays as it is.
#[verifier::external_body]
pub fn lower_of(s: &Vec<char>) -> (r: Vec<char>)
    ensures
        r@ == str_lower(s@),
        all_ascii(s@) ==> ascii_lowered(s@, r@),
{
    s.iter().collect::<String>().to_lowercase().chars().collect()
}


/// The pieces joined end to end.
pub open spec fn concat(pieces: Seq<Seq<char>>) -> Seq<char>
    decreases pieces.len(),
{
    if pieces.len() == 0 { Seq::empty() } else { concat(pieces.drop_last()) + pieces.last() }
}

/// Joining one more piece appends it.
pub proof fn lemma_concat_step(pieces: Seq<Seq<char>>, i: int)
    requires
        0 <= i < pieces.len(),
    ensures
        concat(pieces.take(i + 1)) == concat(pieces.take(i)) + pieces[i],
{
    assert(pieces.take(i + 1).drop_last() =~= pieces.take(i));
}

/// The first `n` rows of a list, or all of them when it is shorter.
pub open spec fn first_rows<T>(rows: Seq<T>, n: nat) -> Seq<T> {
    if rows.len() <= n { rows } else { rows.take(n as int) }
}

} // verus!
