//! Reading the user's idle time from the outputs of the idle probes.
use vstd::prelude::*;
use crate::text::{chars_of, is_white, trim, trimmed, white};

verus! {

/// Whether `c` is an ASCII digit.
pub open spec fn is_digit(c: char) -> bool {
    '0' <= c <= '9'
}

/// The number that a string of ASCII digits spells.
pub open spec fn digits_value(s: Seq<char>) -> int
    decreases s.len(),
{
    if s.len() == 0 { 0 } else { digits_value(s.drop_last()) * 10 + (s.last() as int - '0' as int) }
}

/// Every character of `t` is an ASCII digit.
pub open spec fn all_digits(t: Seq<char>) -> bool {
    forall|i: int| 0 <= i < t.len() ==> is_digit(#[trigger] t[i])
}

/// What `str::parse::<u64>` gives: an optional `+` and then one or more ASCII digits
/// whose value fits in a `u64`.
pub open spec fn parsed_u64(s: Seq<char>) -> Option<u64> {
    let t = if s.len() > 0 && s[0] == '+' { s.drop_first() } else { s };
    if t.len() > 0 && all_digits(t) && digits_value(t) <= u64::MAX {
        Some(digits_value(t) as u64)
    } else {
        None
    }
}

proof fn lemma_digits_grow(t: Seq<char>, i: int)
    requires
        0 <= i <= t.len(),
        forall|j: int| 0 <= j < t.len() ==> is_digit(#[trigger] t[j]),
    ensures
        digits_value(t) >= digits_value(t.take(i)),
        digits_value(t.take(i)) >= 0,
    decreases t.len() - i,
{
    if i < t.len() {
        lemma_digits_grow(t, i + 1);
        assert(t.take(i + 1).drop_last() =~= t.take(i));
        assert(is_digit(t[i]));
    } else {
        assert(t.take(i) =~= t);
        lemma_digits_nonneg(t);
    }
}

proof fn lemma_digits_nonneg(t: Seq<char>)
    requires
        forall|j: int| 0 <= j < t.len() ==> is_digit(#[trigger] t[j]),
    ensures
        digits_value(t) >= 0,
    decreases t.len(),
{
    if t.len() > 0 {
        assert forall|j: int| 0 <= j < t.drop_last().len() implies is_digit(#[trigger] t.drop_last()[j]) by {
            assert(t.drop_last()[j] == t[j]);
        }
        lemma_digits_nonneg(t.drop_last());
        assert(is_digit(t.last()));
    }
}

/// Reads a `u64` the way `str::parse::<u64>` does.
pub fn parse_u64(s: &Vec<char>) -> (r: Option<u64>)
    ensures
        r == parsed_u64(s@),
{
    let start: usize = if s.len() > 0 && s[0] == '+' { 1 } else { 0 };
    let ghost t = if s@.len() > 0 && s@[0] == '+' { s@.drop_first() } else { s@ };
    assert(t =~= s@.skip(start as int));
    if start >= s.len() {
        assert(t.len() == 0);
        return None;
    }
    let mut i: usize = start;
    while i < s.len()
        invariant
            start <= i <= s.len(),
            t == s@.skip(start as int),
            t == (if s@.len() > 0 && s@[0] == '+' { s@.drop_first() } else { s@ }),
            forall|j: int| 0 <= j < i - start ==> is_digit(#[trigger] t[j]),
        decreases s.len() - i,
    {
        if !('0' <= s[i] && s[i] <= '9') {
            assert(!is_digit(t[i - start]));
            return None;
        }
        i = i + 1;
    }
    let mut acc: u64 = 0;
    let mut i: usize = start;
    assert(t.take(0) =~= Seq::<char>::empty());
    while i < s.len()
        invariant
            start <= i <= s.len(),
            t == s@.skip(start as int),
            t == (if s@.len() > 0 && s@[0] == '+' { s@.drop_first() } else { s@ }),
            forall|j: int| 0 <= j < t.len() ==> is_digit(#[trigger] t[j]),
            acc as int == digits_value(t.take(i - start)),
        decreases s.len() - i,
    {
        assert(t[i - start] == s@[i as int]);
        assert(is_digit(s@[i as int]));
        let d = (s[i] as u32 - '0' as u32) as u64;
        assert(d as int == s@[i as int] as int - '0' as int);
        assert(t.take(i - start + 1).drop_last() =~= t.take(i - start));
        assert(t.take(i - start + 1).last() == s@[i as int]);
        assert(digits_value(t.take(i - start + 1)) == acc * 10 + d);
        match acc.checked_mul(10) {
            Some(m) => match m.checked_add(d) {
                Some(v) => {
                    acc = v;
                },
                None => {
                    proof { lemma_digits_grow(t, i - start + 1); }
                    return None;
                },
            },
            None => {
                proof {
                    lemma_digits_grow(t, i - start + 1);
                    assert(d >= 0);
                }
                return None;
            },
        }
        i = i + 1;
    }
    assert(t.take(t.len() as int) =~= t);
    Some(acc)
}

/// Idle seconds from the output of `xprintidle` (milliseconds): `None` when the output
/// is not a number.
pub fn idle_from_xprintidle(output: &str) -> (r: Option<u64>)
    ensures
        r == match parsed_u64(trim(output@)) {
            Some(ms) => Some((ms / 1000) as u64),
            None => None,
        },
{
    let t = trimmed(&chars_of(output));
    match parse_u64(&t) {
        Some(ms) => Some(ms / 1000),
        None => None,
    }
}

/// The pieces of `s` between white space characters (empty pieces included).
pub open spec fn split_white(s: Seq<char>) -> Seq<Seq<char>>
    decreases s.len(),
{
    if s.len() == 0 {
        seq![Seq::empty()]
    } else {
        let rest = split_white(s.drop_last());
        if is_white(s.last()) {
            rest.push(Seq::empty())
        } else {
            rest.update(rest.len() - 1, rest.last().push(s.last()))
        }
    }
}

proof fn lemma_split_white_nonempty(s: Seq<char>)
    ensures
        split_white(s).len() >= 1,
    decreases s.len(),
{
    if s.len() > 0 {
        lemma_split_white_nonempty(s.drop_last());
    }
}

/// The value of the last piece that is a `u64`.
pub open spec fn last_number(pieces: Seq<Seq<char>>) -> Option<u64>
    decreases pieces.len(),
{
    if pieces.len() == 0 {
        None
    } else if parsed_u64(pieces.last()) is Some {
        parsed_u64(pieces.last())
    } else {
        last_number(pieces.drop_last())
    }
}

fn split_at_white(s: &Vec<char>) -> (r: Vec<Vec<char>>)
    ensures
        crate::text::views(r@) == split_white(s@),
{
    let mut pieces: Vec<Vec<char>> = Vec::new();
    let mut cur: Vec<char> = Vec::new();
    let mut i: usize = 0;
    assert(s@.take(0) =~= Seq::<char>::empty());
    assert(crate::text::views(pieces@).push(cur@) =~= split_white(s@.take(0)));
    while i < s.len()
        invariant
            i <= s.len(),
            crate::text::views(pieces@).push(cur@) == split_white(s@.take(i as int)),
        decreases s.len() - i,
    {
        let c = s[i];
        let ghost pre = s@.take(i as int);
        assert(s@.take(i + 1).drop_last() =~= pre);
        assert(s@.take(i + 1).last() == c);
        proof { lemma_split_white_nonempty(pre); }
        if white(c) {
            let done = cur;
            pieces.push(done);
            cur = Vec::new();
            assert(crate::text::views(pieces@).push(cur@) =~= split_white(pre).push(Seq::empty()));
        } else {
            cur.push(c);
            assert(crate::text::views(pieces@).push(cur@) =~= split_white(pre).update(
                split_white(pre).len() - 1,
                split_white(pre).last().push(c),
            ));
        }
        i = i + 1;
    }
    assert(s@.take(s.len() as int) =~= s@);
    pieces.push(cur);
    pieces
}

/// Idle seconds from the reply of the screensaver's `GetSessionIdleTime`
/// (milliseconds): the last word of the reply that is a number.
pub fn idle_from_dbus_reply(output: &str) -> (r: Option<u64>)
    ensures
        r == match last_number(split_white(output@)) {
            Some(ms) => Some((ms / 1000) as u64),
            None => None,
        },
{
    let words = split_at_white(&chars_of(output));
    let ghost ws = crate::text::views(words@);
    let mut i: usize = words.len();
    assert(ws.take(i as int) =~= ws);
    while i > 0
        invariant
            i <= words.len(),
            ws == crate::text::views(words@),
            ws == split_white(output@),
            last_number(ws) == last_number(ws.take(i as int)),
        decreases i,
    {
        assert(ws.take(i as int).drop_last() =~= ws.take(i - 1));
        assert(ws.take(i as int).last() == words@[i - 1]@);
        match parse_u64(&words[i - 1]) {
            Some(ms) => {
                return Some(ms / 1000);
            },
            None => {},
        }
        i = i - 1;
    }
    None
}

/// Idle seconds from Windows tick counts (milliseconds since boot): none when the
/// last input seems to lie in the future.
pub fn idle_from_ticks(now: u32, last_input: u32) -> (r: u64)
    ensures
        r == if now < last_input { 0 } else { ((now - last_input) / 1000) as u64 },
{
    if now < last_input {
        0
    } else {
        ((now - last_input) / 1000) as u64
    }
}

} // verus!
