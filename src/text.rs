//! Splitting command output into lines and fields, and matching regular
//! expressions against it.
use vstd::prelude::*;
use vstd::slice::slice_subrange;

use crate::location::{string_option_view, strings_view};

verus! {

/// The pieces of `s` between occurrences of `c` (at least one piece).
pub open spec fn split_char(s: Seq<char>, c: char) -> Seq<Seq<char>>
    decreases s.len(),
{
    if s.len() == 0 {
        seq![Seq::empty()]
    } else {
        let init = split_char(s.drop_last(), c);
        if s.last() == c {
            init.push(Seq::empty())
        } else {
            init.update(init.len() - 1, init.last().push(s.last()))
        }
    }
}

/// `s` without one trailing carriage return.
pub open spec fn strip_cr(s: Seq<char>) -> Seq<char> {
    if s.len() > 0 && s.last() == '\r' {
        s.drop_last()
    } else {
        s
    }
}

/// The lines of `s`: ended by `\n` or `\r\n`; the last line needs no ending,
/// and an empty text has no line.
pub open spec fn lines_of(s: Seq<char>) -> Seq<Seq<char>> {
    let pieces = split_char(s, '\n');
    let ended = pieces.drop_last().map_values(|l: Seq<char>| strip_cr(l));
    if pieces.last().len() == 0 {
        ended
    } else {
        ended.push(pieces.last())
    }
}

/// `i` is the first position of `c` in `s`.
pub open spec fn first_at(s: Seq<char>, c: char, i: int) -> bool {
    0 <= i < s.len() && s[i] == c && forall|j: int| 0 <= j < i ==> s[j] != c
}

/// `s` cut at the first `c`: what stands before it and after it.
pub open spec fn split_once_char(s: Seq<char>, c: char) -> Option<(Seq<char>, Seq<char>)> {
    if exists|i: int| first_at(s, c, i) {
        let i = choose|i: int| first_at(s, c, i);
        Some((s.take(i), s.skip(i + 1)))
    } else {
        None
    }
}

proof fn lemma_split_char_nonempty(s: Seq<char>, c: char)
    ensures
        split_char(s, c).len() >= 1,
    decreases s.len(),
{
    if s.len() > 0 {
        lemma_split_char_nonempty(s.drop_last(), c);
    }
}

/// Relies on `str::chars`: the characters of the text, in order.
#[verifier::external_body]
fn chars_of(s: &str) -> (r: Vec<char>)
    ensures
        r@ == s@,
{
    s.chars().collect()
}

/// Relies on `String`'s `FromIterator<char>`: the string of these characters.
#[verifier::external_body]
fn string_of(cs: &[char]) -> (r: String)
    ensures
        r@ == cs@,
{
    cs.iter().collect()
}

/// The characters `from..to` of `cs`, as a string.
fn piece(cs: &Vec<char>, from: usize, to: usize) -> (r: String)
    requires
        from <= to <= cs.len(),
    ensures
        r@ == cs@.subrange(from as int, to as int),
{
    string_of(slice_subrange(cs.as_slice(), from, to))
}

/// The pieces of `s` between occurrences of `c`, as `str::split` gives them.
pub fn split(s: &str, c: char) -> (r: Vec<String>)
    ensures
        strings_view(r@) == split_char(s@, c),
{
    let cs = chars_of(s);
    let mut r: Vec<String> = Vec::new();
    let mut start: usize = 0;
    let mut i: usize = 0;
    assert(cs@.take(0) =~= Seq::<char>::empty());
    assert(strings_view(r@).push(cs@.subrange(0, 0)) =~= split_char(cs@.take(0), c));
    while i < cs.len()
        invariant
            start <= i <= cs.len(),
            cs@ == s@,
            strings_view(r@).push(cs@.subrange(start as int, i as int)) == split_char(
                cs@.take(i as int),
                c,
            ),
        decreases cs.len() - i,
    {
        let ghost old_r = r@;
        assert(cs@.take(i + 1).drop_last() =~= cs@.take(i as int));
        assert(cs@.take(i + 1).last() == cs@[i as int]);
        if cs[i] == c {
            let p = piece(&cs, start, i);
            r.push(p);
            assert(strings_view(r@) =~= strings_view(old_r).push(p@));
            start = i + 1;
            assert(cs@.subrange(start as int, i + 1) =~= Seq::<char>::empty());
            assert(strings_view(r@).push(cs@.subrange(start as int, i + 1)) =~= split_char(
                cs@.take(i + 1),
                c,
            ));
        } else {
            assert(cs@.subrange(start as int, i + 1) =~= cs@.subrange(start as int, i as int).push(
                cs@[i as int],
            ));
            assert(strings_view(r@).push(cs@.subrange(start as int, i + 1)) =~= split_char(
                cs@.take(i + 1),
                c,
            ));
        }
        i += 1;
    }
    let last = piece(&cs, start, i);
    r.push(last);
    assert(cs@.take(i as int) =~= s@);
    assert(strings_view(r@) =~= split_char(s@, c));
    r
}

/// The lines of `s`, as `str::lines` gives them.
pub fn lines(s: &str) -> (r: Vec<String>)
    ensures
        strings_view(r@) == lines_of(s@),
{
    let pieces = split(s, '\n');
    proof {
        lemma_split_char_nonempty(s@, '\n');
    }
    let ghost p = split_char(s@, '\n');
    let n = pieces.len() - 1;
    let mut r: Vec<String> = Vec::new();
    let mut i: usize = 0;
    while i < n
        invariant
            n == pieces.len() - 1,
            i <= n,
            strings_view(pieces@) == p,
            strings_view(r@) =~= p.take(i as int).map_values(|l: Seq<char>| strip_cr(l)),
        decreases n - i,
    {
        let cs = chars_of(pieces[i].as_str());
        let line = if cs.len() > 0 && cs[cs.len() - 1] == '\r' {
            piece(&cs, 0, cs.len() - 1)
        } else {
            piece(&cs, 0, cs.len())
        };
        assert(p[i as int] == pieces@[i as int]@);
        assert(line@ =~= strip_cr(p[i as int]));
        let ghost old_r = r@;
        r.push(line);
        assert(strings_view(r@) =~= strings_view(old_r).push(line@));
        assert(p.take(i + 1).map_values(|l: Seq<char>| strip_cr(l)) =~= p.take(i as int).map_values(
            |l: Seq<char>| strip_cr(l),
        ).push(strip_cr(p[i as int])));
        i += 1;
    }
    assert(p.take(n as int) =~= p.drop_last());
    if !pieces[n].as_str().is_empty() {
        let last = pieces[n].clone();
        r.push(last);
    }
    r
}

/// `s` cut at the first `c`, as `str::split_once` gives it.
pub fn split_once(s: &str, c: char) -> (r: Option<(String, String)>)
    ensures
        match r {
            Some((a, b)) => split_once_char(s@, c) == Some((a@, b@)),
            None => split_once_char(s@, c) is None,
        },
{
    let cs = chars_of(s);
    let mut i: usize = 0;
    while i < cs.len()
        invariant
            i <= cs.len(),
            cs@ == s@,
            forall|j: int| 0 <= j < i ==> cs@[j] != c,
        decreases cs.len() - i,
    {
        if cs[i] == c {
            assert(first_at(s@, c, i as int));
            let ghost k = choose|k: int| first_at(s@, c, k);
            assert(k == i as int) by {
                if k < i {
                    assert(cs@[k] != c);
                } else if k > i {
                    assert(s@[i as int] != c);
                }
            }
            let before = piece(&cs, 0, i);
            let after = piece(&cs, i + 1, cs.len());
            assert(before@ =~= s@.take(i as int));
            assert(after@ =~= s@.skip(i + 1));
            return Some((before, after));
        }
        i += 1;
    }
    None
}

/// What `regex` finds of `pattern` in `text`: `None` for an invalid pattern;
/// otherwise, for each successive non-overlapping match, the text of every
/// capture group (group 0 is the whole match; `None` for a group that took no
/// part).
pub uninterp spec fn regex_captures(pattern: Seq<char>, text: Seq<char>) -> Option<
    Seq<Seq<Option<Seq<char>>>>,
>;

pub open spec fn groups_view(g: Vec<Option<String>>) -> Seq<Option<Seq<char>>> {
    g@.map_values(|x: Option<String>| string_option_view(x))
}

pub open spec fn captures_view(v: Vec<Vec<Option<String>>>) -> Seq<Seq<Option<Seq<char>>>> {
    v@.map_values(|g: Vec<Option<String>>| groups_view(g))
}

/// Relies on `regex::Regex::new` (an error for an invalid pattern) and
/// `Regex::captures_iter`: the groups of each successive match, in order.
#[verifier::external_body]
pub(crate) fn captures_all(pattern: &str, text: &str) -> (r: Option<Vec<Vec<Option<String>>>>)
    ensures
        match r {
            Some(v) => regex_captures(pattern@, text@) == Some(captures_view(v)),
            None => regex_captures(pattern@, text@) is None,
        },
{
    match regex::Regex::new(pattern) {
        Ok(re) => Some(
            re.captures_iter(text).map(
                |c| c.iter().map(|g| g.map(|m| m.as_str().to_string())).collect(),
            ).collect(),
        ),
        Err(_) => None,
    }
}

/// What `regex` finds of `pattern` in `text`: `None` for an invalid pattern;
/// otherwise, for each successive non-overlapping match, the text before the
/// match and the matched text.
pub uninterp spec fn regex_matches(pattern: Seq<char>, text: Seq<char>) -> Option<
    Seq<(Seq<char>, Seq<char>)>,
>;

pub open spec fn matches_view(v: Vec<(String, String)>) -> Seq<(Seq<char>, Seq<char>)> {
    v@.map_values(|m: (String, String)| (m.0@, m.1@))
}

/// Relies on `regex::Regex::new` (an error for an invalid pattern) and
/// `Regex::find_iter`: each successive match, with the text before it.
#[verifier::external_body]
pub(crate) fn find_all(pattern: &str, text: &str) -> (r: Option<Vec<(String, String)>>)
    ensures
        match r {
            Some(v) => regex_matches(pattern@, text@) == Some(matches_view(v)),
            None => regex_matches(pattern@, text@) is None,
        },
{
    match regex::Regex::new(pattern) {
        Ok(re) => Some(
            re.find_iter(text).map(
                |m| (text[..m.start()].to_string(), m.as_str().to_string()),
            ).collect(),
        ),
        Err(_) => None,
    }
}

} // verus!
