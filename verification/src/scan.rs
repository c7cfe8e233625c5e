//! Searching in texts: prefixes, the first place of a character, lines.
use vstd::prelude::*;
use crate::text::{chars_of, is_whitespace, string_from, white_space};

verus! {

/// Whether `s` begins with `p`.
pub open spec fn has_prefix(s: Seq<char>, p: Seq<char>) -> bool {
    p.len() <= s.len() && s.take(p.len() as int) == p
}

/// Whether the text from `chars[from]` on begins with `prefix`.
pub fn starts_with(chars: &Vec<char>, from: usize, prefix: &str) -> (r: bool)
    requires
        from <= chars.len(),
    ensures
        r == has_prefix(chars@.skip(from as int), prefix@),
{
    let p = chars_of(prefix);
    let ghost rest = chars@.skip(from as int);
    if p.len() > chars.len() - from {
        return false;
    }
    let mut i: usize = 0;
    while i < p.len()
        invariant
            i <= p.len(),
            p@ == prefix@,
            from <= chars.len(),
            p.len() <= chars.len() - from,
            rest == chars@.skip(from as int),
            rest.take(i as int) == p@.take(i as int),
        decreases p.len() - i,
    {
        if chars[from + i] != p[i] {
            assert(rest.take(p.len() as int)[i as int] != p@[i as int]);
            return false;
        }
        i += 1;
        assert(rest.take(i as int) =~= rest.take(i - 1).push(rest[i - 1]));
        assert(p@.take(i as int) =~= p@.take(i - 1).push(p@[i - 1]));
    }
    assert(p@.take(i as int) =~= p@);
    true
}

/// Whether a text begins with `prefix`.
pub fn text_starts_with(s: &str, prefix: &str) -> (r: bool)
    ensures
        r == has_prefix(s@, prefix@),
{
    let chars = chars_of(s);
    assert(chars@.skip(0) =~= s@);
    starts_with(&chars, 0, prefix)
}

/// `s` with every leading repetition of `p` taken off.
pub open spec fn without_prefixes(s: Seq<char>, p: Seq<char>) -> Seq<char>
    decreases s.len(),
{
    if p.len() > 0 && has_prefix(s, p) {
        without_prefixes(s.skip(p.len() as int), p)
    } else {
        s
    }
}

/// Where the text `chars[from..]` stands once every leading repetition of
/// `prefix` is taken off.
pub fn skip_prefixes(chars: &Vec<char>, from: usize, prefix: &str) -> (r: usize)
    requires
        from <= chars.len(),
    ensures
        from <= r <= chars.len(),
        chars@.skip(r as int) == without_prefixes(chars@.skip(from as int), prefix@),
{
    let n = prefix.unicode_len();
    if n == 0 {
        return from;
    }
    let mut at: usize = from;
    while starts_with(chars, at, prefix)
        invariant
            from <= at <= chars.len(),
            n == prefix@.len(),
            n > 0,
            without_prefixes(chars@.skip(at as int), prefix@) == without_prefixes(
                chars@.skip(from as int),
                prefix@,
            ),
        decreases chars.len() - at,
    {
        assert(chars@.skip(at as int).skip(n as int) =~= chars@.skip(at + n));
        at = at + n;
    }
    at
}

/// The place of the first `c` in `s`, and the length of `s` where it holds
/// none.
pub open spec fn index_of(s: Seq<char>, c: char) -> int
    decreases s.len(),
{
    if s.len() == 0 || s[0] == c {
        0
    } else {
        1 + index_of(s.drop_first(), c)
    }
}

/// `index_of` gives a place within the text before which no `c` stands,
/// and at which one stands unless it is the end.
pub proof fn lemma_index_of(s: Seq<char>, c: char)
    ensures
        0 <= index_of(s, c) <= s.len(),
        forall|i: int| 0 <= i < index_of(s, c) ==> #[trigger] s[i] != c,
        index_of(s, c) < s.len() ==> s[index_of(s, c)] == c,
    decreases s.len(),
{
    if s.len() == 0 || s[0] == c {
    } else {
        let rest = s.drop_first();
        lemma_index_of(rest, c);
        assert forall|i: int| 0 <= i < index_of(s, c) implies #[trigger] s[i] != c by {
            if i > 0 {
                assert(s[i] == rest[i - 1]);
            }
        }
    }
}

/// A place before which no `c` stands and at which one stands, or the end,
/// is what `index_of` gives.
pub proof fn lemma_index_of_is(s: Seq<char>, c: char, n: int)
    requires
        0 <= n <= s.len(),
        forall|i: int| 0 <= i < n ==> #[trigger] s[i] != c,
        n == s.len() || s[n] == c,
    ensures
        index_of(s, c) == n,
    decreases n,
{
    if n > 0 {
        let rest = s.drop_first();
        assert forall|i: int| 0 <= i < n - 1 implies #[trigger] rest[i] != c by {
            assert(rest[i] == s[i + 1]);
        }
        lemma_index_of_is(rest, c, n - 1);
    }
}

/// The place of the first `c` in `chars[from..to]`, counted in `chars`;
/// `to` where there is none.
pub fn find_char(chars: &Vec<char>, from: usize, to: usize, c: char) -> (r: usize)
    requires
        from <= to <= chars.len(),
    ensures
        from <= r <= to,
        r - from == index_of(chars@.subrange(from as int, to as int), c),
{
    let ghost part = chars@.subrange(from as int, to as int);
    let mut i: usize = from;
    while i < to && chars[i] != c
        invariant
            from <= i <= to <= chars.len(),
            part == chars@.subrange(from as int, to as int),
            forall|k: int| 0 <= k < i - from ==> #[trigger] part[k] != c,
        decreases to - i,
    {
        i += 1;
    }
    proof {
        lemma_index_of_is(part, c, i - from);
    }
    i
}

/// The parts of `s` before and after its first `c`; `None` where it holds
/// none.
pub open spec fn split_at_first(s: Seq<char>, c: char) -> Option<(Seq<char>, Seq<char>)> {
    let i = index_of(s, c);
    if i < s.len() {
        Some((s.take(i), s.skip(i + 1)))
    } else {
        None
    }
}

/// A pair of texts that may be absent, by its characters.
pub open spec fn pair_of(r: Option<(String, String)>) -> Option<(Seq<char>, Seq<char>)> {
    match r {
        Some((a, b)) => Some((a@, b@)),
        None => None,
    }
}

/// `str::split_once` at a character.
pub fn split_once(s: &str, c: char) -> (r: Option<(String, String)>)
    ensures
        pair_of(r) == split_at_first(s@, c),
{
    let chars = chars_of(s);
    assert(chars@.subrange(0, chars.len() as int) =~= s@);
    let i = find_char(&chars, 0, chars.len(), c);
    if i < chars.len() {
        let head = string_from(&chars, 0, i);
        let tail = string_from(&chars, i + 1, chars.len());
        assert(chars@.subrange(0, i as int) =~= s@.take(i as int));
        assert(chars@.subrange(i + 1, chars.len() as int) =~= s@.skip(i + 1));
        Some((head, tail))
    } else {
        None
    }
}

/// A line without the carriage return that ended it.
pub open spec fn without_cr(line: Seq<char>) -> Seq<char> {
    if line.len() > 0 && line.last() == '\r' {
        line.drop_last()
    } else {
        line
    }
}

/// The lines of a text. A line ends at a line feed, or at a carriage
/// return and a line feed; neither belongs to the line. What follows the
/// last line feed is a line too, unless it is empty.
pub open spec fn text_lines(s: Seq<char>) -> Seq<Seq<char>>
    decreases s.len(),
{
    if s.len() == 0 {
        Seq::empty()
    } else {
        let n = index_of(s, '\n');
        if 0 <= n < s.len() {
            seq![without_cr(s.take(n))] + text_lines(s.skip(n + 1))
        } else {
            seq![s]
        }
    }
}

/// `str::lines`, each line as an owned text.
pub fn lines_of(s: &str) -> (r: Vec<String>)
    ensures
        r.deep_view() == text_lines(s@),
{
    let chars = chars_of(s);
    let mut out: Vec<String> = Vec::new();
    let mut at: usize = 0;
    assert(chars@.skip(0) =~= s@);
    assert(out.deep_view() =~= Seq::<Seq<char>>::empty());
    while at < chars.len()
        invariant
            at <= chars.len(),
            chars@ == s@,
            text_lines(s@) == out.deep_view() + text_lines(chars@.skip(at as int)),
        decreases chars.len() - at,
    {
        let ghost rest = chars@.skip(at as int);
        let ghost before = out.deep_view();
        assert(chars@.subrange(at as int, chars.len() as int) =~= rest);
        let end = find_char(&chars, at, chars.len(), '\n');
        if end < chars.len() {
            let stop: usize = if end > at && chars[end - 1] == '\r' {
                end - 1
            } else {
                end
            };
            let line = string_from(&chars, at, stop);
            proof {
                assert(rest.take(end - at) =~= chars@.subrange(at as int, end as int));
                assert(line@ =~= without_cr(rest.take(end - at)));
                assert(rest.skip(end - at + 1) =~= chars@.skip(end + 1));
            }
            let ghost first = line@;
            out.push(line);
            at = end + 1;
            proof {
                assert(out.deep_view() =~= before.push(first));
                assert(before.push(first) + text_lines(chars@.skip(at as int)) =~= before + (
                seq![first] + text_lines(chars@.skip(at as int))));
            }
        } else {
            let line = string_from(&chars, at, chars.len());
            assert(line@ =~= rest);
            out.push(line);
            at = chars.len();
            proof {
                assert(out.deep_view() =~= before.push(rest));
                assert(chars@.skip(at as int) =~= Seq::<char>::empty());
                assert(before.push(rest) + Seq::<Seq<char>>::empty() =~= before + seq![rest]);
            }
        }
    }
    assert(chars@.skip(at as int) =~= Seq::<char>::empty());
    assert(out.deep_view() + Seq::<Seq<char>>::empty() =~= out.deep_view());
    out
}

/// `s` without its white space.
pub open spec fn without_space(s: Seq<char>) -> Seq<char>
    decreases s.len(),
{
    if s.len() == 0 {
        Seq::empty()
    } else if white_space(s.last()) {
        without_space(s.drop_last())
    } else {
        without_space(s.drop_last()).push(s.last())
    }
}

/// The text without its white space.
pub fn strip_space(s: &str) -> (r: String)
    ensures
        r@ == without_space(s@),
{
    let chars = chars_of(s);
    let mut kept: Vec<char> = Vec::new();
    let mut i: usize = 0;
    assert(chars@.take(0) =~= Seq::<char>::empty());
    while i < chars.len()
        invariant
            i <= chars.len(),
            kept@ == without_space(chars@.take(i as int)),
        decreases chars.len() - i,
    {
        assert(chars@.take(i + 1).drop_last() =~= chars@.take(i as int));
        if !is_whitespace(chars[i]) {
            kept.push(chars[i]);
        }
        i += 1;
    }
    assert(chars@.take(i as int) =~= chars@);
    let out = string_from(&kept, 0, kept.len());
    assert(kept@.subrange(0, kept.len() as int) =~= kept@);
    out
}

} // verus!
