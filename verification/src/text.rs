//! Text primitives shared by the rest of the library: white space,
//! trimming, the splitting of lists and the dropping of repeats, each with
//! its meaning stated over sequences of characters.
use vstd::prelude::*;

verus! {

/// The characters of a text that may be absent.
pub open spec fn text_of(s: Option<String>) -> Option<Seq<char>> {
    match s {
        Some(t) => Some(t@),
        None => None,
    }
}

/// The code points that carry the Unicode `White_Space` property.
pub open spec fn white_space(c: char) -> bool {
    let n = c as u32;
    ||| 0x09 <= n <= 0x0D
    ||| n == 0x20
    ||| n == 0x85
    ||| n == 0xA0
    ||| n == 0x1680
    ||| 0x2000 <= n <= 0x200A
    ||| n == 0x2028
    ||| n == 0x2029
    ||| n == 0x202F
    ||| n == 0x205F
    ||| n == 0x3000
}

/// `s` without its leading white space.
pub open spec fn trimmed_start(s: Seq<char>) -> Seq<char>
    decreases s.len(),
{
    if s.len() > 0 && white_space(s[0]) {
        trimmed_start(s.drop_first())
    } else {
        s
    }
}

/// `s` without its trailing white space.
pub open spec fn trimmed_end(s: Seq<char>) -> Seq<char>
    decreases s.len(),
{
    if s.len() > 0 && white_space(s.last()) {
        trimmed_end(s.drop_last())
    } else {
        s
    }
}

/// `s` without leading and trailing white space.
pub open spec fn trimmed(s: Seq<char>) -> Seq<char> {
    trimmed_end(trimmed_start(s))
}

/// Skipping a run of white space that ends at the first other character
/// (or at the end) is what `trimmed_start` does.
pub proof fn lemma_trimmed_start_is_skip(s: Seq<char>, a: int)
    requires
        0 <= a <= s.len(),
        forall|i: int| 0 <= i < a ==> white_space(#[trigger] s[i]),
        a == s.len() || !white_space(s[a]),
    ensures
        trimmed_start(s) == s.skip(a),
    decreases a,
{
    if a == 0 {
        assert(s.skip(0) =~= s);
    } else {
        let rest = s.drop_first();
        assert forall|i: int| 0 <= i < a - 1 implies white_space(#[trigger] rest[i]) by {
            assert(rest[i] == s[i + 1]);
        }
        lemma_trimmed_start_is_skip(rest, a - 1);
        assert(rest.skip(a - 1) =~= s.skip(a));
    }
}

/// Dropping a run of white space that begins just after the last other
/// character (or at the start) is what `trimmed_end` does.
pub proof fn lemma_trimmed_end_is_take(s: Seq<char>, b: int)
    requires
        0 <= b <= s.len(),
        forall|i: int| b <= i < s.len() ==> white_space(#[trigger] s[i]),
        b == 0 || !white_space(s[b - 1]),
    ensures
        trimmed_end(s) == s.take(b),
    decreases s.len() - b,
{
    if b == s.len() {
        assert(s.take(b) =~= s);
    } else {
        let rest = s.drop_last();
        lemma_trimmed_end_is_take(rest, b);
        assert(rest.take(b) =~= s.take(b));
    }
}

/// A trimmed text neither begins nor ends with white space.
pub proof fn lemma_trimmed_edges(s: Seq<char>)
    ensures
        trimmed(s).len() > 0 ==> !white_space(trimmed(s)[0]) && !white_space(trimmed(s).last()),
        trimmed(s).len() <= s.len(),
{
    lemma_trimmed_start_edge(s);
    lemma_trimmed_end_edge(trimmed_start(s));
}

/// Trimming a trimmed text changes nothing.
pub proof fn lemma_trimmed_twice(s: Seq<char>)
    ensures
        trimmed(trimmed(s)) == trimmed(s),
{
    let t = trimmed(s);
    lemma_trimmed_edges(s);
    if t.len() > 0 {
        assert(trimmed_start(t) == t);
        assert(trimmed_end(t) == t);
    } else {
        assert(trimmed_start(t) == t);
        assert(trimmed_end(t) == t);
    }
}

proof fn lemma_trimmed_start_edge(s: Seq<char>)
    ensures
        trimmed_start(s).len() <= s.len(),
        trimmed_start(s).len() > 0 ==> !white_space(trimmed_start(s)[0]),
        exists|a: int| 0 <= a <= s.len() && trimmed_start(s) == #[trigger] s.skip(a),
    decreases s.len(),
{
    if s.len() > 0 && white_space(s[0]) {
        let rest = s.drop_first();
        lemma_trimmed_start_edge(rest);
        let a = choose|a: int| 0 <= a <= rest.len() && trimmed_start(rest) == #[trigger] rest.skip(a);
        assert(rest.skip(a) =~= s.skip(a + 1));
    } else {
        assert(s.skip(0) =~= s);
    }
}

proof fn lemma_trimmed_end_edge(s: Seq<char>)
    ensures
        trimmed_end(s).len() <= s.len(),
        trimmed_end(s).len() > 0 ==> !white_space(trimmed_end(s).last()),
        trimmed_end(s).len() > 0 ==> trimmed_end(s)[0] == s[0],
    decreases s.len(),
{
    if s.len() > 0 && white_space(s.last()) {
        lemma_trimmed_end_edge(s.drop_last());
    }
}

/// `char::is_whitespace`.
pub fn is_whitespace(c: char) -> (r: bool)
    ensures
        r == white_space(c),
{
    let n: u32 = c as u32;
    (0x09 <= n && n <= 0x0D) || n == 0x20 || n == 0x85 || n == 0xA0 || n == 0x1680 || (0x2000 <= n
        && n <= 0x200A) || n == 0x2028 || n == 0x2029 || n == 0x202F || n == 0x205F || n == 0x3000
}

/// The characters of a string slice, in order.
pub fn chars_of(s: &str) -> (r: Vec<char>)
    ensures
        r@ == s@,
{
    let mut out: Vec<char> = Vec::new();
    for c in it: s.chars()
        invariant
            it.seq() == s@,
            out@ == s@.take(it.index() as int),
    {
        out.push(c);
    }
    out
}

/// `String::push`: appends one character to the end of the string.
#[verifier::external_body]
pub(crate) fn push_char(s: &mut String, c: char)
    ensures
        final(s)@ == old(s)@.push(c),
{
    s.push(c)
}

/// The text made of `chars[from..to]`.
pub fn string_from(chars: &Vec<char>, from: usize, to: usize) -> (r: String)
    requires
        from <= to <= chars.len(),
    ensures
        r@ == chars@.subrange(from as int, to as int),
{
    let mut out = String::new();
    let mut i: usize = from;
    while i < to
        invariant
            from <= i <= to <= chars.len(),
            out@ == chars@.subrange(from as int, i as int),
        decreases to - i,
    {
        push_char(&mut out, chars[i]);
        i += 1;
        assert(out@ =~= chars@.subrange(from as int, i as int));
    }
    out
}

/// Where the trimmed form of `chars[from..to]` begins and ends.
pub fn trim_bounds(chars: &Vec<char>, from: usize, to: usize) -> (r: (usize, usize))
    requires
        from <= to <= chars.len(),
    ensures
        from <= r.0 <= r.1 <= to,
        chars@.subrange(r.0 as int, r.1 as int) == trimmed(chars@.subrange(from as int, to as int)),
{
    let ghost whole = chars@.subrange(from as int, to as int);
    let mut a: usize = from;
    while a < to && is_whitespace(chars[a])
        invariant
            from <= a <= to <= chars.len(),
            whole == chars@.subrange(from as int, to as int),
            forall|i: int| 0 <= i < a - from ==> white_space(#[trigger] whole[i]),
        decreases to - a,
    {
        a += 1;
    }
    let ghost front = whole.skip(a - from);
    proof {
        lemma_trimmed_start_is_skip(whole, a - from);
    }
    let mut b: usize = to;
    while b > a && is_whitespace(chars[b - 1])
        invariant
            from <= a <= b <= to <= chars.len(),
            whole == chars@.subrange(from as int, to as int),
            front == whole.skip(a - from),
            forall|i: int| b - a <= i < front.len() ==> white_space(#[trigger] front[i]),
        decreases b - a,
    {
        b -= 1;
    }
    proof {
        lemma_trimmed_end_is_take(front, b - a);
        assert(front.take(b - a) =~= chars@.subrange(a as int, b as int));
    }
    (a, b)
}

/// `str::trim`, as an owned text.
pub fn trim(s: &str) -> (r: String)
    ensures
        r@ == trimmed(s@),
{
    let chars = chars_of(s);
    let (a, b) = trim_bounds(&chars, 0, chars.len());
    assert(chars@.subrange(0, chars.len() as int) =~= s@);
    string_from(&chars, a, b)
}

/// Whether two texts hold the same characters.
pub fn same_text(a: &str, b: &str) -> (r: bool)
    ensures
        r == (a@ == b@),
{
    let x = chars_of(a);
    let y = chars_of(b);
    if x.len() != y.len() {
        return false;
    }
    let mut i: usize = 0;
    while i < x.len()
        invariant
            x@ == a@,
            y@ == b@,
            x.len() == y.len(),
            i <= x.len(),
            x@.take(i as int) == y@.take(i as int),
        decreases x.len() - i,
    {
        if x[i] != y[i] {
            return false;
        }
        i += 1;
        assert(x@.take(i as int) =~= x@.take(i - 1).push(x@[i - 1]));
        assert(y@.take(i as int) =~= y@.take(i - 1).push(y@[i - 1]));
    }
    assert(x@.take(i as int) =~= x@);
    assert(y@.take(i as int) =~= y@);
    true
}

/// The characters that part the items of a list: comma, semicolon and
/// white space.
pub open spec fn list_separator(c: char) -> bool {
    c == ',' || c == ';' || white_space(c)
}

/// How many characters at the start of `s` stand before the first separator.
pub open spec fn item_length(s: Seq<char>) -> nat
    decreases s.len(),
{
    if s.len() == 0 || list_separator(s[0]) {
        0
    } else {
        1 + item_length(s.drop_first())
    }
}

/// The first item ends within the text and holds no separator.
pub proof fn lemma_item_run(s: Seq<char>)
    ensures
        item_length(s) <= s.len(),
        forall|i: int| 0 <= i < item_length(s) ==> !list_separator(#[trigger] s[i]),
    decreases s.len(),
{
    if s.len() == 0 || list_separator(s[0]) {
    } else {
        let rest = s.drop_first();
        lemma_item_run(rest);
        assert forall|i: int| 0 <= i < item_length(s) implies !list_separator(
            #[trigger] s[i],
        ) by {
            if i > 0 {
                assert(s[i] == rest[i - 1]);
            }
        }
    }
}

/// The items of a list: the longest runs of characters that hold no
/// separator, in the order in which they stand.
pub open spec fn list_items(s: Seq<char>) -> Seq<Seq<char>>
    decreases s.len(),
{
    if s.len() == 0 {
        Seq::empty()
    } else if list_separator(s[0]) {
        list_items(s.drop_first())
    } else {
        let n = item_length(s);
        proof {
            lemma_item_run(s);
        }
        seq![s.take(n as int)] + list_items(s.skip(n as int))
    }
}

/// A run of `n` characters without a separator, ended by a separator or by
/// the end of the text, is the first item.
pub proof fn lemma_item_length(s: Seq<char>, n: int)
    requires
        0 <= n <= s.len(),
        forall|i: int| 0 <= i < n ==> !list_separator(#[trigger] s[i]),
        n == s.len() || list_separator(s[n]),
    ensures
        item_length(s) == n,
    decreases n,
{
    if n > 0 {
        let rest = s.drop_first();
        assert forall|i: int| 0 <= i < n - 1 implies !list_separator(#[trigger] rest[i]) by {
            assert(rest[i] == s[i + 1]);
        }
        lemma_item_length(rest, n - 1);
    }
}

/// A text that is not empty and holds no separator.
pub open spec fn plain_item(item: Seq<char>) -> bool {
    item.len() > 0 && forall|i: int| 0 <= i < item.len() ==> !list_separator(#[trigger] item[i])
}

/// No item of a list is empty, and none holds a separator.
pub proof fn lemma_list_items_plain(s: Seq<char>)
    ensures
        forall|k: int| 0 <= k < list_items(s).len() ==> plain_item(#[trigger] list_items(s)[k]),
    decreases s.len(),
{
    if s.len() == 0 {
        assert(list_items(s).len() == 0);
    } else if list_separator(s[0]) {
        lemma_list_items_plain(s.drop_first());
        assert(list_items(s) == list_items(s.drop_first()));
    } else {
        let n = item_length(s);
        let tail = list_items(s.skip(n as int));
        lemma_item_run(s);
        assert(list_items(s) == seq![s.take(n as int)] + tail);
        lemma_list_items_plain(s.skip(n as int));
        assert(plain_item(s.take(n as int)));
        assert forall|k: int| 0 <= k < list_items(s).len() implies plain_item(
            #[trigger] list_items(s)[k],
        ) by {
            if k > 0 {
                assert(list_items(s)[k] == tail[k - 1]);
            }
        }
    }
}

/// Whether a character parts the items of a list.
pub fn is_list_separator(c: char) -> (r: bool)
    ensures
        r == list_separator(c),
{
    c == ',' || c == ';' || is_whitespace(c)
}

/// Splits a text at commas, semicolons and white space and keeps the
/// pieces that are not empty.
pub fn split_items(raw: &str) -> (r: Vec<String>)
    ensures
        r.deep_view() == list_items(raw@),
{
    let chars = chars_of(raw);
    let mut out: Vec<String> = Vec::new();
    let mut i: usize = 0;
    assert(chars@.skip(0) =~= raw@);
    assert(out.deep_view() =~= Seq::<Seq<char>>::empty());
    while i < chars.len()
        invariant
            i <= chars.len(),
            chars@ == raw@,
            list_items(raw@) == out.deep_view() + list_items(chars@.skip(i as int)),
        decreases chars.len() - i,
    {
        let ghost rest = chars@.skip(i as int);
        if is_list_separator(chars[i]) {
            i += 1;
            assert(rest.drop_first() =~= chars@.skip(i as int));
        } else {
            let start: usize = i;
            while i < chars.len() && !is_list_separator(chars[i])
                invariant
                    start <= i <= chars.len(),
                    rest == chars@.skip(start as int),
                    forall|k: int| 0 <= k < i - start ==> !list_separator(#[trigger] rest[k]),
                decreases chars.len() - i,
            {
                i += 1;
            }
            let item = string_from(&chars, start, i);
            proof {
                lemma_item_length(rest, i - start);
                assert(rest.take(i - start) =~= item@);
                assert(rest.skip(i - start) =~= chars@.skip(i as int));
                assert(out.deep_view().push(item@) + list_items(chars@.skip(i as int))
                    =~= out.deep_view() + list_items(rest));
            }
            let ghost before = out.deep_view();
            out.push(item);
            assert(out.deep_view() =~= before.push(item@));
        }
    }
    assert(chars@.skip(i as int) =~= Seq::<char>::empty());
    assert(out.deep_view() + Seq::<Seq<char>>::empty() =~= out.deep_view());
    out
}

/// Names the text that `str::to_lowercase` returns for a text.
pub uninterp spec fn lowercased(s: Seq<char>) -> Seq<char>;

/// `str::to_lowercase`: the lowercase equivalent of the text, by the
/// Unicode rules that std applies. The contract only names the result.
#[verifier::external_body]
pub(crate) fn to_lowercase(s: &str) -> (r: String)
    ensures
        r@ == lowercased(s@),
{
    s.to_lowercase()
}

/// The texts of `s` in order, each kept where it first stands.
pub open spec fn first_occurrences(s: Seq<Seq<char>>) -> Seq<Seq<char>>
    decreases s.len(),
{
    if s.len() == 0 {
        Seq::empty()
    } else {
        let head = first_occurrences(s.drop_last());
        if head.contains(s.last()) {
            head
        } else {
            head.push(s.last())
        }
    }
}

/// `first_occurrences` keeps exactly the texts that occur, and none twice.
pub proof fn lemma_first_occurrences(s: Seq<Seq<char>>)
    ensures
        first_occurrences(s).no_duplicates(),
        forall|x: Seq<char>| first_occurrences(s).contains(x) <==> s.contains(x),
        first_occurrences(s).len() <= s.len(),
        s.len() > 0 ==> first_occurrences(s).len() > 0 && first_occurrences(s)[0] == s[0],
    decreases s.len(),
{
    if s.len() > 0 {
        let init = s.drop_last();
        let head = first_occurrences(init);
        lemma_first_occurrences(init);
        assert forall|x: Seq<char>| first_occurrences(s).contains(x) <==> s.contains(x) by {
            if s.contains(x) {
                let i = choose|i: int| 0 <= i < s.len() && s[i] == x;
                if i < s.len() - 1 {
                    assert(init[i] == x);
                    assert(init.contains(x));
                    assert(head.contains(x));
                    let j = choose|j: int| 0 <= j < head.len() && head[j] == x;
                    assert(first_occurrences(s)[j] == x);
                } else if !head.contains(s.last()) {
                    assert(first_occurrences(s)[head.len() as int] == x);
                } else {
                    let j = choose|j: int| 0 <= j < head.len() && head[j] == x;
                    assert(first_occurrences(s)[j] == x);
                }
            }
            if first_occurrences(s).contains(x) {
                let j = choose|j: int|
                    0 <= j < first_occurrences(s).len() && first_occurrences(s)[j] == x;
                if j < head.len() {
                    assert(head[j] == x);
                    assert(head.contains(x));
                    assert(init.contains(x));
                    let i = choose|i: int| 0 <= i < init.len() && init[i] == x;
                    assert(s[i] == x);
                } else {
                    assert(s[s.len() - 1] == x);
                }
            }
        }
        if init.len() == 0 {
            assert(!head.contains(s.last()));
        } else {
            assert(init[0] == s[0]);
        }
    }
}

/// Drops every text that stood earlier in the list.
pub fn dedup_texts(items: &Vec<String>) -> (r: Vec<String>)
    ensures
        r.deep_view() == first_occurrences(items.deep_view()),
{
    let mut out: Vec<String> = Vec::new();
    let mut i: usize = 0;
    assert(items.deep_view().take(0) =~= Seq::<Seq<char>>::empty());
    assert(out.deep_view() =~= Seq::<Seq<char>>::empty());
    while i < items.len()
        invariant
            i <= items.len(),
            out.deep_view() == first_occurrences(items.deep_view().take(i as int)),
        decreases items.len() - i,
    {
        let ghost texts = items.deep_view();
        let ghost head = out.deep_view();
        let mut seen = false;
        let mut j: usize = 0;
        while j < out.len() && !seen
            invariant
                j <= out.len(),
                i < items.len(),
                head == out.deep_view(),
                seen ==> head.contains(items[i as int]@),
                !seen ==> forall|k: int| 0 <= k < j ==> head[k] != items[i as int]@,
            decreases out.len() - j + (if seen { 0int } else { 1int }),
        {
            if out[j] == items[i] {
                assert(head[j as int] == items[i as int]@);
                seen = true;
            } else {
                j += 1;
            }
        }
        proof {
            assert(texts.take(i + 1).drop_last() =~= texts.take(i as int));
            assert(texts.take(i + 1).last() == items[i as int]@);
        }
        if !seen {
            out.push(items[i].clone());
            assert(out.deep_view() =~= head.push(items[i as int]@));
        }
        i += 1;
    }
    assert(items.deep_view().take(i as int) =~= items.deep_view());
    out
}

/// The trimmed forms of the lines that hold more than white space.
pub open spec fn nonblank_lines(lines: Seq<Seq<char>>) -> Seq<Seq<char>>
    decreases lines.len(),
{
    if lines.len() == 0 {
        Seq::empty()
    } else {
        let head = nonblank_lines(lines.drop_last());
        let t = trimmed(lines.last());
        if t.len() == 0 {
            head
        } else {
            head.push(t)
        }
    }
}

/// Trims every line and drops those that are left empty.
pub fn trimmed_nonblank(lines: &Vec<String>) -> (r: Vec<String>)
    ensures
        r.deep_view() == nonblank_lines(lines.deep_view()),
{
    let mut out: Vec<String> = Vec::new();
    let mut i: usize = 0;
    assert(lines.deep_view().take(0) =~= Seq::<Seq<char>>::empty());
    assert(out.deep_view() =~= Seq::<Seq<char>>::empty());
    while i < lines.len()
        invariant
            i <= lines.len(),
            out.deep_view() == nonblank_lines(lines.deep_view().take(i as int)),
        decreases lines.len() - i,
    {
        let ghost texts = lines.deep_view();
        let ghost head = out.deep_view();
        let t = trim(lines[i].as_str());
        proof {
            assert(texts.take(i + 1).drop_last() =~= texts.take(i as int));
            assert(texts.take(i + 1).last() == lines[i as int]@);
        }
        if !t.as_str().is_empty() {
            let ghost tv = t@;
            out.push(t);
            assert(out.deep_view() =~= head.push(tv));
        }
        i += 1;
    }
    assert(lines.deep_view().take(i as int) =~= lines.deep_view());
    out
}

} // verus!
