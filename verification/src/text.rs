//! Text primitives over character sequences: prefixes, splitting at a
//! separator, lines, whitespace trimming, ordering and decimal numerals.
//!
//! Every executable function here is specified against a spec function on
//! `Seq<char>`, the view of `str` and `String`.

use vstd::prelude::*;
use vstd::string::*;

verus! {

/// Whether `prefix` opens `s`.
pub open spec fn is_prefix(prefix: Seq<char>, s: Seq<char>) -> bool {
    prefix.len() <= s.len() && s.subrange(0, prefix.len() as int) == prefix
}

/// Whether `c` occurs in `s`.
pub open spec fn has_char(s: Seq<char>, c: char) -> bool {
    exists|i: int| 0 <= i < s.len() && s[i] == c
}

/// The position of the first `c` in `s`, or the length of `s` when there is none.
pub open spec fn find(s: Seq<char>, c: char) -> nat
    decreases s.len(),
{
    if s.len() == 0 || s[0] == c {
        0
    } else {
        1 + find(s.skip(1), c)
    }
}

/// The pieces of `s` between the occurrences of `sep`. A text with `k`
/// separators has `k + 1` pieces, some of them possibly empty.
pub open spec fn split(s: Seq<char>, sep: char) -> Seq<Seq<char>>
    decreases s.len(),
{
    let i = find(s, sep);
    if i >= s.len() {
        seq![s]
    } else {
        seq![s.take(i as int)] + split(s.skip(i as int + 1), sep)
    }
}

/// `find` returns the one position that holds `c` with no `c` before it.
pub proof fn lemma_find(s: Seq<char>, c: char, m: int)
    requires
        0 <= m <= s.len(),
        forall|k: int| 0 <= k < m ==> s[k] != c,
        m == s.len() || s[m] == c,
    ensures
        find(s, c) == m,
    decreases m,
{
    if m > 0 {
        let rest = s.skip(1);
        assert forall|k: int| 0 <= k < m - 1 implies rest[k] != c by {
            assert(rest[k] == s[k + 1]);
        }
        lemma_find(rest, c, m - 1);
    }
}

/// The result of `find` is a position of `c`, or the length, and nothing before it is `c`.
pub proof fn lemma_find_bounds(s: Seq<char>, c: char)
    ensures
        find(s, c) <= s.len(),
        find(s, c) < s.len() ==> s[find(s, c) as int] == c,
        forall|k: int| 0 <= k < find(s, c) ==> s[k] != c,
    decreases s.len(),
{
    if s.len() == 0 || s[0] == c {
    } else {
        let rest = s.skip(1);
        lemma_find_bounds(rest, c);
        assert forall|k: int| 0 <= k < find(s, c) implies s[k] != c by {
            if k > 0 {
                assert(rest[k - 1] == s[k]);
            }
        }
    }
}

/// No piece of a split holds the separator.
pub proof fn lemma_split_pieces_clean(s: Seq<char>, sep: char)
    ensures
        split(s, sep).len() >= 1,
        forall|k: int| 0 <= k < split(s, sep).len() ==> !has_char(#[trigger] split(s, sep)[k], sep),
    decreases s.len(),
{
    lemma_find_bounds(s, sep);
    let i = find(s, sep);
    if i >= s.len() {
    } else {
        let rest = s.skip(i as int + 1);
        lemma_split_pieces_clean(rest, sep);
        let head = s.take(i as int);
        assert(!has_char(head, sep)) by {
            if has_char(head, sep) {
                let j = choose|j: int| 0 <= j < head.len() && head[j] == sep;
                assert(s[j] == sep);
            }
        }
        assert forall|k: int| 0 <= k < split(s, sep).len() implies !has_char(
            #[trigger] split(s, sep)[k],
            sep,
        ) by {
            if k > 0 {
                assert(split(s, sep)[k] == split(rest, sep)[k - 1]);
            }
        }
    }
}

/// A text without the separator is its own single piece.
pub proof fn lemma_split_whole(s: Seq<char>, sep: char)
    requires
        !has_char(s, sep),
    ensures
        split(s, sep) == seq![s],
{
    assert forall|k: int| 0 <= k < s.len() implies s[k] != sep by {
        if s[k] == sep {
            assert(has_char(s, sep));
        }
    }
    lemma_find(s, sep, s.len() as int);
}

/// The pieces of two texts with a separator between them are the pieces
/// of the first followed by the pieces of the second.
pub proof fn lemma_split_concat(a: Seq<char>, b: Seq<char>, sep: char)
    ensures
        split(a + seq![sep] + b, sep) == split(a, sep) + split(b, sep),
    decreases a.len(),
{
    let all = a + seq![sep] + b;
    lemma_find_bounds(a, sep);
    let i = find(a, sep);
    if i >= a.len() {
        assert forall|k: int| 0 <= k < a.len() implies all[k] != sep by {
            assert(all[k] == a[k]);
        }
        assert(all[a.len() as int] == sep);
        lemma_find(all, sep, a.len() as int);
        assert(all.take(a.len() as int) =~= a);
        assert(all.skip(a.len() as int + 1) =~= b);
        assert(split(a, sep) =~= seq![a]);
    } else {
        assert forall|k: int| 0 <= k < i implies all[k] != sep by {
            assert(all[k] == a[k]);
        }
        assert(all[i as int] == a[i as int]);
        lemma_find(all, sep, i as int);
        let rest = a.skip(i as int + 1);
        lemma_split_concat(rest, b, sep);
        assert(all.take(i as int) =~= a.take(i as int));
        assert(all.skip(i as int + 1) =~= rest + seq![sep] + b);
        assert(split(all, sep) =~= seq![a.take(i as int)] + (split(rest, sep) + split(b, sep)));
        assert(split(a, sep) =~= seq![a.take(i as int)] + split(rest, sep));
    }
}

/// The sub-texts of `s` that the half-open `ranges` select.
pub open spec fn slices(s: Seq<char>, ranges: Seq<(usize, usize)>) -> Seq<Seq<char>> {
    Seq::new(ranges.len(), |k: int| s.subrange(ranges[k].0 as int, ranges[k].1 as int))
}

/// Every range lies inside a text of length `len`.
pub open spec fn ranges_within(ranges: Seq<(usize, usize)>, len: nat) -> bool {
    forall|k: int| 0 <= k < ranges.len() ==> (#[trigger] ranges[k]).0 <= ranges[k].1 <= len
}

/// The characters of `s`, in order.
pub fn chars_of(s: &str) -> (out: Vec<char>)
    ensures
        out@ == s@,
{
    let mut out: Vec<char> = Vec::new();
    for c in it: s.chars()
        invariant
            out@ == it.seq().take(it.index() as int),
    {
        out.push(c);
    }
    out
}

/// Splits `chars` at every `sep`, returning the range of each piece.
pub fn split_ranges(chars: &Vec<char>, sep: char) -> (out: Vec<(usize, usize)>)
    ensures
        ranges_within(out@, chars@.len()),
        slices(chars@, out@) == split(chars@, sep),
{
    let n = chars.len();
    let mut out: Vec<(usize, usize)> = Vec::new();
    let mut start: usize = 0;
    let mut i: usize = 0;
    proof {
        assert(chars@.skip(0) =~= chars@);
        assert(slices(chars@, out@) + split(chars@, sep) =~= split(chars@, sep));
    }
    while i < n
        invariant
            start <= i <= n,
            n == chars@.len(),
            ranges_within(out@, n as nat),
            forall|k: int| start <= k < i ==> chars@[k] != sep,
            split(chars@, sep) == slices(chars@, out@) + split(chars@.skip(start as int), sep),
        decreases n - i,
    {
        if chars[i] == sep {
            proof {
                let tail = chars@.skip(start as int);
                lemma_find(tail, sep, i - start);
                assert(tail.take(i - start) =~= chars@.subrange(start as int, i as int));
                assert(tail.skip(i - start + 1) =~= chars@.skip(i + 1));
                assert(slices(chars@, out@.push((start, i))) =~= slices(chars@, out@)
                    + seq![chars@.subrange(start as int, i as int)]);
            }
            out.push((start, i));
            start = i + 1;
        }
        i += 1;
    }
    proof {
        let tail = chars@.skip(start as int);
        lemma_find(tail, sep, n - start);
        assert(tail =~= chars@.subrange(start as int, n as int));
        assert(slices(chars@, out@.push((start, n))) =~= slices(chars@, out@) + seq![tail]);
    }
    out.push((start, n));
    out
}

/// The text of `s` from character `from` up to, not including, character `to`.
pub(crate) fn slice_of(s: &str, from: usize, to: usize) -> (out: String)
    requires
        from <= to <= s@.len(),
    ensures
        out@ == s@.subrange(from as int, to as int),
{
    s.substring_char(from, to).to_owned()
}

/// Whether `s` begins with `prefix`.
pub fn starts_with(s: &str, prefix: &str) -> (r: bool)
    ensures
        r == is_prefix(prefix@, s@),
{
    let text = chars_of(s);
    let head = chars_of(prefix);
    if head.len() > text.len() {
        return false;
    }
    let mut i: usize = 0;
    while i < head.len()
        invariant
            i <= head@.len() <= text@.len(),
            text@ == s@,
            head@ == prefix@,
            text@.subrange(0, i as int) == head@.subrange(0, i as int),
        decreases head@.len() - i,
    {
        if text[i] != head[i] {
            assert(text@.subrange(0, head@.len() as int)[i as int] != head@[i as int]);
            return false;
        }
        assert(text@.subrange(0, i + 1) =~= text@.subrange(0, i as int).push(text@[i as int]));
        assert(head@.subrange(0, i + 1) =~= head@.subrange(0, i as int).push(head@[i as int]));
        i += 1;
    }
    assert(head@.subrange(0, i as int) =~= head@);
    true
}

/// What follows `prefix` in `s`, when `s` begins with it.
pub fn strip_prefix(s: &str, prefix: &str) -> (r: Option<String>)
    ensures
        is_prefix(prefix@, s@) ==> r is Some && r->0@ == s@.skip(prefix@.len() as int),
        !is_prefix(prefix@, s@) ==> r is None,
{
    if starts_with(s, prefix) {
        let n = s.unicode_len();
        let k = prefix.unicode_len();
        let rest = slice_of(s, k, n);
        assert(s@.subrange(k as int, n as int) =~= s@.skip(k as int));
        Some(rest)
    } else {
        None
    }
}

/// `piece` without one closing carriage return.
pub open spec fn without_cr(piece: Seq<char>) -> Seq<char> {
    if piece.len() > 0 && piece.last() == '\r' {
        piece.drop_last()
    } else {
        piece
    }
}

/// The lines of `s`. A line ends at a line feed, or at a carriage return
/// directly followed by one; the ending is not part of the line. What follows
/// the last line feed is a line of its own unless it is empty.
pub open spec fn lines(s: Seq<char>) -> Seq<Seq<char>> {
    let pieces = split(s, '\n');
    let ended = pieces.drop_last().map_values(|p: Seq<char>| without_cr(p));
    if pieces.last().len() == 0 {
        ended
    } else {
        ended.push(pieces.last())
    }
}

/// The lines of `text`, in order.
pub fn lines_of(text: &str) -> (out: Vec<String>)
    ensures
        out.deep_view() == lines(text@),
{
    let chars = chars_of(text);
    let ranges = split_ranges(&chars, '\n');
    proof {
        lemma_split_pieces_clean(chars@, '\n');
    }
    let ghost pieces = split(chars@, '\n');
    let last = ranges.len() - 1;
    let mut out: Vec<String> = Vec::new();
    let mut k: usize = 0;
    while k < last
        invariant
            k <= last,
            last + 1 == ranges@.len(),
            chars@ == text@,
            ranges_within(ranges@, chars@.len()),
            slices(chars@, ranges@) == pieces,
            out.deep_view() == pieces.take(k as int).map_values(|p: Seq<char>| without_cr(p)),
        decreases last - k,
    {
        let (a, b) = ranges[k];
        assert(pieces[k as int] == chars@.subrange(a as int, b as int));
        let end = if b > a && chars[b - 1] == '\r' {
            b - 1
        } else {
            b
        };
        let line = slice_of(text, a, end);
        assert(line@ =~= without_cr(pieces[k as int]));
        let ghost before = out.deep_view();
        out.push(line);
        assert(out.deep_view() =~= before.push(line@));
        assert(pieces.take(k + 1).map_values(|p: Seq<char>| without_cr(p)) =~= pieces.take(
            k as int,
        ).map_values(|p: Seq<char>| without_cr(p)).push(without_cr(pieces[k as int])));
        k += 1;
    }
    assert(pieces.take(last as int) =~= pieces.drop_last());
    let (a, b) = ranges[last];
    assert(pieces[last as int] == chars@.subrange(a as int, b as int));
    if b > a {
        let line = slice_of(text, a, b);
        let ghost before = out.deep_view();
        out.push(line);
        assert(out.deep_view() =~= before.push(line@));
    }
    out
}

/// The characters with the Unicode property `White_Space`.
pub open spec fn is_whitespace(c: char) -> bool {
    let u = c as u32;
    ||| 0x09 <= u <= 0x0D
    ||| u == 0x20
    ||| u == 0x85
    ||| u == 0xA0
    ||| u == 0x1680
    ||| 0x2000 <= u <= 0x200A
    ||| u == 0x2028
    ||| u == 0x2029
    ||| u == 0x202F
    ||| u == 0x205F
    ||| u == 0x3000
}

/// Whether `c` is white space.
pub fn whitespace(c: char) -> (r: bool)
    ensures
        r == is_whitespace(c),
{
    let u: u32 = c as u32;
    (0x09 <= u && u <= 0x0D) || u == 0x20 || u == 0x85 || u == 0xA0 || u == 0x1680 || (0x2000 <= u
        && u <= 0x200A) || u == 0x2028 || u == 0x2029 || u == 0x202F || u == 0x205F || u == 0x3000
}

/// `s` without its leading white space.
pub open spec fn trim_start(s: Seq<char>) -> Seq<char>
    decreases s.len(),
{
    if s.len() > 0 && is_whitespace(s[0]) {
        trim_start(s.skip(1))
    } else {
        s
    }
}

/// `s` without its trailing white space.
pub open spec fn trim_end(s: Seq<char>) -> Seq<char>
    decreases s.len(),
{
    if s.len() > 0 && is_whitespace(s.last()) {
        trim_end(s.drop_last())
    } else {
        s
    }
}

/// `s` without leading and trailing white space.
pub open spec fn trim(s: Seq<char>) -> Seq<char> {
    trim_end(trim_start(s))
}

/// Dropping a run of leading white space does not change what `trim_start` gives.
pub proof fn lemma_trim_start_skip(s: Seq<char>, a: int)
    requires
        0 <= a <= s.len(),
        forall|k: int| 0 <= k < a ==> is_whitespace(s[k]),
    ensures
        trim_start(s) == trim_start(s.skip(a)),
    decreases a,
{
    if a == 0 {
        assert(s.skip(0) =~= s);
    } else {
        let rest = s.skip(1);
        assert forall|k: int| 0 <= k < a - 1 implies is_whitespace(rest[k]) by {
            assert(rest[k] == s[k + 1]);
        }
        lemma_trim_start_skip(rest, a - 1);
        assert(rest.skip(a - 1) =~= s.skip(a));
    }
}

/// Dropping a run of trailing white space does not change what `trim_end` gives.
pub proof fn lemma_trim_end_take(s: Seq<char>, b: int)
    requires
        0 <= b <= s.len(),
        forall|k: int| b <= k < s.len() ==> is_whitespace(s[k]),
    ensures
        trim_end(s) == trim_end(s.take(b)),
    decreases s.len() - b,
{
    if b == s.len() {
        assert(s.take(b) =~= s);
    } else {
        let rest = s.drop_last();
        lemma_trim_end_take(rest, b);
        assert(rest.take(b) =~= s.take(b));
    }
}

/// The range of `chars` that is left when white space is trimmed at both ends.
fn trim_range(chars: &Vec<char>) -> (r: (usize, usize))
    ensures
        r.0 <= r.1 <= chars@.len(),
        chars@.subrange(r.0 as int, r.1 as int) == trim(chars@),
        chars@.skip(r.0 as int) == trim_start(chars@),
{
    let n = chars.len();
    let mut a: usize = 0;
    while a < n && whitespace(chars[a])
        invariant
            a <= n,
            n == chars@.len(),
            forall|k: int| 0 <= k < a ==> is_whitespace(chars@[k]),
        decreases n - a,
    {
        a += 1;
    }
    let mut b: usize = n;
    while b > a && whitespace(chars[b - 1])
        invariant
            a <= b <= n,
            n == chars@.len(),
            forall|k: int| b <= k < n ==> is_whitespace(chars@[k]),
        decreases b,
    {
        b -= 1;
    }
    proof {
        let started = chars@.skip(a as int);
        lemma_trim_start_skip(chars@, a as int);
        assert(trim_start(started) == started);
        assert forall|k: int| b - a <= k < started.len() implies is_whitespace(started[k]) by {
            assert(started[k] == chars@[k + a]);
        }
        lemma_trim_end_take(started, b - a);
        assert(started.take(b - a) =~= chars@.subrange(a as int, b as int));
        let kept = chars@.subrange(a as int, b as int);
        if kept.len() > 0 {
            assert(kept.last() == chars@[b - 1]);
        }
        assert(trim_end(kept) == kept);
    }
    (a, b)
}

/// `s` without leading and trailing white space.
pub fn trimmed(s: &str) -> (out: String)
    ensures
        out@ == trim(s@),
{
    let chars = chars_of(s);
    let (a, b) = trim_range(&chars);
    slice_of(s, a, b)
}

/// `s` without trailing white space.
pub fn trimmed_end(s: &str) -> (out: String)
    ensures
        out@ == trim_end(s@),
{
    let chars = chars_of(s);
    let n = chars.len();
    let mut b: usize = n;
    while b > 0 && whitespace(chars[b - 1])
        invariant
            b <= n,
            n == chars@.len(),
            forall|k: int| b <= k < n ==> is_whitespace(chars@[k]),
        decreases b,
    {
        b -= 1;
    }
    proof {
        lemma_trim_end_take(chars@, b as int);
        let kept = chars@.take(b as int);
        if kept.len() > 0 {
            assert(kept.last() == chars@[b - 1]);
        }
        assert(trim_end(kept) == kept);
        assert(kept =~= chars@.subrange(0, b as int));
    }
    slice_of(s, 0, b)
}

/// Whether `a` and `b` hold the same characters.
pub fn same_text(a: &str, b: &str) -> (r: bool)
    ensures
        r == (a@ == b@),
{
    let x = chars_of(a);
    let y = chars_of(b);
    if x.len() != y.len() {
        return false;
    }
    let mut i: usize = 0;
    while i < x.len()
        invariant
            i <= x@.len(),
            x@.len() == y@.len(),
            x@ == a@,
            y@ == b@,
            forall|k: int| 0 <= k < i ==> x@[k] == y@[k],
        decreases x@.len() - i,
    {
        if x[i] != y[i] {
            return false;
        }
        i += 1;
    }
    assert(x@ =~= y@);
    true
}

/// Whether `c` occurs in `s`.
pub fn contains_char(s: &str, c: char) -> (r: bool)
    ensures
        r == has_char(s@, c),
{
    let chars = chars_of(s);
    let mut i: usize = 0;
    while i < chars.len()
        invariant
            i <= chars@.len(),
            chars@ == s@,
            forall|k: int| 0 <= k < i ==> chars@[k] != c,
        decreases chars@.len() - i,
    {
        if chars[i] == c {
            return true;
        }
        i += 1;
    }
    false
}

/// The strict order of texts: character by character, by code point, a
/// proper prefix before the longer text.
pub open spec fn precedes(a: Seq<char>, b: Seq<char>) -> bool
    decreases a.len(),
{
    if b.len() == 0 {
        false
    } else if a.len() == 0 {
        true
    } else if a[0] == b[0] {
        precedes(a.skip(1), b.skip(1))
    } else {
        a[0] < b[0]
    }
}

/// No text precedes itself.
pub proof fn lemma_precedes_irreflexive(a: Seq<char>)
    ensures
        !precedes(a, a),
    decreases a.len(),
{
    if a.len() > 0 {
        lemma_precedes_irreflexive(a.skip(1));
    }
}

/// Of two different texts exactly one precedes the other.
pub proof fn lemma_precedes_total(a: Seq<char>, b: Seq<char>)
    ensures
        a != b ==> (precedes(a, b) <==> !precedes(b, a)),
        a == b ==> !precedes(a, b) && !precedes(b, a),
    decreases a.len(),
{
    if a == b {
        lemma_precedes_irreflexive(a);
    } else if a.len() == 0 || b.len() == 0 {
        if a.len() == 0 && b.len() == 0 {
            assert(a =~= b);
        }
    } else if a[0] == b[0] {
        lemma_precedes_total(a.skip(1), b.skip(1));
        if a.skip(1) == b.skip(1) {
            assert(a =~= seq![a[0]] + a.skip(1));
            assert(b =~= seq![b[0]] + b.skip(1));
        }
    } else {
    }
}

/// The order of texts is transitive.
pub proof fn lemma_precedes_transitive(a: Seq<char>, b: Seq<char>, c: Seq<char>)
    requires
        precedes(a, b),
        precedes(b, c),
    ensures
        precedes(a, c),
    decreases a.len(),
{
    if a.len() > 0 {
        if a[0] == b[0] && b[0] == c[0] {
            lemma_precedes_transitive(a.skip(1), b.skip(1), c.skip(1));
        }
    }
}

/// How one text stands to another in the order of texts.
#[derive(Clone, Copy, Debug, PartialEq, Eq)]
pub enum Rank {
    Before,
    Same,
    After,
}

/// Where `a` stands relative to `b` in the order of texts.
pub fn rank(a: &Vec<char>, b: &Vec<char>) -> (r: Rank)
    ensures
        r == Rank::Before <==> precedes(a@, b@),
        r == Rank::Same <==> a@ == b@,
        r == Rank::After <==> precedes(b@, a@),
{
    proof {
        lemma_precedes_total(a@, b@);
        assert(a@.skip(0) =~= a@);
        assert(b@.skip(0) =~= b@);
    }
    let mut i: usize = 0;
    while i < a.len() && i < b.len()
        invariant
            i <= a@.len(),
            i <= b@.len(),
            forall|k: int| 0 <= k < i ==> a@[k] == b@[k],
            precedes(a@, b@) == precedes(a@.skip(i as int), b@.skip(i as int)),
            precedes(b@, a@) == precedes(b@.skip(i as int), a@.skip(i as int)),
        decreases a@.len() - i,
    {
        let x: char = a[i];
        let y: char = b[i];
        proof {
            assert(a@.skip(i as int)[0] == a@[i as int]);
            assert(b@.skip(i as int)[0] == b@[i as int]);
        }
        if x < y {
            return Rank::Before;
        }
        if y < x {
            return Rank::After;
        }
        proof {
            assert(a@[i as int] == b@[i as int]);
            assert(a@.skip(i as int).skip(1) =~= a@.skip(i + 1));
            assert(b@.skip(i as int).skip(1) =~= b@.skip(i + 1));
        }
        i += 1;
    }
    if i < b.len() {
        Rank::Before
    } else if i < a.len() {
        Rank::After
    } else {
        assert(a@ =~= b@);
        Rank::Same
    }
}

/// The decimal digit of `d`, for `d` below ten.
pub open spec fn digit(d: nat) -> char {
    seq!['0', '1', '2', '3', '4', '5', '6', '7', '8', '9'][d as int]
}

/// The decimal numeral of `n`, without leading zeros.
pub open spec fn decimal(n: nat) -> Seq<char>
    decreases n,
{
    if n < 10 {
        seq![digit(n)]
    } else {
        decimal(n / 10).push(digit(n % 10))
    }
}

/// Different numbers have different numerals.
pub proof fn lemma_decimal_injective(a: nat, b: nat)
    requires
        decimal(a) == decimal(b),
    ensures
        a == b,
    decreases a,
{
    if a < 10 && b < 10 {
        assert(decimal(a)[0] == digit(a));
        assert(decimal(b)[0] == digit(b));
    } else if a < 10 {
        assert(decimal(b / 10).len() >= 1) by {
            lemma_decimal_nonempty(b / 10);
        }
        assert(decimal(b).len() >= 2);
    } else if b < 10 {
        assert(decimal(a / 10).len() >= 1) by {
            lemma_decimal_nonempty(a / 10);
        }
        assert(decimal(a).len() >= 2);
    } else {
        let x = decimal(a / 10);
        let y = decimal(b / 10);
        assert(x =~= decimal(a).drop_last());
        assert(y =~= decimal(b).drop_last());
        assert(digit(a % 10) == decimal(a).last());
        assert(digit(b % 10) == decimal(b).last());
        lemma_decimal_injective(a / 10, b / 10);
        assert(a % 10 == b % 10);
    }
}

/// A numeral has at least one digit.
pub proof fn lemma_decimal_nonempty(n: nat)
    ensures
        decimal(n).len() >= 1,
    decreases n,
{
    if n >= 10 {
        lemma_decimal_nonempty(n / 10);
    }
}

/// A text made of two holds a character where one of the two does.
pub proof fn lemma_has_char_concat(a: Seq<char>, b: Seq<char>, c: char)
    ensures
        has_char(a + b, c) <==> has_char(a, c) || has_char(b, c),
{
    let all = a + b;
    if has_char(all, c) {
        let i = choose|i: int| 0 <= i < all.len() && all[i] == c;
        if i < a.len() {
            assert(a[i] == c);
        } else {
            assert(b[i - a.len()] == c);
        }
    }
    if has_char(a, c) {
        let i = choose|i: int| 0 <= i < a.len() && a[i] == c;
        assert(all[i] == c);
    }
    if has_char(b, c) {
        let i = choose|i: int| 0 <= i < b.len() && b[i] == c;
        assert(all[i + a.len()] == c);
    }
}

/// A numeral holds digits only, and so no slash.
pub proof fn lemma_decimal_has_no_slash(n: nat)
    ensures
        !has_char(decimal(n), '/'),
    decreases n,
{
    let d = decimal(n);
    if n < 10 {
        if has_char(d, '/') {
            let i = choose|i: int| 0 <= i < d.len() && d[i] == '/';
            assert(d[0] == digit(n));
        }
    } else {
        lemma_decimal_has_no_slash(n / 10);
        let head = decimal(n / 10);
        if has_char(d, '/') {
            let i = choose|i: int| 0 <= i < d.len() && d[i] == '/';
            if i < head.len() {
                assert(head[i] == '/');
            } else {
                assert(d[i] == digit(n % 10));
            }
        }
    }
}

/// The one-character text of the digit `d`.
fn digit_text(d: u128) -> (r: &'static str)
    requires
        d < 10,
    ensures
        r@ == seq![digit(d as nat)],
{
    proof {
        reveal_strlit("0");
        reveal_strlit("1");
        reveal_strlit("2");
        reveal_strlit("3");
        reveal_strlit("4");
        reveal_strlit("5");
        reveal_strlit("6");
        reveal_strlit("7");
        reveal_strlit("8");
        reveal_strlit("9");
    }
    let r = if d == 0 {
        "0"
    } else if d == 1 {
        "1"
    } else if d == 2 {
        "2"
    } else if d == 3 {
        "3"
    } else if d == 4 {
        "4"
    } else if d == 5 {
        "5"
    } else if d == 6 {
        "6"
    } else if d == 7 {
        "7"
    } else if d == 8 {
        "8"
    } else {
        "9"
    };
    assert(r@ =~= seq![digit(d as nat)]);
    r
}

/// The decimal numeral of `n`.
pub fn decimal_of(n: u128) -> (out: String)
    ensures
        out@ == decimal(n as nat),
    decreases n,
{
    if n < 10 {
        digit_text(n).to_owned()
    } else {
        let mut out = decimal_of(n / 10);
        out.append(digit_text(n % 10));
        assert(out@ =~= decimal((n / 10) as nat).push(digit((n % 10) as nat)));
        out
    }
}

/// `a` followed by `b`.
pub fn joined(a: &str, b: &str) -> (out: String)
    ensures
        out@ == a@ + b@,
{
    let mut out = a.to_owned();
    out.append(b);
    out
}

} // verus!
