//! Paths as text with `/` between components.
//!
//! Two paths are the same when their components are; one lies under another
//! when the other's components open its own. Empty pieces (doubled or
//! trailing slashes) and `.` pieces after the first are no components.

use crate::text::{
    chars_of, has_char, joined, lemma_split_concat, lemma_split_pieces_clean, lemma_split_whole,
    ranges_within, same_text, slice_of, slices, split, split_ranges,
};
use vstd::prelude::*;

verus! {

/// Whether `p` starts at the root directory.
pub open spec fn is_rooted(p: Seq<char>) -> bool {
    p.len() > 0 && p[0] == '/'
}

/// The component that stands for the root directory.
pub open spec fn root_component() -> Seq<char> {
    seq!['/']
}

/// The `.` piece.
pub open spec fn dot() -> Seq<char> {
    seq!['.']
}

/// The `..` piece.
pub open spec fn dot_dot() -> Seq<char> {
    seq!['.', '.']
}

/// The pieces that count as components: every piece that is not empty,
/// except a `.` that is not the very first piece.
pub open spec fn named(pieces: Seq<Seq<char>>) -> Seq<Seq<char>>
    decreases pieces.len(),
{
    if pieces.len() == 0 {
        Seq::empty()
    } else {
        let rest = named(pieces.drop_last());
        let last = pieces.last();
        if last.len() == 0 || (last == dot() && pieces.len() > 1) {
            rest
        } else {
            rest.push(last)
        }
    }
}

/// The components of `p`: the root, if `p` starts there, then the named pieces.
pub open spec fn components(p: Seq<char>) -> Seq<Seq<char>> {
    if is_rooted(p) {
        seq![root_component()] + named(split(p, '/'))
    } else {
        named(split(p, '/'))
    }
}

/// Whether `p` is `base` or lies below it, component by component.
pub open spec fn is_under(p: Seq<char>, base: Seq<char>) -> bool {
    components(base).is_prefix_of(components(p))
}

/// Whether `p` and `q` name the same place.
pub open spec fn same_path(p: Seq<char>, q: Seq<char>) -> bool {
    components(p) == components(q)
}

/// The name of the last component of `p`, unless `p` has no component or
/// ends in the root, `.` or `..`.
pub open spec fn file_name(p: Seq<char>) -> Option<Seq<char>> {
    let c = components(p);
    if c.len() == 0 || c.last() == root_component() || c.last() == dot() || c.last() == dot_dot() {
        None
    } else {
        Some(c.last())
    }
}

/// `rel` taken from `base`: `rel` itself when it is rooted, else `base`
/// followed by `rel`, with a slash between them where `base` does not end in one.
pub open spec fn join(base: Seq<char>, rel: Seq<char>) -> Seq<char> {
    if is_rooted(rel) {
        rel
    } else if base.len() == 0 || base.last() == '/' {
        base + rel
    } else {
        base + seq!['/'] + rel
    }
}

/// The first component of `p` below `base`, when `p` lies strictly below it.
pub open spec fn first_below(p: Seq<char>, base: Seq<char>) -> Option<Seq<char>> {
    if is_under(p, base) && components(p).len() > components(base).len() {
        Some(components(p)[components(base).len() as int])
    } else {
        None
    }
}

/// The text of the path with the components `c`: each taken from what the
/// ones before it give.
pub open spec fn render(c: Seq<Seq<char>>) -> Seq<char>
    decreases c.len(),
{
    if c.len() == 0 {
        Seq::empty()
    } else {
        join(render(c.drop_last()), c.last())
    }
}

/// The directory that holds `p`: `p` without its last component, written
/// with single slashes. The root and the empty path have none.
pub open spec fn parent(p: Seq<char>) -> Option<Seq<char>> {
    let c = components(p);
    if c.len() == 0 || c.last() == root_component() {
        None
    } else {
        Some(render(c.drop_last()))
    }
}

/// Whether `n` can stand as one component of a path: it is not empty,
/// holds no slash and is not the `.` piece.
pub open spec fn is_simple_name(n: Seq<char>) -> bool {
    n.len() > 0 && !has_char(n, '/') && n != dot()
}

/// Every component that the pieces give is one of the pieces and is not empty.
pub proof fn lemma_named_are_pieces(pieces: Seq<Seq<char>>)
    ensures
        forall|k: int|
            0 <= k < named(pieces).len() ==> (#[trigger] named(pieces)[k]).len() > 0
                && pieces.contains(named(pieces)[k]),
    decreases pieces.len(),
{
    if pieces.len() > 0 {
        let rest = pieces.drop_last();
        lemma_named_are_pieces(rest);
        assert forall|k: int| 0 <= k < named(pieces).len() implies (#[trigger] named(
            pieces,
        )[k]).len() > 0 && pieces.contains(named(pieces)[k]) by {
            if k < named(rest).len() {
                let c = named(rest)[k];
                assert(named(pieces)[k] == c);
                let i = choose|i: int| 0 <= i < rest.len() && rest[i] == c;
                assert(pieces[i] == c);
            } else {
                assert(named(pieces)[k] == pieces.last());
                assert(pieces[pieces.len() - 1] == pieces.last());
            }
        }
    }
}

/// A simple name taken from `base` adds itself as the last component.
pub proof fn lemma_components_join(base: Seq<char>, n: Seq<char>)
    requires
        is_simple_name(n),
    ensures
        components(join(base, n)) == components(base).push(n),
{
    assert(n[0] != '/') by {
        if n[0] == '/' {
            assert(has_char(n, '/'));
        }
    }
    lemma_split_whole(n, '/');
    if base.len() == 0 {
        assert(join(base, n) =~= n);
        assert(split(base, '/') =~= seq![base]);
        assert(seq![n].drop_last() =~= Seq::<Seq<char>>::empty());
        assert(seq![base].drop_last() =~= Seq::<Seq<char>>::empty());
        assert(named(Seq::<Seq<char>>::empty()) =~= Seq::<Seq<char>>::empty());
        assert(seq![n].last() == n);
        assert(seq![base].last() == base);
        assert(named(seq![n]) =~= seq![n]);
        assert(named(seq![base]) =~= Seq::<Seq<char>>::empty());
        assert(components(n) =~= components(base).push(n));
    } else if base.last() == '/' {
        let stem = base.drop_last();
        let empty = Seq::<char>::empty();
        assert(base =~= stem + seq!['/'] + empty);
        assert(join(base, n) =~= stem + seq!['/'] + n);
        lemma_split_concat(stem, n, '/');
        lemma_split_concat(stem, empty, '/');
        lemma_split_pieces_clean(stem, '/');
        assert(split(empty, '/') =~= seq![empty]);
        let pieces = split(stem, '/');
        assert(split(join(base, n), '/') =~= pieces.push(n));
        assert(split(base, '/') =~= pieces.push(empty));
        assert(pieces.push(n).drop_last() =~= pieces);
        assert(pieces.push(empty).drop_last() =~= pieces);
        assert(named(pieces.push(n)) =~= named(pieces).push(n));
        assert(named(pieces.push(empty)) =~= named(pieces));
        assert(join(base, n)[0] == base[0]);
        assert(components(join(base, n)) =~= components(base).push(n));
    } else {
        assert(join(base, n) =~= base + seq!['/'] + n);
        lemma_split_concat(base, n, '/');
        lemma_split_pieces_clean(base, '/');
        let pieces = split(base, '/');
        assert(split(join(base, n), '/') =~= pieces.push(n));
        assert(pieces.push(n).drop_last() =~= pieces);
        assert(named(pieces.push(n)) =~= named(pieces).push(n));
        assert(join(base, n)[0] == base[0]);
        assert(components(join(base, n)) =~= components(base).push(n));
    }
}

/// What is taken from a directory under a simple name lies under that
/// directory, directly below it, and is called by that name.
pub proof fn lemma_join_lies_below(base: Seq<char>, n: Seq<char>)
    requires
        is_simple_name(n),
    ensures
        is_under(join(base, n), base),
        first_below(join(base, n), base) == Some(n),
        n != dot_dot() ==> file_name(join(base, n)) == Some(n),
{
    lemma_components_join(base, n);
    let c = components(base);
    assert(c.push(n).subrange(0, c.len() as int) =~= c);
    assert(n != root_component()) by {
        if n == root_component() {
            assert(n[0] == '/');
            assert(has_char(n, '/'));
        }
    }
}

/// The name of a file is a simple name, and is not the `..` piece.
pub proof fn lemma_file_name_is_simple(p: Seq<char>)
    requires
        file_name(p) is Some,
    ensures
        is_simple_name(file_name(p)->0),
        file_name(p)->0 != dot_dot(),
{
    let pieces = split(p, '/');
    let n = file_name(p)->0;
    let c = components(p);
    lemma_named_are_pieces(pieces);
    lemma_split_pieces_clean(p, '/');
    let kept = named(pieces);
    if is_rooted(p) {
        assert(c =~= seq![root_component()] + kept);
        assert(kept.len() > 0) by {
            if kept.len() == 0 {
                assert(c.last() == root_component());
            }
        }
        assert(n == kept[kept.len() - 1]);
    } else {
        assert(n == kept[kept.len() - 1]);
    }
    let i = choose|i: int| 0 <= i < pieces.len() && pieces[i] == n;
    assert(!has_char(pieces[i], '/'));
}

/// Lying under is transitive.
pub proof fn lemma_under_transitive(p: Seq<char>, q: Seq<char>, r: Seq<char>)
    requires
        is_under(p, q),
        is_under(q, r),
    ensures
        is_under(p, r),
{
    let a = components(p);
    let b = components(q);
    let c = components(r);
    assert(c =~= a.subrange(0, c.len() as int)) by {
        assert forall|k: int| 0 <= k < c.len() implies c[k] == a[k] by {
            assert(c[k] == b.subrange(0, c.len() as int)[k]);
            assert(b[k] == a.subrange(0, b.len() as int)[k]);
        }
    }
}

/// The components of `p`, in order.
pub fn components_of(p: &str) -> (out: Vec<String>)
    ensures
        out.deep_view() == components(p@),
{
    let chars = chars_of(p);
    let ranges = split_ranges(&chars, '/');
    let ghost pieces = split(chars@, '/');
    let mut out: Vec<String> = Vec::new();
    if chars.len() > 0 && chars[0] == '/' {
        proof {
            reveal_strlit("/");
        }
        let root = "/".to_owned();
        assert(root@ =~= root_component());
        out.push(root);
        assert(out.deep_view() =~= seq![root_component()]);
    } else {
        assert(out.deep_view() =~= Seq::<Seq<char>>::empty());
    }
    let ghost lead = out.deep_view();
    let mut k: usize = 0;
    assert(pieces.take(0) =~= Seq::<Seq<char>>::empty());
    while k < ranges.len()
        invariant
            k <= ranges@.len(),
            chars@ == p@,
            ranges_within(ranges@, chars@.len()),
            slices(chars@, ranges@) == pieces,
            out.deep_view() == lead + named(pieces.take(k as int)),
        decreases ranges@.len() - k,
    {
        let (a, b) = ranges[k];
        proof {
            assert(pieces[k as int] == chars@.subrange(a as int, b as int));
            assert(pieces.take(k + 1).drop_last() =~= pieces.take(k as int));
            assert(pieces.take(k + 1).last() == pieces[k as int]);
            if b - a == 1 {
                assert(pieces[k as int] =~= seq![chars@[a as int]]);
            }
        }
        let skip = a == b || (b - a == 1 && chars[a] == '.' && k > 0);
        if !skip {
            let piece = slice_of(p, a, b);
            let ghost before = out.deep_view();
            out.push(piece);
            assert(out.deep_view() =~= before.push(piece@));
            assert(pieces[k as int] != dot() || k == 0) by {
                if pieces[k as int] == dot() {
                    assert(pieces[k as int].len() == 1);
                    assert(pieces[k as int][0] == '.');
                }
            }
        } else {
            assert(pieces[k as int].len() == 0 || pieces[k as int] =~= dot());
        }
        k += 1;
    }
    assert(pieces.take(k as int) =~= pieces);
    out
}

/// Whether the texts in `a` open the list `b`.
fn opens(a: &Vec<String>, b: &Vec<String>) -> (r: bool)
    ensures
        r == a.deep_view().is_prefix_of(b.deep_view()),
{
    if a.len() > b.len() {
        return false;
    }
    let mut i: usize = 0;
    while i < a.len()
        invariant
            i <= a@.len() <= b@.len(),
            forall|k: int| 0 <= k < i ==> a.deep_view()[k] == b.deep_view()[k],
        decreases a@.len() - i,
    {
        if a[i] != b[i] {
            assert(a.deep_view()[i as int] != b.deep_view().subrange(0, a@.len() as int)[i as int]);
            return false;
        }
        i += 1;
    }
    assert(a.deep_view() =~= b.deep_view().subrange(0, a@.len() as int));
    true
}

/// Whether `p` is `base` or lies below it.
pub fn path_starts_with(p: &str, base: &str) -> (r: bool)
    ensures
        r == is_under(p@, base@),
{
    let own = components_of(p);
    let other = components_of(base);
    opens(&other, &own)
}

/// Whether `p` and `q` name the same place.
pub fn path_eq(p: &str, q: &str) -> (r: bool)
    ensures
        r == same_path(p@, q@),
{
    let a = components_of(p);
    let b = components_of(q);
    let r = a.len() == b.len() && opens(&a, &b);
    proof {
        let x = a.deep_view();
        let y = b.deep_view();
        if r {
            assert(x =~= y);
        } else if x == y {
            assert(y.subrange(0, x.len() as int) =~= x);
        }
    }
    r
}

/// The name of the last component of `p`, if it has one.
pub fn path_file_name(p: &str) -> (r: Option<String>)
    ensures
        r.deep_view() == file_name(p@),
{
    let mut parts = components_of(p);
    let ghost c = parts.deep_view();
    match parts.pop() {
        None => None,
        Some(last) => {
            assert(last@ == c.last());
            proof {
                reveal_strlit("/");
                reveal_strlit(".");
                reveal_strlit("..");
                assert("/"@ =~= root_component());
                assert("."@ =~= dot());
                assert(".."@ =~= dot_dot());
            }
            if same_text(last.as_str(), "/") || same_text(last.as_str(), ".") || same_text(
                last.as_str(),
                "..",
            ) {
                None
            } else {
                Some(last)
            }
        },
    }
}

/// `rel` taken from `base`.
pub fn path_join(base: &str, rel: &str) -> (out: String)
    ensures
        out@ == join(base@, rel@),
{
    let head = chars_of(base);
    let tail = chars_of(rel);
    if tail.len() > 0 && tail[0] == '/' {
        rel.to_owned()
    } else if head.len() == 0 || head[head.len() - 1] == '/' {
        joined(base, rel)
    } else {
        proof {
            reveal_strlit("/");
            assert("/"@ =~= seq!['/']);
        }
        let with_slash = joined(base, "/");
        joined(with_slash.as_str(), rel)
    }
}

/// The first component of `p` below `base`, when `p` lies strictly below it.
pub fn path_first_below(p: &str, base: &str) -> (r: Option<String>)
    ensures
        r.deep_view() == first_below(p@, base@),
{
    let own = components_of(p);
    let other = components_of(base);
    if opens(&other, &own) && own.len() > other.len() {
        Some(own[other.len()].clone())
    } else {
        None
    }
}

/// The directory that holds `p`, if there is one.
pub fn path_parent(p: &str) -> (r: Option<String>)
    ensures
        r.deep_view() == parent(p@),
{
    let mut parts = components_of(p);
    let ghost c = parts.deep_view();
    match parts.pop() {
        None => None,
        Some(last) => {
            assert(last@ == c.last());
            assert(parts.deep_view() =~= c.drop_last());
            proof {
                reveal_strlit("/");
                assert("/"@ =~= root_component());
            }
            if same_text(last.as_str(), "/") {
                return None;
            }
            let ghost rest = parts.deep_view();
            let mut out = String::new();
            let mut k: usize = 0;
            assert(rest.take(0) =~= Seq::<Seq<char>>::empty());
            while k < parts.len()
                invariant
                    k <= parts@.len(),
                    rest == parts.deep_view(),
                    out@ == render(rest.take(k as int)),
                decreases parts@.len() - k,
            {
                proof {
                    assert(rest.take(k + 1).drop_last() =~= rest.take(k as int));
                    assert(rest.take(k + 1).last() == parts@[k as int]@);
                }
                out = path_join(out.as_str(), parts[k].as_str());
                k += 1;
            }
            assert(rest.take(k as int) =~= rest);
            Some(out)
        },
    }
}

} // verus!
