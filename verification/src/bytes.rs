//! Byte strings: equality, prefixes, order and splitting.

use vstd::prelude::*;
use vstd::utf8::*;

verus! {

/// The contents of a list of byte strings.
pub open spec fn views(list: Seq<Vec<u8>>) -> Seq<Seq<u8>> {
    Seq::new(list.len(), |i: int| list[i]@)
}

/// `a` comes strictly before `b` in dictionary order.
pub open spec fn before(a: Seq<u8>, b: Seq<u8>) -> bool
    decreases a.len(),
{
    if b.len() == 0 {
        false
    } else if a.len() == 0 {
        true
    } else if a[0] != b[0] {
        a[0] < b[0]
    } else {
        before(a.skip(1), b.skip(1))
    }
}

/// The stretches of `s` between occurrences of `sep`: one more than there are separators.
pub open spec fn pieces(s: Seq<u8>, sep: u8) -> Seq<Seq<u8>>
    decreases s.len(),
{
    if s.len() == 0 {
        seq![Seq::<u8>::empty()]
    } else {
        let head = pieces(s.drop_last(), sep);
        if s.last() == sep {
            head.push(Seq::<u8>::empty())
        } else {
            head.drop_last().push(head.last().push(s.last()))
        }
    }
}

/// The bytes of a text.
pub open spec fn utf8(s: Seq<char>) -> Seq<u8> {
    encode_utf8(s)
}

/// `field` begins with the text `s`.
pub open spec fn begins(field: Seq<u8>, s: Seq<char>) -> bool {
    utf8(s).is_prefix_of(field)
}

/// What follows the text `s` at the beginning of `field`.
pub open spec fn after(field: Seq<u8>, s: Seq<char>) -> Seq<u8> {
    field.skip(utf8(s).len() as int)
}

/// Tells whether two byte strings are the same.
pub fn same(a: &[u8], b: &[u8]) -> (r: bool)
    ensures
        r == (a@ == b@),
{
    if a.len() != b.len() {
        return false;
    }
    let mut i: usize = 0;
    while i < a.len()
        invariant
            a@.len() == b@.len(),
            i <= a@.len(),
            forall|j: int| 0 <= j < i ==> a@[j] == b@[j],
        decreases a@.len() - i,
    {
        if a[i] != b[i] {
            return false;
        }
        i += 1;
    }
    assert(a@ =~= b@);
    true
}

/// Tells whether `s` begins with `prefix`.
pub fn has_prefix(s: &[u8], prefix: &[u8]) -> (r: bool)
    ensures
        r == prefix@.is_prefix_of(s@),
{
    if s.len() < prefix.len() {
        return false;
    }
    let mut i: usize = 0;
    while i < prefix.len()
        invariant
            prefix@.len() <= s@.len(),
            i <= prefix@.len(),
            forall|j: int| 0 <= j < i ==> prefix@[j] == s@[j],
        decreases prefix@.len() - i,
    {
        if s[i] != prefix[i] {
            assert(s@.subrange(0, prefix@.len() as int)[i as int] == s@[i as int]);
            return false;
        }
        i += 1;
    }
    assert(prefix@ =~= s@.subrange(0, prefix@.len() as int));
    true
}

/// A copy of `s` without its first `n` bytes.
pub fn tail(s: &[u8], n: usize) -> (r: Vec<u8>)
    requires
        n <= s@.len(),
    ensures
        r@ == s@.skip(n as int),
{
    let mut out: Vec<u8> = Vec::new();
    let mut i: usize = n;
    while i < s.len()
        invariant
            n <= i <= s@.len(),
            out@ == s@.subrange(n as int, i as int),
        decreases s@.len() - i,
    {
        out.push(s[i]);
        assert(s@.subrange(n as int, i + 1) =~= s@.subrange(n as int, i as int).push(s@[i as int]));
        i += 1;
    }
    assert(out@ =~= s@.skip(n as int));
    out
}

/// A copy of the first `n` bytes of `s`.
pub fn head(s: &[u8], n: usize) -> (r: Vec<u8>)
    requires
        n <= s@.len(),
    ensures
        r@ == s@.take(n as int),
{
    let mut out: Vec<u8> = Vec::new();
    let mut i: usize = 0;
    while i < n
        invariant
            i <= n <= s@.len(),
            out@ == s@.take(i as int),
        decreases n - i,
    {
        out.push(s[i]);
        assert(s@.take(i + 1) =~= s@.take(i as int).push(s@[i as int]));
        i += 1;
    }
    out
}

/// A copy of `s`.
pub fn copy(s: &[u8]) -> (r: Vec<u8>)
    ensures
        r@ == s@,
{
    let out = tail(s, 0);
    assert(s@.skip(0) =~= s@);
    out
}

/// Tells whether `a` comes strictly before `b` in dictionary order.
pub fn precedes(a: &[u8], b: &[u8]) -> (r: bool)
    ensures
        r == before(a@, b@),
{
    let mut i: usize = 0;
    assert(a@.skip(0) =~= a@ && b@.skip(0) =~= b@);
    while i < a.len() && i < b.len()
        invariant
            i <= a@.len(),
            i <= b@.len(),
            before(a@, b@) == before(a@.skip(i as int), b@.skip(i as int)),
        decreases a@.len() - i,
    {
        if a[i] != b[i] {
            return a[i] < b[i];
        }
        assert(a@.skip(i as int).skip(1) =~= a@.skip(i + 1));
        assert(b@.skip(i as int).skip(1) =~= b@.skip(i + 1));
        i += 1;
    }
    i < b.len()
}

/// Cuts `s` at every `sep`.
pub fn split(s: &[u8], sep: u8) -> (r: Vec<Vec<u8>>)
    ensures
        views(r@) == pieces(s@, sep),
{
    let mut done: Vec<Vec<u8>> = Vec::new();
    let mut current: Vec<u8> = Vec::new();
    let mut i: usize = 0;
    assert(views(done@).push(current@) =~= pieces(s@.take(0), sep));
    while i < s.len()
        invariant
            i <= s@.len(),
            views(done@).push(current@) == pieces(s@.take(i as int), sep),
        decreases s@.len() - i,
    {
        let b: u8 = s[i];
        let ghost so_far = views(done@);
        let ghost cut = current@;
        proof {
            assert(s@.take(i + 1).drop_last() =~= s@.take(i as int));
            assert(so_far.push(cut).drop_last() =~= so_far);
        }
        if b == sep {
            done.push(current);
            current = Vec::new();
            assert(views(done@) =~= so_far.push(cut));
        } else {
            current.push(b);
        }
        assert(views(done@).push(current@) =~= pieces(s@.take(i + 1), sep));
        i += 1;
    }
    let ghost so_far = views(done@);
    let ghost cut = current@;
    done.push(current);
    assert(s@.take(i as int) =~= s@);
    assert(views(done@) =~= so_far.push(cut));
    done
}

/// A byte string comes before no byte string equal to it.
pub proof fn before_is_irreflexive(a: Seq<u8>)
    ensures
        !before(a, a),
    decreases a.len(),
{
    if a.len() > 0 {
        before_is_irreflexive(a.skip(1));
    }
}

/// Dictionary order is transitive.
pub proof fn before_is_transitive(a: Seq<u8>, b: Seq<u8>, c: Seq<u8>)
    requires
        before(a, b),
        before(b, c),
    ensures
        before(a, c),
    decreases a.len(),
{
    if a.len() > 0 && a[0] == b[0] && b[0] == c[0] {
        before_is_transitive(a.skip(1), b.skip(1), c.skip(1));
    }
}

/// Of two different byte strings one comes before the other.
pub proof fn before_is_total(a: Seq<u8>, b: Seq<u8>)
    requires
        a != b,
    ensures
        before(a, b) || before(b, a),
    decreases a.len(),
{
    if a.len() > 0 && b.len() > 0 && a[0] == b[0] {
        if a.skip(1) == b.skip(1) {
            assert(a =~= seq![a[0]] + a.skip(1));
            assert(b =~= seq![b[0]] + b.skip(1));
        }
        before_is_total(a.skip(1), b.skip(1));
    } else if a.len() == 0 && b.len() == 0 {
        assert(a =~= b);
    }
}

/// No piece of a cut byte string holds the separator.
pub proof fn pieces_hold_no_separator(s: Seq<u8>, sep: u8)
    ensures
        pieces(s, sep).len() > 0,
        forall|k: int|
            0 <= k < pieces(s, sep).len() ==> !(#[trigger] pieces(s, sep)[k]).contains(
                sep,
            ),
    decreases s.len(),
{
    if s.len() > 0 {
        pieces_hold_no_separator(s.drop_last(), sep);
        let head = pieces(s.drop_last(), sep);
        let all = pieces(s, sep);
        assert forall|k: int| 0 <= k < all.len() implies !(#[trigger] all[k]).contains(sep) by {
            if s.last() == sep {
                if k < head.len() {
                    assert(all[k] == head[k]);
                }
            } else if k < head.len() - 1 {
                assert(all[k] == head[k]);
            } else {
                assert(all[k] == head[k].push(s.last()));
                if all[k].contains(sep) {
                    let j = all[k].index_of(sep);
                    assert(head[k][j] == sep);
                }
            }
        }
    }
}

/// A byte string without the separator is cut into itself alone.
pub proof fn pieces_without_separator(s: Seq<u8>, sep: u8)
    requires
        !s.contains(sep),
    ensures
        pieces(s, sep) == seq![s],
    decreases s.len(),
{
    if s.len() > 0 {
        assert(s[s.len() - 1] != sep);
        assert forall|i: int| 0 <= i < s.drop_last().len() implies s.drop_last()[i] != sep by {
            assert(s.drop_last()[i] == s[i]);
        }
        pieces_without_separator(s.drop_last(), sep);
        assert(s.drop_last().push(s.last()) =~= s);
        assert(pieces(s, sep) =~= seq![s]);
    } else {
        assert(s =~= Seq::<u8>::empty());
    }
}

/// A separator and a byte string without one add one piece.
pub proof fn pieces_of_appended(s: Seq<u8>, t: Seq<u8>, sep: u8)
    requires
        !t.contains(sep),
    ensures
        pieces(s.push(sep) + t, sep) == pieces(s, sep).push(t),
    decreases t.len(),
{
    let whole = s.push(sep) + t;
    if t.len() == 0 {
        assert(whole =~= s.push(sep));
        assert(s.push(sep).drop_last() =~= s);
        assert(t =~= Seq::<u8>::empty());
    } else {
        assert(t[t.len() - 1] != sep);
        assert forall|i: int| 0 <= i < t.drop_last().len() implies t.drop_last()[i] != sep by {
            assert(t.drop_last()[i] == t[i]);
        }
        pieces_of_appended(s, t.drop_last(), sep);
        assert(whole.drop_last() =~= s.push(sep) + t.drop_last());
        let head = pieces(whole.drop_last(), sep);
        assert(head.drop_last() =~= pieces(s, sep));
        assert(t.drop_last().push(t.last()) =~= t);
        assert(pieces(whole, sep) =~= pieces(s, sep).push(t));
    }
}

/// Byte strings in a row, with `sep` between neighbours.
pub open spec fn rejoined(list: Seq<Seq<u8>>, sep: u8) -> Seq<u8>
    decreases list.len(),
{
    if list.len() == 0 {
        Seq::empty()
    } else if list.len() == 1 {
        list[0]
    } else {
        rejoined(list.drop_last(), sep).push(sep) + list.last()
    }
}

/// Cutting loses nothing: the pieces, with the separator between them, are the whole again.
pub proof fn pieces_rejoin(s: Seq<u8>, sep: u8)
    ensures
        rejoined(pieces(s, sep), sep) == s,
    decreases s.len(),
{
    if s.len() == 0 {
        assert(rejoined(pieces(s, sep), sep) =~= s);
    } else {
        let head = pieces(s.drop_last(), sep);
        pieces_rejoin(s.drop_last(), sep);
        pieces_hold_no_separator(s.drop_last(), sep);
        let all = pieces(s, sep);
        assert(s =~= s.drop_last().push(s.last()));
        if s.last() == sep {
            assert(all.drop_last() =~= head);
            assert(rejoined(all, sep) =~= s);
        } else {
            assert(all.drop_last() =~= head.drop_last());
            if head.len() == 1 {
                assert(rejoined(all, sep) =~= s);
            } else {
                assert(rejoined(all, sep) =~= s);
            }
        }
    }
}

/// Two byte strings with a separator between them are cut into the pieces of the first and then
/// those of the second.
pub proof fn pieces_of_joined(a: Seq<u8>, b: Seq<u8>, sep: u8)
    ensures
        pieces(a.push(sep) + b, sep) == pieces(a, sep) + pieces(b, sep),
    decreases b.len(),
{
    let whole = a.push(sep) + b;
    if b.len() == 0 {
        assert(whole =~= a.push(sep));
        assert(a.push(sep).drop_last() =~= a);
        assert(pieces(whole, sep) =~= pieces(a, sep) + pieces(b, sep));
    } else {
        pieces_of_joined(a, b.drop_last(), sep);
        pieces_hold_no_separator(b.drop_last(), sep);
        assert(whole.drop_last() =~= a.push(sep) + b.drop_last());
        assert(pieces(whole, sep) =~= pieces(a, sep) + pieces(b, sep));
    }
}

/// The first byte in which two byte strings differ decides their order.
pub proof fn first_difference_decides(p: Seq<u8>, x: u8, y: u8, a: Seq<u8>, b: Seq<u8>)
    requires
        x != y,
    ensures
        before(p + seq![x] + a, p + seq![y] + b) == (x < y),
    decreases p.len(),
{
    let s = p + seq![x] + a;
    let t = p + seq![y] + b;
    if p.len() > 0 {
        first_difference_decides(p.skip(1), x, y, a, b);
        assert(s.skip(1) =~= p.skip(1) + seq![x] + a);
        assert(t.skip(1) =~= p.skip(1) + seq![y] + b);
    } else {
        assert(s[0] == x && t[0] == y);
    }
}

/// A byte string comes before every longer one that begins with it.
pub proof fn prefix_comes_first(p: Seq<u8>, a: Seq<u8>)
    requires
        a.len() > 0,
    ensures
        before(p, p + a),
        !before(p + a, p),
    decreases p.len(),
{
    if p.len() > 0 {
        prefix_comes_first(p.skip(1), a);
        assert((p + a).skip(1) =~= p.skip(1) + a);
    }
}

/// A byte string begins with a text just where it is that text's bytes and something more.
pub proof fn beginning_is_followed_by_the_rest(s: Seq<char>, rest: Seq<u8>, field: Seq<u8>)
    ensures
        begins(encode_utf8(s) + rest, s),
        after(encode_utf8(s) + rest, s) == rest,
        begins(field, s) ==> field == encode_utf8(s) + after(field, s),
{
    let word = encode_utf8(s);
    assert(word =~= (word + rest).subrange(0, word.len() as int));
    assert((word + rest).skip(word.len() as int) =~= rest);
    if begins(field, s) {
        assert(field =~= word + field.skip(word.len() as int));
    }
}

} // verus!
