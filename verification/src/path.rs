//! Absolute paths and their relations.

use crate::bytes;
use crate::text;
use vstd::prelude::*;

verus! {

/// The byte that separates the names of a path.
pub const SLASH: u8 = 47;

/// A full stop.
pub const DOT: u8 = 46;

/// A name that a path can hold: not empty, without a slash, and not the single dot.
pub open spec fn valid_name(name: Seq<u8>) -> bool {
    &&& name.len() > 0
    &&& !name.contains(SLASH)
    &&& name != seq![DOT]
}

/// The names of a path are all valid.
pub open spec fn valid(names: Seq<Seq<u8>>) -> bool {
    forall|i: int| 0 <= i < names.len() ==> valid_name(#[trigger] names[i])
}

/// The name that stands for the parent directory.
pub open spec fn is_parent(name: Seq<u8>) -> bool {
    name == seq![DOT, DOT]
}

/// A path without any step to a parent directory.
pub open spec fn direct(names: Seq<Seq<u8>>) -> bool {
    forall|i: int| 0 <= i < names.len() ==> !is_parent(#[trigger] names[i])
}

/// The pieces of a written path that count: neither empty nor a single dot.
pub open spec fn kept(list: Seq<Seq<u8>>) -> Seq<Seq<u8>>
    decreases list.len(),
{
    if list.len() == 0 {
        Seq::empty()
    } else if list.last().len() == 0 || list.last() == seq![DOT] {
        kept(list.drop_last())
    } else {
        kept(list.drop_last()).push(list.last())
    }
}

/// The names in a written path.
pub open spec fn components(raw: Seq<u8>) -> Seq<Seq<u8>> {
    kept(bytes::pieces(raw, SLASH))
}

/// A written path is absolute when it begins with a slash.
pub open spec fn is_absolute(raw: Seq<u8>) -> bool {
    raw.len() > 0 && raw[0] == SLASH
}

/// The path that `raw` means when it is read in the directory `base`.
pub open spec fn joined(base: Seq<Seq<u8>>, raw: Seq<u8>) -> Seq<Seq<u8>> {
    if is_absolute(raw) {
        components(raw)
    } else {
        base + components(raw)
    }
}

/// The names of a path, each behind a slash.
pub open spec fn slashed(names: Seq<Seq<u8>>) -> Seq<u8>
    decreases names.len(),
{
    if names.len() == 0 {
        Seq::empty()
    } else {
        slashed(names.drop_last()).push(SLASH) + names.last()
    }
}

/// A path written out.
pub open spec fn written(names: Seq<Seq<u8>>) -> Seq<u8> {
    if names.len() == 0 {
        seq![SLASH]
    } else {
        slashed(names)
    }
}

/// A path as it is shown to a person.
pub open spec fn display(names: Seq<Seq<u8>>) -> Seq<char> {
    text::shown(written(names))
}

/// The last name of a path, unless the path is the root or ends in a parent step.
pub open spec fn file_name(names: Seq<Seq<u8>>) -> Option<Seq<u8>> {
    if names.len() == 0 || is_parent(names.last()) {
        None
    } else {
        Some(names.last())
    }
}

/// `path` is `base` or lies below it.
pub open spec fn within(path: Seq<Seq<u8>>, base: Seq<Seq<u8>>) -> bool {
    base.is_prefix_of(path)
}

/// One of the two paths is the other or lies below it.
pub open spec fn overlap(a: Seq<Seq<u8>>, b: Seq<Seq<u8>>) -> bool {
    within(a, b) || within(b, a)
}

/// The order of names: the parent step first, the others in dictionary order.
pub open spec fn name_before(a: Seq<u8>, b: Seq<u8>) -> bool {
    if is_parent(b) {
        false
    } else {
        is_parent(a) || bytes::before(a, b)
    }
}

/// The order of paths: name by name, a path before what lies below it.
pub open spec fn before(a: Seq<Seq<u8>>, b: Seq<Seq<u8>>) -> bool
    decreases a.len(),
{
    if b.len() == 0 {
        false
    } else if a.len() == 0 {
        true
    } else if a[0] != b[0] {
        name_before(a[0], b[0])
    } else {
        before(a.skip(1), b.skip(1))
    }
}

/// The index of the last dot in a name, or -1.
pub open spec fn last_dot(name: Seq<u8>) -> int
    decreases name.len(),
{
    if name.len() == 0 {
        -1
    } else if name.last() == DOT {
        name.len() - 1
    } else {
        last_dot(name.drop_last())
    }
}

/// A name without its extension: what precedes the last dot, unless nothing does.
pub open spec fn stem(name: Seq<u8>) -> Seq<u8> {
    if last_dot(name) > 0 {
        name.take(last_dot(name))
    } else {
        name
    }
}

/// A path from the root of the filesystem.
#[derive(Debug)]
pub struct AbsPath {
    names: Vec<Vec<u8>>,
}

impl View for AbsPath {
    type V = Seq<Seq<u8>>;

    closed spec fn view(&self) -> Seq<Seq<u8>> {
        bytes::views(self.names@)
    }
}

/// The contents of a list of paths.
pub open spec fn views(list: Seq<AbsPath>) -> Seq<Seq<Seq<u8>>> {
    Seq::new(list.len(), |i: int| list[i]@)
}

impl Clone for AbsPath {
    fn clone(&self) -> (r: Self)
        ensures
            r@ == self@,
    {
        proof {
            use_type_invariant(self);
        }
        let names = copy_names(&self.names, self.names.len());
        assert(bytes::views(names@) =~= bytes::views(self.names@));
        proof {
            assert forall|i: int| 0 <= i < names@.len() implies valid_name(#[trigger] names@[i]@) by {
                assert(bytes::views(names@)[i] == bytes::views(self.names@)[i]);
            }
        }
        AbsPath { names }
    }
}

/// A copy of the first `n` names of a list.
fn copy_names(list: &Vec<Vec<u8>>, n: usize) -> (r: Vec<Vec<u8>>)
    requires
        n <= list@.len(),
    ensures
        bytes::views(r@) == bytes::views(list@).take(n as int),
{
    let mut out: Vec<Vec<u8>> = Vec::new();
    let mut i: usize = 0;
    while i < n
        invariant
            i <= n <= list@.len(),
            out@.len() == i,
            forall|j: int| 0 <= j < i ==> #[trigger] out@[j]@ == list@[j]@,
        decreases n - i,
    {
        out.push(bytes::copy(list[i].as_slice()));
        i += 1;
    }
    assert(bytes::views(out@) =~= bytes::views(list@).take(n as int));
    out
}

impl AbsPath {
    #[verifier::type_invariant]
    spec fn names_are_valid(self) -> bool {
        forall|i: int| 0 <= i < self.names@.len() ==> valid_name(#[trigger] self.names@[i]@)
    }

    /// The root of the filesystem.
    pub fn root() -> (r: AbsPath)
        ensures
            r@ == Seq::<Seq<u8>>::empty(),
    {
        let r = AbsPath { names: Vec::new() };
        assert(r@ =~= Seq::<Seq<u8>>::empty());
        r
    }

    /// Reads the written path `raw` in the directory `self`.
    pub fn join(&self, raw: &[u8]) -> (r: AbsPath)
        ensures
            r@ == joined(self@, raw@),
    {
        proof {
            use_type_invariant(self);
        }
        let absolute = raw.len() > 0 && raw[0] == SLASH;
        let mut names = if absolute {
            Vec::new()
        } else {
            copy_names(&self.names, self.names.len())
        };
        let ghost base = bytes::views(names@);
        let list = bytes::split(raw, SLASH);
        let ghost cut = bytes::pieces(raw@, SLASH);
        let mut i: usize = 0;
        proof {
            bytes::pieces_hold_no_separator(raw@, SLASH);
            assert(base =~= if absolute {
                Seq::empty()
            } else {
                self@
            });
            assert forall|k: int| 0 <= k < names@.len() implies valid_name(#[trigger] names@[k]@) by {
                assert(base[k] == self.names@[k]@);
            }
            assert(base + kept(cut.take(0)) =~= base);
        }
        while i < list.len()
            invariant
                i <= list@.len(),
                bytes::views(list@) == cut,
                forall|k: int| 0 <= k < cut.len() ==> !(#[trigger] cut[k]).contains(SLASH),
                forall|k: int| 0 <= k < names@.len() ==> valid_name(#[trigger] names@[k]@),
                bytes::views(names@) == base + kept(cut.take(i as int)),
            decreases list@.len() - i,
        {
            let piece = &list[i];
            assert(cut[i as int] == piece@);
            assert(cut.take(i + 1).drop_last() =~= cut.take(i as int));
            let lone_dot = piece.len() == 1 && piece[0] == DOT;
            assert(lone_dot == (piece@ =~= seq![DOT]));
            if piece.len() > 0 && !lone_dot {
                let ghost held = bytes::views(names@);
                names.push(bytes::copy(piece.as_slice()));
                assert(bytes::views(names@) =~= held.push(piece@));
                assert(held.push(piece@) =~= base + kept(cut.take(i as int)).push(piece@));
            }
            i += 1;
        }
        assert(cut.take(i as int) =~= cut);
        let r = AbsPath { names };
        assert(r@ =~= joined(self@, raw@));
        r
    }

    /// The number of names.
    pub fn depth(&self) -> (n: usize)
        ensures
            n == self@.len(),
    {
        self.names.len()
    }

    /// The name at place `i`.
    pub fn name_at(&self, i: usize) -> (r: &[u8])
        requires
            i < self@.len(),
        ensures
            r@ == self@[i as int],
            valid_name(r@),
    {
        proof {
            use_type_invariant(self);
        }
        self.names[i].as_slice()
    }

    /// The last name.
    pub fn file_name(&self) -> (r: Option<Vec<u8>>)
        ensures
            r is Some <==> file_name(self@) is Some,
            r matches Some(n) ==> n@ == file_name(self@)->0,
    {
        let n: usize = self.names.len();
        if n == 0 {
            return None;
        }
        let last = &self.names[n - 1];
        assert(self@.last() == last@);
        if last.len() == 2 && last[0] == DOT && last[1] == DOT {
            assert(last@ =~= seq![DOT, DOT]);
            return None;
        }
        Some(bytes::copy(last.as_slice()))
    }

    /// The path without its last name; the root has none.
    pub fn parent(&self) -> (r: Option<AbsPath>)
        ensures
            r is Some <==> self@.len() > 0,
            r matches Some(p) ==> p@ == self@.drop_last(),
    {
        proof {
            use_type_invariant(self);
        }
        let n: usize = self.names.len();
        if n == 0 {
            return None;
        }
        let names = copy_names(&self.names, n - 1);
        proof {
            assert(bytes::views(names@).len() == n - 1);
            assert forall|i: int| 0 <= i < names@.len() implies valid_name(#[trigger] names@[i]@) by {
                assert(bytes::views(names@)[i] == self.names@[i]@);
            }
        }
        let r = AbsPath { names };
        assert(r@ =~= self@.drop_last());
        Some(r)
    }

    /// Tells whether two paths are the same.
    pub fn same(&self, other: &AbsPath) -> (r: bool)
        ensures
            r == (self@ == other@),
    {
        if self.names.len() != other.names.len() {
            assert(self@.len() != other@.len());
            return false;
        }
        let r = self.starts_with(other);
        proof {
            if r {
                assert(self@ =~= other@);
            } else if self@ == other@ {
                assert(other@ =~= self@.subrange(0, other@.len() as int));
            }
        }
        r
    }

    /// Tells whether the path is `base` or lies below it.
    pub fn starts_with(&self, base: &AbsPath) -> (r: bool)
        ensures
            r == within(self@, base@),
    {
        let n: usize = base.names.len();
        if self.names.len() < n {
            return false;
        }
        let mut i: usize = 0;
        while i < n
            invariant
                i <= n <= self.names@.len(),
                n == base.names@.len(),
                forall|j: int| 0 <= j < i ==> self@[j] == #[trigger] base@[j],
            decreases n - i,
        {
            if !bytes::same(self.names[i].as_slice(), base.names[i].as_slice()) {
                assert(self@[i as int] != base@[i as int]);
                assert(self@.subrange(0, n as int)[i as int] == self@[i as int]);
                return false;
            }
            i += 1;
        }
        assert(base@ =~= self@.subrange(0, n as int));
        true
    }

    /// Writes the path out.
    pub fn to_bytes(&self) -> (r: Vec<u8>)
        ensures
            r@ == written(self@),
    {
        let mut out: Vec<u8> = Vec::new();
        if self.names.len() == 0 {
            out.push(SLASH);
            assert(out@ =~= written(self@));
            return out;
        }
        let mut i: usize = 0;
        assert(out@ =~= slashed(self@.take(0)));
        while i < self.names.len()
            invariant
                i <= self.names@.len(),
                out@ == slashed(self@.take(i as int)),
            decreases self.names@.len() - i,
        {
            let ghost held = out@;
            out.push(SLASH);
            out.extend_from_slice(self.names[i].as_slice());
            assert(out@ =~= held.push(SLASH) + self@[i as int]);
            assert(self@.take(i + 1).drop_last() =~= self@.take(i as int));
            i += 1;
        }
        assert(self@.take(i as int) =~= self@);
        out
    }

    /// The path as it is shown to a person.
    pub fn display(&self) -> (r: String)
        ensures
            r@ == display(self@),
    {
        text::show(self.to_bytes().as_slice())
    }

    /// Tells whether the path comes before `other` in the order of paths.
    pub fn precedes(&self, other: &AbsPath) -> (r: bool)
        ensures
            r == before(self@, other@),
    {
        let mut i: usize = 0;
        assert(self@.skip(0) =~= self@ && other@.skip(0) =~= other@);
        while i < self.names.len() && i < other.names.len()
            invariant
                i <= self.names@.len(),
                i <= other.names@.len(),
                before(self@, other@) == before(self@.skip(i as int), other@.skip(i as int)),
            decreases self.names@.len() - i,
        {
            let a = self.names[i].as_slice();
            let b = other.names[i].as_slice();
            assert(self@.skip(i as int)[0] == a@ && other@.skip(i as int)[0] == b@);
            if !bytes::same(a, b) {
                let b_up = b.len() == 2 && b[0] == DOT && b[1] == DOT;
                assert(b_up == (b@ =~= seq![DOT, DOT]));
                let a_up = a.len() == 2 && a[0] == DOT && a[1] == DOT;
                assert(a_up == (a@ =~= seq![DOT, DOT]));
                return !b_up && (a_up || bytes::precedes(a, b));
            }
            assert(self@.skip(i as int).skip(1) =~= self@.skip(i + 1));
            assert(other@.skip(i as int).skip(1) =~= other@.skip(i + 1));
            i += 1;
        }
        i < other.names.len()
    }
}

/// Tells whether one of two paths is the other or lies below it.
pub fn overlaps(a: &AbsPath, b: &AbsPath) -> (r: bool)
    ensures
        r == overlap(a@, b@),
{
    a.starts_with(b) || b.starts_with(a)
}

/// A name without its extension.
pub fn file_stem(name: &[u8]) -> (r: Vec<u8>)
    ensures
        r@ == stem(name@),
{
    let mut n: usize = name.len();
    assert(name@.take(n as int) =~= name@);
    while n > 0 && name[n - 1] != DOT
        invariant
            n <= name@.len(),
            last_dot(name@.take(n as int)) == last_dot(name@),
        decreases n,
    {
        assert(name@.take(n as int).drop_last() =~= name@.take(n - 1));
        n -= 1;
    }
    if n > 1 {
        bytes::head(name, n - 1)
    } else {
        bytes::copy(name)
    }
}

/// Every path overlaps itself.
pub proof fn overlap_is_reflexive(a: Seq<Seq<u8>>)
    ensures
        overlap(a, a),
{
    assert(a =~= a.subrange(0, a.len() as int));
}

/// Whether two paths overlap does not depend on their order.
pub proof fn overlap_is_symmetric(a: Seq<Seq<u8>>, b: Seq<Seq<u8>>)
    ensures
        overlap(a, b) == overlap(b, a),
{
}

/// What lies within a directory that lies within another lies within that other.
pub proof fn within_is_transitive(a: Seq<Seq<u8>>, b: Seq<Seq<u8>>, c: Seq<Seq<u8>>)
    requires
        within(a, b),
        within(b, c),
    ensures
        within(a, c),
{
    assert(c =~= a.subrange(0, c.len() as int)) by {
        assert forall|i: int| 0 <= i < c.len() implies c[i] == a[i] by {
            assert(b.subrange(0, c.len() as int)[i] == b[i]);
            assert(a.subrange(0, b.len() as int)[i] == a[i]);
        }
    }
}

/// Two paths that do not overlap have nothing below them in common.
pub proof fn disjoint_paths_share_nothing(a: Seq<Seq<u8>>, b: Seq<Seq<u8>>, p: Seq<Seq<u8>>)
    requires
        !overlap(a, b),
    ensures
        !(within(p, a) && within(p, b)),
{
    if within(p, a) && within(p, b) {
        if a.len() <= b.len() {
            assert(a =~= b.subrange(0, a.len() as int)) by {
                assert forall|i: int| 0 <= i < a.len() implies a[i] == b[i] by {
                    assert(p.subrange(0, a.len() as int)[i] == p[i]);
                    assert(p.subrange(0, b.len() as int)[i] == p[i]);
                }
            }
        } else {
            assert(b =~= a.subrange(0, b.len() as int)) by {
                assert forall|i: int| 0 <= i < b.len() implies b[i] == a[i] by {
                    assert(p.subrange(0, a.len() as int)[i] == p[i]);
                    assert(p.subrange(0, b.len() as int)[i] == p[i]);
                }
            }
        }
    }
}

/// The order of paths is strict.
pub proof fn before_is_irreflexive(a: Seq<Seq<u8>>)
    ensures
        !before(a, a),
    decreases a.len(),
{
    if a.len() > 0 {
        before_is_irreflexive(a.skip(1));
    }
}

/// The order of paths is transitive.
pub proof fn before_is_transitive(a: Seq<Seq<u8>>, b: Seq<Seq<u8>>, c: Seq<Seq<u8>>)
    requires
        before(a, b),
        before(b, c),
    ensures
        before(a, c),
    decreases a.len(),
{
    if a.len() > 0 {
        if a[0] == b[0] && b[0] == c[0] {
            before_is_transitive(a.skip(1), b.skip(1), c.skip(1));
        } else if a[0] != b[0] && b[0] != c[0] {
            if !is_parent(a[0]) {
                bytes::before_is_transitive(a[0], b[0], c[0]);
            }
            if a[0] == c[0] {
                bytes::before_is_irreflexive(a[0]);
            }
        }
    }
}

/// Of two different paths one comes before the other.
pub proof fn before_is_total(a: Seq<Seq<u8>>, b: Seq<Seq<u8>>)
    requires
        a != b,
    ensures
        before(a, b) || before(b, a),
    decreases a.len(),
{
    if a.len() > 0 && b.len() > 0 {
        if a[0] == b[0] {
            if a.skip(1) == b.skip(1) {
                assert(a =~= seq![a[0]] + a.skip(1));
                assert(b =~= seq![b[0]] + b.skip(1));
            }
            before_is_total(a.skip(1), b.skip(1));
        } else {
            bytes::before_is_total(a[0], b[0]);
        }
    } else if a.len() == 0 && b.len() == 0 {
        assert(a =~= b);
    }
}

/// The names in front of the last one are cut off as they were.
proof fn pieces_of_slashed(names: Seq<Seq<u8>>)
    requires
        valid(names),
    ensures
        bytes::pieces(slashed(names), SLASH) == seq![Seq::<u8>::empty()] + names,
    decreases names.len(),
{
    if names.len() == 0 {
        assert(seq![Seq::<u8>::empty()] + names =~= seq![Seq::<u8>::empty()]);
    } else {
        let front = slashed(names.drop_last());
        assert(valid(names.drop_last()));
        pieces_of_slashed(names.drop_last());
        assert(valid_name(names[names.len() - 1]));
        bytes::pieces_of_appended(front, names.last(), SLASH);
        assert(front.push(SLASH) + names.last() =~= slashed(names));
        assert((seq![Seq::<u8>::empty()] + names.drop_last()).push(names.last())
            =~= seq![Seq::<u8>::empty()] + names);
    }
}

/// Valid names all count.
proof fn kept_of_valid(names: Seq<Seq<u8>>)
    requires
        valid(names),
    ensures
        kept(seq![Seq::<u8>::empty()] + names) == names,
    decreases names.len(),
{
    let list = seq![Seq::<u8>::empty()] + names;
    reveal_with_fuel(kept, 2);
    if names.len() == 0 {
        assert(list.drop_last() =~= Seq::<Seq<u8>>::empty());
        assert(kept(list) =~= names);
    } else {
        assert(valid(names.drop_last()));
        kept_of_valid(names.drop_last());
        assert(valid_name(names[names.len() - 1]));
        assert(list.drop_last() =~= seq![Seq::<u8>::empty()] + names.drop_last());
        assert(list.last() == names.last());
        assert(kept(list) =~= names);
    }
}

/// Reading back a written path gives the path, in whatever directory it is read.
pub proof fn written_path_reads_back(base: Seq<Seq<u8>>, names: Seq<Seq<u8>>)
    requires
        valid(names),
    ensures
        joined(base, written(names)) == names,
{
    let raw = written(names);
    if names.len() == 0 {
        let slash = seq![SLASH];
        reveal_with_fuel(kept, 3);
        assert(slash.drop_last() =~= Seq::<u8>::empty());
        assert(bytes::pieces(slash.drop_last(), SLASH) =~= seq![Seq::<u8>::empty()]);
        let cut = bytes::pieces(slash, SLASH);
        assert(cut =~= seq![Seq::<u8>::empty(), Seq::<u8>::empty()]);
        assert(cut.drop_last() =~= seq![Seq::<u8>::empty()]);
        assert(cut.drop_last().drop_last() =~= Seq::<Seq<u8>>::empty());
        assert(kept(cut.drop_last()) =~= Seq::<Seq<u8>>::empty());
        assert(components(raw) =~= names);
    } else {
        pieces_of_slashed(names);
        kept_of_valid(names);
        slashed_begins_with_slash(names);
    }
}

/// A path with names begins with a slash when it is written.
proof fn slashed_begins_with_slash(names: Seq<Seq<u8>>)
    requires
        names.len() > 0,
    ensures
        slashed(names).len() > 0,
        slashed(names)[0] == SLASH,
    decreases names.len(),
{
    reveal_with_fuel(slashed, 2);
    if names.len() > 1 {
        slashed_begins_with_slash(names.drop_last());
    }
}

/// A file name, read as a written path, is relative and has that name as its only component.
pub proof fn file_name_is_one_component(name: Seq<u8>)
    requires
        valid_name(name),
    ensures
        !is_absolute(name),
        components(name) == seq![name],
{
    bytes::pieces_without_separator(name, SLASH);
    assert(bytes::pieces(name, SLASH) =~= seq![name]);
    reveal_with_fuel(kept, 2);
    assert(seq![name].drop_last() =~= Seq::<Seq<u8>>::empty());
    assert(kept(seq![name]) =~= seq![name]);
    if is_absolute(name) {
        assert(name.contains(SLASH));
    }
}

/// What lies within a directory is that directory's path with more names, and whatever has more
/// names lies within.
pub proof fn within_is_below(base: Seq<Seq<u8>>, rest: Seq<Seq<u8>>, p: Seq<Seq<u8>>)
    ensures
        within(base + rest, base),
        within(p, base) ==> p == base + p.skip(base.len() as int),
        within(p, base) && within(base, p) ==> p == base,
{
    assert(base =~= (base + rest).subrange(0, base.len() as int));
    if within(p, base) {
        assert(p =~= base + p.skip(base.len() as int));
        if within(base, p) {
            assert(p =~= base);
        }
    }
}

/// Paths that part at a name do not overlap, and a path overlaps all that lies below it.
pub proof fn parted_paths_do_not_overlap(
    stem: Seq<Seq<u8>>,
    x: Seq<u8>,
    y: Seq<u8>,
    a: Seq<Seq<u8>>,
    b: Seq<Seq<u8>>,
)
    ensures
        x != y ==> !overlap(stem.push(x) + a, stem.push(y) + b),
        overlap(stem, stem + a),
        overlap(stem + a, stem),
{
    let p = stem.push(x) + a;
    let q = stem.push(y) + b;
    let k = stem.len() as int;
    if x != y {
        if within(p, q) {
            assert(p.subrange(0, q.len() as int)[k] == p[k]);
        }
        if within(q, p) {
            assert(q.subrange(0, p.len() as int)[k] == q[k]);
        }
    }
    within_is_below(stem, a, stem);
}

/// Pieces count one by one.
proof fn kept_of_joined(a: Seq<Seq<u8>>, b: Seq<Seq<u8>>)
    ensures
        kept(a + b) == kept(a) + kept(b),
    decreases b.len(),
{
    if b.len() == 0 {
        assert(a + b =~= a);
        assert(kept(a) + kept(b) =~= kept(a));
    } else {
        kept_of_joined(a, b.drop_last());
        assert((a + b).drop_last() =~= a + b.drop_last());
        assert(kept(a + b) =~= kept(a) + kept(b));
    }
}

/// What is written on both sides of a slash are the names of the one and then those of the other.
pub proof fn slash_separates(x: Seq<u8>, y: Seq<u8>)
    ensures
        components(x.push(SLASH) + y) == components(x) + components(y),
{
    bytes::pieces_of_joined(x, y, SLASH);
    kept_of_joined(bytes::pieces(x, SLASH), bytes::pieces(y, SLASH));
}

/// A slash too many and a single dot name nothing.
pub proof fn slash_and_dot_name_nothing(x: Seq<u8>)
    ensures
        components(x.push(SLASH)) == components(x),
        components(x.push(SLASH).push(DOT)) == components(x),
{
    let nothing = Seq::<u8>::empty();
    let dot = seq![DOT];
    reveal_with_fuel(kept, 2);
    slash_separates(x, nothing);
    slash_separates(x, dot);
    assert(bytes::pieces(nothing, SLASH) =~= seq![nothing]);
    assert(seq![nothing].drop_last() =~= Seq::<Seq<u8>>::empty());
    assert(kept(seq![nothing]) =~= Seq::<Seq<u8>>::empty());
    assert(!dot.contains(SLASH));
    bytes::pieces_without_separator(dot, SLASH);
    assert(seq![dot].drop_last() =~= Seq::<Seq<u8>>::empty());
    assert(kept(seq![dot]) =~= Seq::<Seq<u8>>::empty());
    assert(x.push(SLASH) + nothing =~= x.push(SLASH));
    assert(x.push(SLASH) + dot =~= x.push(SLASH).push(DOT));
    assert(components(x) + Seq::<Seq<u8>>::empty() =~= components(x));
}

/// A path that begins with a slash means the same in every directory; any other continues the path
/// of the directory that it is read in.
pub proof fn slash_in_front_decides(a: Seq<Seq<u8>>, b: Seq<Seq<u8>>, raw: Seq<u8>)
    ensures
        raw.len() > 0 && raw[0] == 47 ==> joined(a, raw) == joined(b, raw) && joined(a, raw)
            == components(raw),
        raw.len() == 0 || raw[0] != 47 ==> joined(a, raw) == a + components(raw),
{
}

/// A path ends in the name that was added last, unless that is the step to the parent.
pub proof fn added_name_is_the_file_name(p: Seq<Seq<u8>>, name: Seq<u8>)
    ensures
        name != seq![46u8, 46u8] ==> file_name(p.push(name)) == Some(name),
        name == seq![46u8, 46u8] ==> file_name(p.push(name)) is None,
        file_name(p) matches Some(n) ==> p.len() > 0 && p == p.drop_last().push(n),
{
    assert(p.push(name).last() == name);
    if p.len() > 0 {
        assert(p =~= p.drop_last().push(p.last()));
    }
}

/// The last dot of a text behind its last dot.
proof fn last_dot_of_extended(a: Seq<u8>, b: Seq<u8>)
    requires
        !b.contains(DOT),
    ensures
        last_dot(a.push(DOT) + b) == a.len(),
    decreases b.len(),
{
    let name = a.push(DOT) + b;
    if b.len() == 0 {
        assert(name =~= a.push(DOT));
    } else {
        assert(b[b.len() - 1] != DOT);
        assert forall|i: int| 0 <= i < b.drop_last().len() implies b.drop_last()[i] != DOT by {
            assert(b.drop_last()[i] == b[i]);
        }
        last_dot_of_extended(a, b.drop_last());
        assert(name.drop_last() =~= a.push(DOT) + b.drop_last());
        assert(name.last() == b.last());
    }
}

/// A name without a dot has none to find.
proof fn last_dot_of_plain(b: Seq<u8>)
    requires
        !b.contains(DOT),
    ensures
        last_dot(b) == -1,
    decreases b.len(),
{
    if b.len() > 0 {
        assert(b[b.len() - 1] != DOT);
        assert forall|i: int| 0 <= i < b.drop_last().len() implies b.drop_last()[i] != DOT by {
            assert(b.drop_last()[i] == b[i]);
        }
        last_dot_of_plain(b.drop_last());
    }
}

/// The extension that a name loses is its last dot with what follows; a name that begins with its
/// only dot, or has none, stays whole.
pub proof fn stem_loses_the_extension(a: Seq<u8>, b: Seq<u8>)
    requires
        !b.contains(46),
    ensures
        a.len() > 0 ==> stem(a.push(46) + b) == a,
        stem(b) == b,
        stem(seq![46u8] + b) == seq![46u8] + b,
{
    last_dot_of_extended(a, b);
    last_dot_of_plain(b);
    let none = Seq::<u8>::empty();
    last_dot_of_extended(none, b);
    assert(none.push(DOT) + b =~= seq![46u8] + b);
    assert((a.push(46) + b).take(a.len() as int) =~= a);
}

/// The first name in which two paths differ decides their order: the parent step comes first, the
/// others go by their bytes.
pub proof fn first_different_name_decides(
    p: Seq<Seq<u8>>,
    x: Seq<u8>,
    y: Seq<u8>,
    a: Seq<Seq<u8>>,
    b: Seq<Seq<u8>>,
)
    requires
        x != y,
    ensures
        before(p + seq![x] + a, p + seq![y] + b) == (y != seq![46u8, 46u8] && (x == seq![46u8, 46u8]
            || bytes::before(x, y))),
    decreases p.len(),
{
    let s = p + seq![x] + a;
    let t = p + seq![y] + b;
    if p.len() > 0 {
        first_different_name_decides(p.skip(1), x, y, a, b);
        assert(s.skip(1) =~= p.skip(1) + seq![x] + a);
        assert(t.skip(1) =~= p.skip(1) + seq![y] + b);
    } else {
        assert(s[0] == x && t[0] == y);
    }
}

/// A path comes before all that lies below it.
pub proof fn directory_comes_first(p: Seq<Seq<u8>>, a: Seq<Seq<u8>>)
    requires
        a.len() > 0,
    ensures
        before(p, p + a),
    decreases p.len(),
{
    if p.len() > 0 {
        directory_comes_first(p.skip(1), a);
        assert((p + a).skip(1) =~= p.skip(1) + a);
    }
}

} // verus!
