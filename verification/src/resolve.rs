//! Resolution of a path against a disk, one question at a time.
//!
//! The existing part of a path is replaced by its canonical spelling name by name, so that paths
//! that do not exist yet, and paths that pass through symbolic links, can be compared safely.

use crate::path;
use crate::path::AbsPath;
use vstd::prelude::*;
use vstd::string::*;

verus! {

/// What the disk holds at a path.
pub enum Probe {
    /// Nothing.
    Missing,
    /// Something, with this canonical path.
    Canonical(AbsPath),
    /// A symbolic link that leads nowhere.
    Dangling,
}

/// What the disk holds at a path, as a value.
pub enum Sight {
    Missing,
    Canonical(Seq<Seq<u8>>),
    Dangling,
}

impl View for Probe {
    type V = Sight;

    open spec fn view(&self) -> Sight {
        match *self {
            Probe::Missing => Sight::Missing,
            Probe::Canonical(p) => Sight::Canonical(p@),
            Probe::Dangling => Sight::Dangling,
        }
    }
}

/// How a resolution ends.
pub enum Ending {
    /// With the resolved path.
    Resolved(Seq<Seq<u8>>),
    /// At a symbolic link that leads nowhere.
    Dangling(Seq<Seq<u8>>),
}

/// The directory above; the root is its own.
pub open spec fn above(names: Seq<Seq<u8>>) -> Seq<Seq<u8>> {
    if names.len() == 0 {
        names
    } else {
        names.drop_last()
    }
}

/// Where the names `rest` lead from `out` on a disk.
pub open spec fn descent(
    disk: spec_fn(Seq<Seq<u8>>) -> Sight,
    out: Seq<Seq<u8>>,
    rest: Seq<Seq<u8>>,
) -> Ending
    decreases rest.len(),
{
    if rest.len() == 0 {
        Ending::Resolved(out)
    } else if path::is_parent(rest[0]) {
        descent(disk, above(out), rest.skip(1))
    } else {
        let at = out.push(rest[0]);
        match disk(at) {
            Sight::Missing => descent(disk, at, rest.skip(1)),
            Sight::Canonical(p) => descent(disk, p, rest.skip(1)),
            Sight::Dangling => Ending::Dangling(at),
        }
    }
}

/// Where the names `rest` lead once the disk has been asked about `at`.
pub open spec fn outlook(
    disk: spec_fn(Seq<Seq<u8>>) -> Sight,
    at: Seq<Seq<u8>>,
    rest: Seq<Seq<u8>>,
) -> Ending {
    match disk(at) {
        Sight::Missing => descent(disk, at, rest),
        Sight::Canonical(p) => descent(disk, p, rest),
        Sight::Dangling => Ending::Dangling(at),
    }
}

/// What a path resolves to on a disk: the root is looked at first, then each name in turn.
pub open spec fn resolved(disk: spec_fn(Seq<Seq<u8>>) -> Sight, names: Seq<Seq<u8>>) -> Ending {
    outlook(disk, Seq::empty(), names)
}

/// The next move of a resolution, as a value.
pub enum Move {
    /// Ask the disk about `at`, with `rest` still to follow.
    Ask { at: Seq<Seq<u8>>, rest: Seq<Seq<u8>> },
    /// Stop.
    Stop(Ending),
}

/// The next move from `out` with the names `rest` ahead: parent steps need no question.
pub open spec fn advanced(out: Seq<Seq<u8>>, rest: Seq<Seq<u8>>) -> Move
    decreases rest.len(),
{
    if rest.len() == 0 {
        Move::Stop(Ending::Resolved(out))
    } else if path::is_parent(rest[0]) {
        advanced(above(out), rest.skip(1))
    } else {
        Move::Ask { at: out.push(rest[0]), rest: rest.skip(1) }
    }
}

/// The next move after the disk has answered about `at`.
pub open spec fn answered(at: Seq<Seq<u8>>, rest: Seq<Seq<u8>>, sight: Sight) -> Move {
    match sight {
        Sight::Missing => advanced(at, rest),
        Sight::Canonical(p) => advanced(p, rest),
        Sight::Dangling => Move::Stop(Ending::Dangling(at)),
    }
}

/// A resolution that waits for news of one path.
pub struct Resolution {
    at: AbsPath,
    path: AbsPath,
    next: usize,
}

/// What a resolution wants after an answer.
pub enum Turn {
    /// One more answer.
    Ask(Resolution),
    /// Nothing: the path is resolved.
    Done(AbsPath),
    /// Nothing: this symbolic link leads nowhere.
    Dangling(AbsPath),
}

impl View for Turn {
    type V = Move;

    open spec fn view(&self) -> Move {
        match *self {
            Turn::Ask(r) => Move::Ask { at: r.asked(), rest: r.rest() },
            Turn::Done(p) => Move::Stop(Ending::Resolved(p@)),
            Turn::Dangling(p) => Move::Stop(Ending::Dangling(p@)),
        }
    }
}

impl Resolution {
    #[verifier::type_invariant]
    spec fn in_range(self) -> bool {
        self.next <= self.path@.len()
    }

    /// The path in question.
    pub closed spec fn asked(self) -> Seq<Seq<u8>> {
        self.at@
    }

    /// The names that still follow.
    pub closed spec fn rest(self) -> Seq<Seq<u8>> {
        self.path@.skip(self.next as int)
    }

    /// Begins to resolve `path`, with a question about the root.
    pub fn absolute(path: AbsPath) -> (r: Resolution)
        ensures
            r.asked() == Seq::<Seq<u8>>::empty(),
            r.rest() == path@,
    {
        let r = Resolution { at: AbsPath::root(), path, next: 0 };
        assert(path@.skip(0) =~= path@);
        r
    }

    /// The path that the disk is to be asked about.
    pub fn subject(&self) -> (p: &AbsPath)
        ensures
            p@ == self.asked(),
    {
        &self.at
    }

    /// Takes the answer and moves on.
    pub fn resume(self, probe: Probe) -> (t: Turn)
        ensures
            t@ == answered(self.asked(), self.rest(), probe@),
    {
        proof {
            use_type_invariant(&self);
        }
        let Resolution { at, path, next } = self;
        let mut out = match probe {
            Probe::Missing => at,
            Probe::Canonical(p) => p,
            Probe::Dangling => {
                return Turn::Dangling(at);
            },
        };
        let mut i: usize = next;
        let ghost wanted = advanced(out@, path@.skip(i as int));
        while i < path.depth()
            invariant
                i <= path@.len(),
                wanted == advanced(out@, path@.skip(i as int)),
                wanted == answered(self.asked(), self.rest(), probe@),
            decreases path@.len() - i,
        {
            let name = path.name_at(i);
            assert(path@.skip(i as int)[0] == name@);
            assert(path@.skip(i as int).skip(1) =~= path@.skip(i + 1));
            if name.len() == 2 && name[0] == path::DOT && name[1] == path::DOT {
                assert(name@ =~= seq![path::DOT, path::DOT]);
                match out.parent() {
                    Some(p) => {
                        out = p;
                    },
                    None => {},
                }
            } else {
                proof {
                    path::file_name_is_one_component(name@);
                    assert(out@ + seq![name@] =~= out@.push(name@));
                }
                let at = out.join(name);
                return Turn::Ask(Resolution { at, path, next: i + 1 });
            }
            i += 1;
        }
        Turn::Done(out)
    }
}

/// Moving on after parent steps loses nothing of what lies ahead.
proof fn advanced_keeps_descent(
    disk: spec_fn(Seq<Seq<u8>>) -> Sight,
    out: Seq<Seq<u8>>,
    rest: Seq<Seq<u8>>,
)
    ensures
        descent(disk, out, rest) == match advanced(out, rest) {
            Move::Ask { at, rest: ahead } => outlook(disk, at, ahead),
            Move::Stop(e) => e,
        },
        advanced(out, rest) matches Move::Ask { at, rest: ahead } ==> ahead.len() < rest.len(),
    decreases rest.len(),
{
    if rest.len() > 0 && path::is_parent(rest[0]) {
        advanced_keeps_descent(disk, above(out), rest.skip(1));
    }
}

/// Answering each question as the disk would leads to what the path resolves to on that disk, and
/// every answer leaves fewer names ahead.
pub proof fn answers_lead_to_the_resolved_path(
    disk: spec_fn(Seq<Seq<u8>>) -> Sight,
    at: Seq<Seq<u8>>,
    rest: Seq<Seq<u8>>,
)
    ensures
        outlook(disk, at, rest) == match answered(at, rest, disk(at)) {
            Move::Ask { at: then_at, rest: ahead } => outlook(disk, then_at, ahead),
            Move::Stop(e) => e,
        },
        answered(at, rest, disk(at)) matches Move::Ask { at: then_at, rest: ahead } ==> ahead.len()
            < rest.len(),
{
    match disk(at) {
        Sight::Missing => advanced_keeps_descent(disk, at, rest),
        Sight::Canonical(p) => advanced_keeps_descent(disk, p, rest),
        Sight::Dangling => {},
    }
}

/// Canonical answers of a disk are free of parent steps.
pub open spec fn answers_directly(disk: spec_fn(Seq<Seq<u8>>) -> Sight) -> bool {
    forall|p: Seq<Seq<u8>>| (#[trigger] disk(p)) matches Sight::Canonical(c) ==> path::direct(c)
}

/// Names below a direct path resolve to a direct path.
proof fn descent_is_direct(
    disk: spec_fn(Seq<Seq<u8>>) -> Sight,
    out: Seq<Seq<u8>>,
    rest: Seq<Seq<u8>>,
)
    requires
        answers_directly(disk),
        path::direct(out),
    ensures
        descent(disk, out, rest) matches Ending::Resolved(p) ==> path::direct(p),
    decreases rest.len(),
{
    if rest.len() > 0 {
        if path::is_parent(rest[0]) {
            assert(path::direct(above(out)));
            descent_is_direct(disk, above(out), rest.skip(1));
        } else {
            let at = out.push(rest[0]);
            assert(path::direct(at));
            match disk(at) {
                Sight::Missing => descent_is_direct(disk, at, rest.skip(1)),
                Sight::Canonical(p) => descent_is_direct(disk, p, rest.skip(1)),
                Sight::Dangling => {},
            }
        }
    }
}

/// A resolved path holds no parent step, however many the path that led to it held.
pub proof fn resolved_paths_are_direct(
    disk: spec_fn(Seq<Seq<u8>>) -> Sight,
    names: Seq<Seq<u8>>,
)
    requires
        answers_directly(disk),
    ensures
        resolved(disk, names) matches Ending::Resolved(p) ==> path::direct(p),
{
    let root = Seq::<Seq<u8>>::empty();
    match disk(root) {
        Sight::Missing => descent_is_direct(disk, root, names),
        Sight::Canonical(p) => descent_is_direct(disk, p, names),
        Sight::Dangling => {},
    }
}

/// Nothing on the way along a path is spelt otherwise than canonically.
pub open spec fn settled(disk: spec_fn(Seq<Seq<u8>>) -> Sight, names: Seq<Seq<u8>>) -> bool {
    forall|k: int|
        0 <= k <= names.len() ==> {
            let part = #[trigger] names.take(k);
            disk(part) == Sight::Missing || disk(part) == Sight::Canonical(part)
        }
}

/// A disk that stands still: what it calls canonical stays so, and every part of it does.
pub open spec fn steady(disk: spec_fn(Seq<Seq<u8>>) -> Sight) -> bool {
    &&& answers_directly(disk)
    &&& settled(disk, Seq::empty())
    &&& forall|p: Seq<Seq<u8>>| (#[trigger] disk(p)) matches Sight::Canonical(c) ==> settled(disk, c)
}

/// A settled path with one more name, where nothing is found, is settled.
proof fn missing_name_settles(
    disk: spec_fn(Seq<Seq<u8>>) -> Sight,
    out: Seq<Seq<u8>>,
    name: Seq<u8>,
)
    requires
        settled(disk, out),
        disk(out.push(name)) == Sight::Missing,
    ensures
        settled(disk, out.push(name)),
{
    let at = out.push(name);
    assert forall|k: int| 0 <= k <= at.len() implies {
        let part = #[trigger] at.take(k);
        disk(part) == Sight::Missing || disk(part) == Sight::Canonical(part)
    } by {
        if k == at.len() {
            assert(at.take(k) =~= at);
        } else {
            assert(at.take(k) =~= out.take(k));
        }
    }
}

/// Names below a settled path lead to a settled path.
proof fn descent_settles(
    disk: spec_fn(Seq<Seq<u8>>) -> Sight,
    out: Seq<Seq<u8>>,
    rest: Seq<Seq<u8>>,
)
    requires
        steady(disk),
        settled(disk, out),
    ensures
        descent(disk, out, rest) matches Ending::Resolved(p) ==> settled(disk, p),
    decreases rest.len(),
{
    if rest.len() > 0 {
        if path::is_parent(rest[0]) {
            assert forall|k: int| 0 <= k <= above(out).len() implies {
                let part = #[trigger] above(out).take(k);
                disk(part) == Sight::Missing || disk(part) == Sight::Canonical(part)
            } by {
                assert(above(out).take(k) =~= out.take(k));
            }
            descent_settles(disk, above(out), rest.skip(1));
        } else {
            let at = out.push(rest[0]);
            match disk(at) {
                Sight::Missing => {
                    missing_name_settles(disk, out, rest[0]);
                    descent_settles(disk, at, rest.skip(1));
                },
                Sight::Canonical(p) => descent_settles(disk, p, rest.skip(1)),
                Sight::Dangling => {},
            }
        }
    }
}

/// On a disk that stands still, nothing on the way along a resolved path is a symbolic link: each
/// part of it is its own canonical spelling, or is not there.
pub proof fn resolved_paths_pass_through_no_link(
    disk: spec_fn(Seq<Seq<u8>>) -> Sight,
    names: Seq<Seq<u8>>,
)
    requires
        steady(disk),
    ensures
        resolved(disk, names) matches Ending::Resolved(p) ==> settled(disk, p),
{
    let root = Seq::<Seq<u8>>::empty();
    assert(root.take(0) =~= root);
    match disk(root) {
        Sight::Missing => descent_settles(disk, root, names),
        Sight::Canonical(p) => descent_settles(disk, p, names),
        Sight::Dangling => {},
    }
}

/// A settled path without parent steps resolves to itself.
proof fn settled_path_stays(
    disk: spec_fn(Seq<Seq<u8>>) -> Sight,
    names: Seq<Seq<u8>>,
    k: int,
)
    requires
        settled(disk, names),
        path::direct(names),
        0 <= k <= names.len(),
    ensures
        descent(disk, names.take(k), names.skip(k)) == Ending::Resolved(names),
    decreases names.len() - k,
{
    if k == names.len() {
        assert(names.take(k) =~= names);
    } else {
        let rest = names.skip(k);
        assert(rest[0] == names[k]);
        assert(rest.skip(1) =~= names.skip(k + 1));
        assert(names.take(k).push(names[k]) =~= names.take(k + 1));
        settled_path_stays(disk, names, k + 1);
    }
}

/// On a disk that stands still, resolving a path a second time changes nothing.
pub proof fn resolving_twice_is_resolving_once(
    disk: spec_fn(Seq<Seq<u8>>) -> Sight,
    names: Seq<Seq<u8>>,
)
    requires
        steady(disk),
    ensures
        resolved(disk, names) matches Ending::Resolved(p) ==> resolved(disk, p)
            == Ending::Resolved(p),
{
    let root = Seq::<Seq<u8>>::empty();
    assert(root.take(0) =~= root);
    match resolved(disk, names) {
        Ending::Resolved(p) => {
            resolved_paths_are_direct(disk, names);
            resolved_paths_pass_through_no_link(disk, names);
            settled_path_stays(disk, p, 0);
            assert(p.take(0) =~= root);
            assert(p.skip(0) =~= p);
        },
        Ending::Dangling(_) => {},
    }
}

/// The complaint about a symbolic link that leads nowhere.
pub fn dangling_error(at: &AbsPath) -> (r: String)
    ensures
        r@ == "dangling symlink: "@ + path::display(at@),
{
    let mut out = "dangling symlink: ".to_owned();
    out.append(at.display().as_str());
    out
}

/// One more name at the end.
proof fn descent_goes_on(
    disk: spec_fn(Seq<Seq<u8>>) -> Sight,
    out: Seq<Seq<u8>>,
    rest: Seq<Seq<u8>>,
    name: Seq<u8>,
)
    ensures
        descent(disk, out, rest.push(name)) == match descent(disk, out, rest) {
            Ending::Dangling(p) => Ending::Dangling(p),
            Ending::Resolved(p) => descent(disk, p, seq![name]),
        },
    decreases rest.len(),
{
    let longer = rest.push(name);
    if rest.len() == 0 {
        assert(longer =~= seq![name]);
    } else {
        assert(longer[0] == rest[0]);
        assert(longer.skip(1) =~= rest.skip(1).push(name));
        if path::is_parent(rest[0]) {
            descent_goes_on(disk, above(out), rest.skip(1), name);
        } else {
            let at = out.push(rest[0]);
            match disk(at) {
                Sight::Missing => descent_goes_on(disk, at, rest.skip(1), name),
                Sight::Canonical(p) => descent_goes_on(disk, p, rest.skip(1), name),
                Sight::Dangling => {},
            }
        }
    }
}

/// A path is resolved name by name. The root is what the disk says it is. After a resolved path, the
/// step to the parent leads to the directory above, which at the root is the root; any other name
/// leads to its canonical path where something is there, stays as it is where nothing is, and ends
/// the resolution where it is a symbolic link that leads nowhere.
pub proof fn paths_are_resolved_name_by_name(
    disk: spec_fn(Seq<Seq<u8>>) -> Sight,
    names: Seq<Seq<u8>>,
    name: Seq<u8>,
)
    ensures
        resolved(disk, Seq::empty()) == match disk(Seq::empty()) {
            Sight::Missing => Ending::Resolved(Seq::empty()),
            Sight::Canonical(p) => Ending::Resolved(p),
            Sight::Dangling => Ending::Dangling(Seq::empty()),
        },
        resolved(disk, names) matches Ending::Dangling(p) ==> resolved(disk, names.push(name))
            == Ending::Dangling(p),
        resolved(disk, names) matches Ending::Resolved(p) ==> resolved(disk, names.push(name)) == (
        if name == seq![46u8, 46u8] {
            Ending::Resolved(
                if p.len() == 0 {
                    p
                } else {
                    p.drop_last()
                },
            )
        } else {
            match disk(p.push(name)) {
                Sight::Missing => Ending::Resolved(p.push(name)),
                Sight::Canonical(c) => Ending::Resolved(c),
                Sight::Dangling => Ending::Dangling(p.push(name)),
            }
        }),
{
    let root = Seq::<Seq<u8>>::empty();
    reveal_with_fuel(descent, 3);
    match disk(root) {
        Sight::Missing => descent_goes_on(disk, root, names, name),
        Sight::Canonical(p) => descent_goes_on(disk, p, names, name),
        Sight::Dangling => {},
    }
    assert(seq![name].skip(1) =~= Seq::<Seq<u8>>::empty());
}

} // verus!
