//! What can be removed, and what Git registers.

use crate::bytes;
use crate::path;
use crate::path::AbsPath;
use crate::text;
use vstd::prelude::*;
use vstd::string::*;
use vstd::utf8::*;

verus! {

/// What an entry is.
#[derive(Clone, Copy, Debug, PartialEq, Eq, Structural)]
pub enum Kind {
    /// The main checkout.
    Main,
    /// A registered worktree.
    Worktree,
    /// A leftover directory that is registered no more.
    Stale,
    /// A target directory that belongs to nothing.
    Orphan,
}

/// One place that can be listed and, perhaps, removed.
#[derive(Debug)]
pub struct Entry {
    /// The directory itself.
    pub path: AbsPath,
    /// The branch that is checked out there.
    pub branch: Option<String>,
    /// Its Cargo target directory.
    pub target: AbsPath,
    /// What it is.
    pub kind: Kind,
    /// Git has been told to keep it.
    pub locked: bool,
}

/// An entry as a value.
#[verifier::ext_equal]
pub struct EntryView {
    pub path: Seq<Seq<u8>>,
    pub branch: Option<Seq<char>>,
    pub target: Seq<Seq<u8>>,
    pub kind: Kind,
    pub locked: bool,
}

impl View for Entry {
    type V = EntryView;

    open spec fn view(&self) -> EntryView {
        EntryView {
            path: self.path@,
            branch: text::optional(self.branch),
            target: self.target@,
            kind: self.kind,
            locked: self.locked,
        }
    }
}

/// The contents of a list of entries.
pub open spec fn views(list: Seq<Entry>) -> Seq<EntryView> {
    Seq::new(list.len(), |i: int| list[i]@)
}

/// The name of an entry: the last name of its path, as it is shown; empty where there is none.
pub open spec fn name_of(path: Seq<Seq<u8>>) -> Seq<char> {
    match path::file_name(path) {
        Some(n) => text::shown(n),
        None => text::shown(Seq::empty()),
    }
}

impl Clone for Entry {
    fn clone(&self) -> (r: Self)
        ensures
            r@ == self@,
    {
        Entry {
            path: self.path.clone(),
            branch: clone_text(&self.branch),
            target: self.target.clone(),
            kind: self.kind,
            locked: self.locked,
        }
    }
}

/// A copy of an optional text.
pub fn clone_text(s: &Option<String>) -> (r: Option<String>)
    ensures
        text::optional(r) == text::optional(*s),
{
    match s {
        Some(t) => Some(t.clone()),
        None => None,
    }
}

impl Entry {
    /// The name of the entry.
    pub fn name(&self) -> (r: String)
        ensures
            r@ == name_of(self.path@),
    {
        match self.path.file_name() {
            Some(n) => text::show(n.as_slice()),
            None => {
                let none: Vec<u8> = Vec::new();
                assert(none@ =~= Seq::<u8>::empty());
                text::show(none.as_slice())
            },
        }
    }
}

/// The word for a kind.
pub open spec fn kind_word(kind: Kind) -> Seq<char> {
    match kind {
        Kind::Main => "Main"@,
        Kind::Worktree => "Worktree"@,
        Kind::Stale => "Stale"@,
        Kind::Orphan => "Orphan"@,
    }
}

/// The word for a kind, in lower case.
pub open spec fn kind_state(kind: Kind) -> Seq<char> {
    match kind {
        Kind::Main => "main"@,
        Kind::Worktree => "worktree"@,
        Kind::Stale => "stale"@,
        Kind::Orphan => "orphan"@,
    }
}

impl Kind {
    /// The word for the kind.
    pub fn word(&self) -> (r: &'static str)
        ensures
            r@ == kind_word(*self),
    {
        match self {
            Kind::Main => "Main",
            Kind::Worktree => "Worktree",
            Kind::Stale => "Stale",
            Kind::Orphan => "Orphan",
        }
    }

    /// The word for the kind, in lower case.
    pub fn state(&self) -> (r: &'static str)
        ensures
            r@ == kind_state(*self),
    {
        match self {
            Kind::Main => "main",
            Kind::Worktree => "worktree",
            Kind::Stale => "stale",
            Kind::Orphan => "orphan",
        }
    }
}

/// One worktree as Git lists it.
#[derive(Debug)]
pub struct Registration {
    /// Its path, as it is written.
    pub path: Vec<u8>,
    /// The branches named for it, in order. Git names at most one.
    pub branches: Vec<Vec<u8>>,
    /// It is locked.
    pub locked: bool,
}

/// One listed worktree, as a value.
#[verifier::ext_equal]
pub struct Record {
    pub path: Seq<u8>,
    pub branches: Seq<Seq<u8>>,
    pub locked: bool,
}

impl View for Registration {
    type V = Record;

    open spec fn view(&self) -> Record {
        Record {
            path: self.path@,
            branches: bytes::views(self.branches@),
            locked: self.locked,
        }
    }
}

/// The contents of a list of registrations.
pub open spec fn registration_views(list: Seq<Registration>) -> Seq<Record> {
    Seq::new(list.len(), |i: int| list[i]@)
}

/// A record with what one more field says of it.
pub open spec fn noted(r: Record, field: Seq<u8>) -> Record {
    Record {
        path: r.path,
        branches: if bytes::begins(field, "branch refs/heads/"@) {
            r.branches.push(bytes::after(field, "branch refs/heads/"@))
        } else {
            r.branches
        },
        locked: r.locked || bytes::begins(field, "locked"@),
    }
}

/// The worktrees that a row of fields describes: one begins at each `worktree` field, and the
/// fields up to the next speak of it.
pub open spec fn records(fields: Seq<Seq<u8>>) -> Seq<Record>
    decreases fields.len(),
{
    if fields.len() == 0 {
        Seq::empty()
    } else {
        let done = records(fields.drop_last());
        let field = fields.last();
        if bytes::begins(field, "worktree "@) {
            done.push(
                Record {
                    path: bytes::after(field, "worktree "@),
                    branches: Seq::empty(),
                    locked: false,
                },
            )
        } else if done.len() == 0 {
            done
        } else {
            done.drop_last().push(noted(done.last(), field))
        }
    }
}

/// The worktrees in a listing whose fields end in zero bytes.
pub open spec fn listed(raw: Seq<u8>) -> Seq<Record> {
    records(bytes::pieces(raw, 0))
}

/// Reads the output of `git worktree list --porcelain -z`.
pub fn parse_registrations(raw: &[u8]) -> (r: Vec<Registration>)
    ensures
        registration_views(r@) == listed(raw@),
{
    let fields = bytes::split(raw, 0);
    let ghost all = bytes::views(fields@);
    let mut done: Vec<Registration> = Vec::new();
    let mut i: usize = 0;
    assert(registration_views(done@) =~= records(all.take(0)));
    while i < fields.len()
        invariant
            i <= fields@.len(),
            all == bytes::views(fields@),
            registration_views(done@) == records(all.take(i as int)),
        decreases fields@.len() - i,
    {
        let field = fields[i].as_slice();
        let ghost so_far = registration_views(done@);
        assert(all.take(i + 1).drop_last() =~= all.take(i as int));
        assert(all.take(i + 1).last() == field@);
        let head = "worktree ".as_bytes();
        if bytes::has_prefix(field, head) {
            let next = Registration {
                path: bytes::tail(field, head.len()),
                branches: Vec::new(),
                locked: false,
            };
            assert(next@.branches =~= Seq::<Seq<u8>>::empty());
            let ghost added = next@;
            done.push(next);
            assert(registration_views(done@) =~= so_far.push(added));
        } else if let Some(last) = done.pop() {
            let mut current = last;
            assert(so_far.last() == current@);
            assert(registration_views(done@) =~= so_far.drop_last());
            let ghost was = current@;
            let mark = "branch refs/heads/".as_bytes();
            if bytes::has_prefix(field, mark) {
                current.branches.push(bytes::tail(field, mark.len()));
                assert(current@.branches =~= was.branches.push(bytes::after(field@, "branch refs/heads/"@)));
            }
            if bytes::has_prefix(field, "locked".as_bytes()) {
                current.locked = true;
            }
            assert(current@ =~= noted(was, field@));
            let ghost becomes = current@;
            done.push(current);
            assert(registration_views(done@) =~= so_far.drop_last().push(becomes));
        }
        i += 1;
    }
    assert(all.take(i as int) =~= all);
    done
}

/// An empty field says nothing.
proof fn empty_field_says_nothing(fields: Seq<Seq<u8>>)
    requires
        fields.len() > 0,
        fields.last().len() == 0,
    ensures
        records(fields) == records(fields.drop_last()),
{
    let done = records(fields.drop_last());
    words_are_not_empty();
    if done.len() > 0 {
        assert(noted(done.last(), fields.last()) =~= done.last());
        assert(done.drop_last().push(done.last()) =~= done);
    }
}

/// The words of a listing have bytes.
proof fn words_are_not_empty()
    ensures
        bytes::utf8("worktree "@).len() > 0,
        bytes::utf8("branch refs/heads/"@).len() > 0,
        bytes::utf8("locked"@).len() > 0,
        !bytes::utf8("worktree "@).contains(0),
{
    reveal_strlit("worktree ");
    reveal_strlit("branch refs/heads/");
    reveal_strlit("locked");
    is_ascii_chars_encode_utf8("worktree "@);
    is_ascii_chars_encode_utf8("branch refs/heads/"@);
    is_ascii_chars_encode_utf8("locked"@);
}

/// A worktree that follows a listing is read with its whole path, whatever bytes other than zero
/// the path holds, and leaves what was read before as it was.
pub proof fn listed_path_is_read_whole(raw: Seq<u8>, path: Seq<u8>)
    requires
        !path.contains(0),
    ensures
        listed(raw.push(0) + bytes::utf8("worktree "@) + path + seq![0u8]) == listed(raw).push(
            Record { path, branches: Seq::empty(), locked: false },
        ),
{
    let word = bytes::utf8("worktree "@);
    let field = word + path;
    let whole = raw.push(0) + word + path + seq![0u8];
    words_are_not_empty();
    assert forall|i: int| 0 <= i < field.len() implies field[i] != 0 by {
        if i < word.len() {
            assert(word[i] != 0);
        } else {
            assert(path[i - word.len()] != 0);
        }
    }
    bytes::pieces_of_appended(raw, field, 0);
    let fields = bytes::pieces(raw, 0).push(field);
    let nothing = Seq::<u8>::empty();
    bytes::pieces_of_appended(raw.push(0) + field, nothing, 0);
    assert(whole =~= (raw.push(0) + field).push(0) + nothing);
    assert(fields.push(nothing).drop_last() =~= fields);
    empty_field_says_nothing(fields.push(nothing));
    assert(fields.drop_last() =~= bytes::pieces(raw, 0));
    assert(word =~= field.subrange(0, word.len() as int));
    assert(field.skip(word.len() as int) =~= path);
}

} // verus!
