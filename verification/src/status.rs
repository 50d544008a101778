//! The state of entries, and their listing.

use crate::bytes;
use crate::entry;
use crate::entry::{Entry, EntryView, Kind};
use crate::path;
use crate::plan;
use crate::repo::Repo;
use crate::size;
use crate::text;
use vstd::prelude::*;
use vstd::string::*;

verus! {

/// The line feed.
pub const LINE_FEED: u8 = 10;

/// The carriage return.
pub const CARRIAGE_RETURN: u8 = 13;

/// Line `k` of a text cut at its line feeds: a carriage return before a line feed is no part of it.
pub open spec fn line(cut: Seq<Seq<u8>>, k: int) -> Seq<u8> {
    if k + 1 < cut.len() && cut[k].len() > 0 && cut[k].last() == CARRIAGE_RETURN {
        cut[k].drop_last()
    } else {
        cut[k]
    }
}

/// A reference into which work is merged for good.
pub open spec fn is_trunk(r: Seq<u8>) -> bool {
    ||| r == bytes::utf8("refs/heads/main"@)
    ||| r == bytes::utf8("refs/heads/master"@)
    ||| r == bytes::utf8("refs/remotes/origin/main"@)
    ||| r == bytes::utf8("refs/remotes/origin/master"@)
    ||| bytes::begins(r, "refs/remotes/origin/sprint-"@)
}

/// A reference of another repository.
pub open spec fn is_remote(r: Seq<u8>) -> bool {
    bytes::begins(r, "refs/remotes/"@)
}

/// One of the lines of `refs` is a reference into which work is merged.
pub open spec fn names_trunk(refs: Seq<u8>) -> bool {
    let cut = bytes::pieces(refs, LINE_FEED);
    exists|k: int| 0 <= k < cut.len() && is_trunk(#[trigger] line(cut, k))
}

/// One of the lines of `refs` is a reference of another repository.
pub open spec fn names_remote(refs: Seq<u8>) -> bool {
    let cut = bytes::pieces(refs, LINE_FEED);
    exists|k: int| 0 <= k < cut.len() && is_remote(#[trigger] line(cut, k))
}

/// The state of an entry, given whether its directory is there and which references reach its tip.
/// Only what can be reached locally counts: an old merge of a reused branch proves nothing of its
/// present tip.
pub open spec fn state_of(kind: Kind, present: bool, refs: Seq<u8>) -> Seq<char> {
    if kind != Kind::Worktree {
        entry::kind_state(kind)
    } else if !present {
        "missing"@
    } else if names_trunk(refs) {
        "merged"@
    } else if names_remote(refs) {
        "pushed"@
    } else {
        "local-only"@
    }
}

/// What was learnt of an entry for the listing.
pub struct Finding {
    /// Its state, where it could be told.
    pub state: Option<String>,
    /// Whether it holds changes, where that could be told.
    pub dirty: Option<bool>,
    /// The size of its target directory.
    pub size: u64,
}

/// The state in the listing.
pub open spec fn shown_state(f: Finding) -> Seq<char> {
    match f.state {
        Some(s) => s@,
        None => "unknown"@,
    }
}

/// The changes in the listing: only checkouts have any.
pub open spec fn shown_dirty(kind: Kind, f: Finding) -> Seq<char> {
    if kind == Kind::Worktree || kind == Kind::Main {
        match f.dirty {
            Some(true) => "yes"@,
            Some(false) => "no"@,
            None => "?"@,
        }
    } else {
        "?"@
    }
}

/// The branch in the listing.
pub open spec fn shown_branch(branch: Option<Seq<char>>) -> Seq<char> {
    match branch {
        Some(b) => b,
        None => "(detached)"@,
    }
}

/// One row of the listing. The name is escaped, and so is not filled up.
pub open spec fn row(e: EntryView, f: Finding) -> Seq<char> {
    text::escaped(entry::name_of(e.path)) + " "@ + text::padded(shown_branch(e.branch), 28) + " "@
        + text::padded(shown_state(f), 12) + " "@ + text::padded(shown_dirty(e.kind, f), 7) + " "@
        + size::shown(f.size as nat) + "  "@ + path::display(e.target)
}

/// The heading of the listing.
pub open spec fn heading() -> Seq<char> {
    text::padded("NAME"@, 25) + " "@ + text::padded("BRANCH"@, 28) + " "@ + text::padded(
        "STATE"@,
        12,
    ) + " "@ + text::padded("DIRTY"@, 7) + " TARGET"@
}

/// The listing: a heading and a row for each entry, or nothing at all in quiet mode.
pub open spec fn listing(entries: Seq<EntryView>, found: Seq<Finding>, quiet: bool) -> Seq<Seq<char>> {
    if quiet {
        Seq::empty()
    } else {
        seq![heading()] + Seq::new(entries.len(), |i: int| row(entries[i], found[i]))
    }
}

/// Tells whether one of the lines of `refs` is a reference into which work is merged.
fn reaches_trunk(refs: &[u8]) -> (r: bool)
    ensures
        r == names_trunk(refs@),
{
    let cut = bytes::split(refs, LINE_FEED);
    let ghost all = bytes::views(cut@);
    let mut k: usize = 0;
    while k < cut.len()
        invariant
            k <= cut@.len(),
            all == bytes::views(cut@),
            all == bytes::pieces(refs@, LINE_FEED),
            forall|j: int| 0 <= j < k ==> !is_trunk(#[trigger] line(all, j)),
        decreases cut@.len() - k,
    {
        let l = line_at(&cut, k);
        let r = l.as_slice();
        if bytes::same(r, "refs/heads/main".as_bytes()) || bytes::same(
            r,
            "refs/heads/master".as_bytes(),
        ) || bytes::same(r, "refs/remotes/origin/main".as_bytes()) || bytes::same(
            r,
            "refs/remotes/origin/master".as_bytes(),
        ) || bytes::has_prefix(r, "refs/remotes/origin/sprint-".as_bytes()) {
            assert(is_trunk(line(all, k as int)));
            return true;
        }
        k += 1;
    }
    false
}

/// Tells whether one of the lines of `refs` is a reference of another repository.
fn reaches_remote(refs: &[u8]) -> (r: bool)
    ensures
        r == names_remote(refs@),
{
    let cut = bytes::split(refs, LINE_FEED);
    let ghost all = bytes::views(cut@);
    let mut k: usize = 0;
    while k < cut.len()
        invariant
            k <= cut@.len(),
            all == bytes::views(cut@),
            all == bytes::pieces(refs@, LINE_FEED),
            forall|j: int| 0 <= j < k ==> !is_remote(#[trigger] line(all, j)),
        decreases cut@.len() - k,
    {
        let l = line_at(&cut, k);
        if bytes::has_prefix(l.as_slice(), "refs/remotes/".as_bytes()) {
            assert(is_remote(line(all, k as int)));
            return true;
        }
        k += 1;
    }
    false
}

/// Line `k` of a text cut at its line feeds.
fn line_at(cut: &Vec<Vec<u8>>, k: usize) -> (r: Vec<u8>)
    requires
        k < cut@.len(),
    ensures
        r@ == line(bytes::views(cut@), k as int),
{
    let piece = cut[k].as_slice();
    let n: usize = piece.len();
    if k < cut.len() - 1 && n > 0 && piece[n - 1] == CARRIAGE_RETURN {
        let r = bytes::head(piece, n - 1);
        assert(r@ =~= piece@.drop_last());
        r
    } else {
        bytes::copy(piece)
    }
}

impl Repo {
    /// The state of an entry, given whether its directory is there and, line by line, which
    /// references reach its tip.
    pub fn state(&self, entry: &Entry, present: bool, refs: &[u8]) -> (r: String)
        ensures
            r@ == state_of(entry.kind, present, refs@),
    {
        if entry.kind != Kind::Worktree {
            return entry.kind.state().to_owned();
        }
        if !present {
            return "missing".to_owned();
        }
        if reaches_trunk(refs) {
            return "merged".to_owned();
        }
        if reaches_remote(refs) {
            return "pushed".to_owned();
        }
        "local-only".to_owned()
    }

    /// Tells whether a checkout holds changes, from what `git status` says of it.
    pub fn dirty(&self, status: &[u8]) -> (r: bool)
        ensures
            r == (status@.len() > 0),
    {
        status.len() > 0
    }

    /// Lists the entries, with what was learnt of each.
    pub fn list(&self, entries: &[Entry], found: &[Finding], quiet: bool) -> (r: Vec<String>)
        requires
            found@.len() == entries@.len(),
        ensures
            text::views(r@) == listing(entry::views(entries@), found@, quiet),
    {
        let mut lines: Vec<String> = Vec::new();
        if quiet {
            assert(text::views(lines@) =~= Seq::empty());
            return lines;
        }
        let mut head = text::pad("NAME".to_owned(), 25);
        head.append(" ");
        head.append(text::pad("BRANCH".to_owned(), 28).as_str());
        head.append(" ");
        head.append(text::pad("STATE".to_owned(), 12).as_str());
        head.append(" ");
        head.append(text::pad("DIRTY".to_owned(), 7).as_str());
        head.append(" TARGET");
        lines.push(head);
        let ghost all = listing(entry::views(entries@), found@, false);
        let mut i: usize = 0;
        assert(text::views(lines@) =~= all.take(1));
        while i < entries.len()
            invariant
                i <= entries@.len(),
                found@.len() == entries@.len(),
                all == listing(entry::views(entries@), found@, false),
                text::views(lines@) == all.take(i + 1),
            decreases entries@.len() - i,
        {
            let ghost held = text::views(lines@);
            let one = list_row(&entries[i], &found[i]);
            let ghost added = one@;
            lines.push(one);
            assert(text::views(lines@) =~= held.push(added));
            assert(all[i + 1] == added);
            assert(all.take(i + 2) =~= all.take(i + 1).push(added));
            i += 1;
        }
        assert(all.take(i + 1) =~= all);
        lines
    }
}

/// One row of the listing.
fn list_row(e: &Entry, f: &Finding) -> (r: String)
    ensures
        r@ == row(e@, *f),
{
    let branch = match &e.branch {
        Some(b) => b.clone(),
        None => "(detached)".to_owned(),
    };
    let state = match &f.state {
        Some(s) => s.clone(),
        None => "unknown".to_owned(),
    };
    let dirty = if e.kind == Kind::Worktree || e.kind == Kind::Main {
        match f.dirty {
            Some(true) => "yes",
            Some(false) => "no",
            None => "?",
        }
    } else {
        "?"
    };
    let mut out = text::escape(e.name().as_str());
    out.append(" ");
    out.append(text::pad(branch, 28).as_str());
    out.append(" ");
    out.append(text::pad(state, 12).as_str());
    out.append(" ");
    out.append(text::pad(dirty.to_owned(), 7).as_str());
    out.append(" ");
    out.append(size::human(f.size).as_str());
    out.append("  ");
    out.append(e.target.display().as_str());
    out
}

/// The commits of a worktree that is there count as saved just where a trunk, or a reference of
/// another repository, reaches its tip.
pub proof fn saved_means_reached(refs: Seq<u8>)
    ensures
        plan::is_saved(state_of(Kind::Worktree, true, refs)) <==> names_trunk(refs) || names_remote(
            refs,
        ),
{
    reveal_strlit("merged");
    reveal_strlit("pushed");
    reveal_strlit("local-only");
    assert("local-only"@.len() == 10);
    assert("merged"@.len() == 6);
    assert("pushed"@.len() == 6);
}

/// A worktree whose directory is missing never counts as saved.
pub proof fn missing_is_not_saved(refs: Seq<u8>)
    ensures
        !plan::is_saved(state_of(Kind::Worktree, false, refs)),
{
    reveal_strlit("merged");
    reveal_strlit("pushed");
    reveal_strlit("missing");
    assert("missing"@.len() == 7);
    assert("merged"@.len() == 6);
    assert("pushed"@.len() == 6);
}

/// A listing has a heading and one row for each entry, in order, and nothing in quiet mode.
pub proof fn listing_has_a_row_for_each(entries: Seq<EntryView>, found: Seq<Finding>, i: int)
    ensures
        listing(entries, found, true).len() == 0,
        listing(entries, found, false).len() == entries.len() + 1,
        listing(entries, found, false)[0] == heading(),
        0 <= i < entries.len() ==> listing(entries, found, false)[i + 1] == row(
            entries[i],
            found[i],
        ),
        heading() == text::padded("NAME"@, 25) + " "@ + text::padded("BRANCH"@, 28) + " "@
            + text::padded("STATE"@, 12) + " "@ + text::padded("DIRTY"@, 7) + " TARGET"@,
{
}

/// A row tells the escaped name, the branch or that there is none, the state, whether there are
/// changes, which only checkouts have, and the size and path of the target directory.
pub proof fn row_tells_of_its_entry(e: EntryView, f: Finding)
    ensures
        ({
            let branch = if e.branch is Some {
                e.branch->0
            } else {
                "(detached)"@
            };
            let state = if f.state is Some {
                (f.state->0)@
            } else {
                "unknown"@
            };
            let checkout = e.kind == Kind::Worktree || e.kind == Kind::Main;
            let dirty = if checkout && f.dirty == Some(true) {
                "yes"@
            } else if checkout && f.dirty == Some(false) {
                "no"@
            } else {
                "?"@
            };
            row(e, f) == text::escaped(entry::name_of(e.path)) + " "@ + text::padded(branch, 28)
                + " "@ + text::padded(state, 12) + " "@ + text::padded(dirty, 7) + " "@
                + size::shown(f.size as nat) + "  "@ + path::display(e.target)
        }),
{
}

} // verus!
