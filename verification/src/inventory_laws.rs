//! What holds of every inventory.

use crate::bytes;
use crate::entry::{EntryView, Kind};
use crate::inventory;
use crate::inventory::{LeftoverView, Mark, SightingView, SurveyView};
use crate::path;
use crate::repo::RepoView;
use crate::text;
use vstd::prelude::*;
use vstd::utf8::*;

verus! {

/// Neither of two paths begins with the other.
pub open spec fn are_apart(a: Seq<Seq<u8>>, b: Seq<Seq<u8>>) -> bool {
    !a.is_prefix_of(b) && !b.is_prefix_of(a)
}

/// A path is apart from the directories and target directories of all entries.
pub open spec fn is_apart_from_all(entries: Seq<EntryView>, p: Seq<Seq<u8>>) -> bool {
    forall|i: int|
        0 <= i < entries.len() ==> are_apart(p, (#[trigger] entries[i]).path) && are_apart(
            p,
            entries[i].target,
        )
}

/// What is in an inventory stays in it, in its place, whatever is found later.
pub proof fn inventory_only_grows(
    repo: RepoView,
    registered: Seq<EntryView>,
    orphans: bool,
    seen: Seq<SightingView>,
    k: int,
)
    requires
        0 <= k <= seen.len(),
    ensures
        inventory::surveyed(repo, registered, orphans, seen.take(k)).entries.is_prefix_of(
            inventory::surveyed(repo, registered, orphans, seen).entries,
        ),
    decreases seen.len() - k,
{
    let few = inventory::surveyed(repo, registered, orphans, seen.take(k)).entries;
    if k == seen.len() {
        assert(seen.take(k) =~= seen);
        assert(few =~= few.subrange(0, few.len() as int));
    } else {
        inventory_only_grows(repo, registered, orphans, seen, k + 1);
        assert(seen.take(k + 1).drop_last() =~= seen.take(k));
        let more = inventory::surveyed(repo, registered, orphans, seen.take(k + 1)).entries;
        let all = inventory::surveyed(repo, registered, orphans, seen).entries;
        assert(more =~= few || more.drop_last() =~= few);
        assert(few =~= all.subrange(0, few.len() as int)) by {
            assert(more =~= all.subrange(0, more.len() as int));
            assert forall|i: int| 0 <= i < few.len() implies few[i] == all[i] by {
                assert(more[i] == few[i]);
                assert(all.subrange(0, more.len() as int)[i] == all[i]);
            }
        }
    }
}

/// The wish for unclaimed target directories does not change, and the inventory is closed to
/// leftovers just when a target directory was found.
proof fn survey_closes_at_a_target(
    repo: RepoView,
    registered: Seq<EntryView>,
    orphans: bool,
    seen: Seq<SightingView>,
)
    ensures
        inventory::surveyed(repo, registered, orphans, seen).orphans == orphans,
        inventory::surveyed(repo, registered, orphans, seen).closed <==> exists|i: int|
            0 <= i < seen.len() && (#[trigger] seen[i]) is Target,
    decreases seen.len(),
{
    if seen.len() > 0 {
        let before = seen.drop_last();
        survey_closes_at_a_target(repo, registered, orphans, before);
        if exists|i: int| 0 <= i < before.len() && (#[trigger] before[i]) is Target {
            let i = choose|i: int| 0 <= i < before.len() && (#[trigger] before[i]) is Target;
            assert(seen[i] is Target);
        }
        if exists|i: int| 0 <= i < seen.len() && (#[trigger] seen[i]) is Target {
            let i = choose|i: int| 0 <= i < seen.len() && (#[trigger] seen[i]) is Target;
            if i < before.len() {
                assert(before[i] is Target);
            }
        }
        if seen.last() is Target {
            assert(seen[seen.len() - 1] is Target);
        }
    }
}

/// Being unclaimed, in plain words.
proof fn unclaimed_in_plain_words(
    repo: RepoView,
    entries: Seq<EntryView>,
    name: Seq<u8>,
    p: Seq<Seq<u8>>,
)
    ensures
        inventory::is_unclaimed(repo, entries, name, p) <==> name != encode_utf8("main"@)
            && repo.key.is_prefix_of(p) && is_apart_from_all(entries, p),
{
    if inventory::is_unclaimed(repo, entries, name, p) {
        assert forall|i: int| 0 <= i < entries.len() implies are_apart(
            p,
            (#[trigger] entries[i]).path,
        ) && are_apart(p, entries[i].target) by {
            assert(!path::overlap(p, entries[i].target));
        }
    }
    if is_apart_from_all(entries, p) {
        assert forall|i: int| 0 <= i < entries.len() implies !path::overlap(
            p,
            (#[trigger] entries[i]).target,
        ) && !path::overlap(p, entries[i].path) by {
            assert(are_apart(p, entries[i].path));
        }
    }
}

/// The entry of an unclaimed target directory: its own target, without a branch or a lock.
pub open spec fn lone_target(p: Seq<Seq<u8>>) -> EntryView {
    EntryView { path: p, branch: None, target: p, kind: Kind::Orphan, locked: false }
}

/// Where unclaimed target directories are wanted, each one that is found among the repository's, not
/// under the name `main`, and apart from all entries so far, is in the finished inventory.
pub proof fn unclaimed_target_is_found(
    repo: RepoView,
    registered: Seq<EntryView>,
    seen: Seq<SightingView>,
    k: int,
    name: Seq<u8>,
    p: Seq<Seq<u8>>,
)
    requires
        0 <= k < seen.len(),
        seen[k] == SightingView::Target(name, p),
        name != encode_utf8("main"@),
        repo.key.is_prefix_of(p),
        is_apart_from_all(inventory::surveyed(repo, registered, true, seen.take(k)).entries, p),
    ensures
        inventory::surveyed(repo, registered, true, seen).entries.contains(lone_target(p)),
{
    let few = inventory::surveyed(repo, registered, true, seen.take(k));
    let more = inventory::surveyed(repo, registered, true, seen.take(k + 1));
    let all = inventory::surveyed(repo, registered, true, seen);
    survey_closes_at_a_target(repo, registered, true, seen.take(k));
    unclaimed_in_plain_words(repo, few.entries, name, p);
    assert(seen.take(k + 1).drop_last() =~= seen.take(k));
    assert(seen.take(k + 1).last() == seen[k]);
    let m = few.entries.len() as int;
    assert(more.entries[m] == lone_target(p));
    inventory_only_grows(repo, registered, true, seen, k + 1);
    assert(all.entries.subrange(0, more.entries.len() as int)[m] == all.entries[m]);
}

/// Target directories that were found, as sightings.
pub open spec fn sightings_of(targets: Seq<(Seq<u8>, Seq<Seq<u8>>)>) -> Seq<SightingView> {
    Seq::new(targets.len(), |i: int| SightingView::Target(targets[i].0, targets[i].1))
}

/// However many unclaimed target directories there are, if they are apart from each other and from
/// all that was found before, every one of them is found, each once and in order.
pub proof fn separate_targets_are_all_found(
    repo: RepoView,
    registered: Seq<EntryView>,
    seen: Seq<SightingView>,
    targets: Seq<(Seq<u8>, Seq<Seq<u8>>)>,
)
    requires
        forall|i: int|
            0 <= i < targets.len() ==> (#[trigger] targets[i]).0 != encode_utf8("main"@)
                && repo.key.is_prefix_of(targets[i].1) && is_apart_from_all(
                inventory::surveyed(repo, registered, true, seen).entries,
                targets[i].1,
            ),
        forall|i: int, j: int|
            0 <= i < targets.len() && 0 <= j < targets.len() && i != j ==> are_apart(
                (#[trigger] targets[i]).1,
                (#[trigger] targets[j]).1,
            ),
    ensures
        inventory::surveyed(repo, registered, true, seen + sightings_of(targets)).entries
            == inventory::surveyed(repo, registered, true, seen).entries + Seq::new(
            targets.len(),
            |i: int| lone_target(targets[i].1),
        ),
    decreases targets.len(),
{
    let start = inventory::surveyed(repo, registered, true, seen).entries;
    let wanted = start + Seq::new(targets.len(), |i: int| lone_target(targets[i].1));
    if targets.len() == 0 {
        assert(seen + sightings_of(targets) =~= seen);
        assert(wanted =~= start);
    } else {
        let fewer = targets.drop_last();
        let last = targets.last();
        assert forall|i: int| 0 <= i < fewer.len() implies (#[trigger] fewer[i]).0 != encode_utf8(
            "main"@,
        ) && repo.key.is_prefix_of(fewer[i].1) && is_apart_from_all(start, fewer[i].1) by {
            assert(fewer[i] == targets[i]);
        }
        assert forall|i: int, j: int|
            0 <= i < fewer.len() && 0 <= j < fewer.len() && i != j implies are_apart(
            (#[trigger] fewer[i]).1,
            (#[trigger] fewer[j]).1,
        ) by {
            assert(fewer[i] == targets[i] && fewer[j] == targets[j]);
        }
        separate_targets_are_all_found(repo, registered, seen, fewer);
        let whole = seen + sightings_of(targets);
        assert(whole.drop_last() =~= seen + sightings_of(fewer));
        assert(whole.last() == SightingView::Target(last.0, last.1));
        let before = inventory::surveyed(repo, registered, true, whole.drop_last()).entries;
        survey_closes_at_a_target(repo, registered, true, whole.drop_last());
        assert(targets[targets.len() - 1] == last);
        assert forall|i: int| 0 <= i < before.len() implies are_apart(
            last.1,
            (#[trigger] before[i]).path,
        ) && are_apart(last.1, before[i].target) by {
            if i < start.len() {
                assert(before[i] == start[i]);
            } else {
                let j = i - start.len();
                assert(before[i] == lone_target(fewer[j].1));
                assert(fewer[j] == targets[j]);
                assert(are_apart(targets[targets.len() - 1].1, targets[j].1));
            }
        }
        unclaimed_in_plain_words(repo, before, last.0, last.1);
        assert(inventory::surveyed(repo, registered, true, whole).entries =~= wanted);
    }
}

/// A target directory adds nothing to an inventory where unclaimed ones are not wanted, where it was
/// found under the name `main` or outside the repository's, or where it touches any entry.
pub proof fn claimed_target_adds_nothing(
    repo: RepoView,
    s: SurveyView,
    name: Seq<u8>,
    p: Seq<Seq<u8>>,
)
    requires
        !s.orphans || name == encode_utf8("main"@) || !repo.key.is_prefix_of(p)
            || !is_apart_from_all(s.entries, p),
    ensures
        inventory::counted(repo, s, SightingView::Target(name, p)).entries == s.entries,
{
    unclaimed_in_plain_words(repo, s.entries, name, p);
}

/// What shows that a directory was a worktree of this repository: a `.git` file that leads below
/// `worktrees` in Git's data, or no `.git` at all and a target directory among the repository's that
/// is there or configured.
pub open spec fn is_evidence(repo: RepoView, l: LeftoverView) -> bool {
    ||| l.git matches Mark::File(Some(dir)) && repo.common.push(
        encode_utf8("worktrees"@),
    ).is_prefix_of(dir)
    ||| l.git is Missing && repo.key.is_prefix_of(l.target) && (l.target_is_dir || l.configured)
}

/// A path is apart from the directories of all entries but the main checkout.
pub open spec fn is_apart_from_places(entries: Seq<EntryView>, p: Seq<Seq<u8>>) -> bool {
    forall|i: int|
        0 <= i < entries.len() && (#[trigger] entries[i]).kind != Kind::Main ==> are_apart(
            p,
            entries[i].path,
        )
}

/// Being a leftover, in plain words.
proof fn leftover_in_plain_words(repo: RepoView, entries: Seq<EntryView>, l: LeftoverView)
    ensures
        (inventory::is_candidate(repo, entries, l.path) && inventory::is_ours(repo, l)) <==> (
        l.path != repo.main && l.path != repo.common && is_apart_from_places(entries, l.path)
            && is_evidence(repo, l)),
{
    let name = encode_utf8("worktrees"@);
    reveal_strlit("worktrees");
    is_ascii_chars_encode_utf8("worktrees"@);
    assert(name.len() == 9);
    assert(path::valid_name(name));
    path::file_name_is_one_component(name);
    assert(path::joined(repo.common, bytes::utf8("worktrees"@)) =~= repo.common.push(name));
    if inventory::is_candidate(repo, entries, l.path) {
        assert forall|i: int|
            0 <= i < entries.len() && (#[trigger] entries[i]).kind != Kind::Main implies are_apart(
            l.path,
            entries[i].path,
        ) by {
            assert(!path::overlap(entries[i].path, l.path));
        }
    }
    if is_apart_from_places(entries, l.path) {
        assert forall|i: int|
            0 <= i < entries.len() && (#[trigger] entries[i]).kind
                != Kind::Main implies !path::overlap(entries[i].path, l.path) by {
            assert(are_apart(l.path, entries[i].path));
        }
    }
}

/// Every directory that is found before any target directory, is neither the main checkout nor Git's
/// data, lies apart from all entries but the main checkout, and shows that it was a worktree of this
/// repository, is in the finished inventory as a leftover with its target directory.
pub proof fn leftover_is_found(
    repo: RepoView,
    registered: Seq<EntryView>,
    orphans: bool,
    seen: Seq<SightingView>,
    k: int,
    l: LeftoverView,
)
    requires
        0 <= k < seen.len(),
        seen[k] == SightingView::Directory(l),
        forall|i: int| 0 <= i < k ==> !((#[trigger] seen[i]) is Target),
        l.path != repo.main,
        l.path != repo.common,
        is_apart_from_places(
            inventory::surveyed(repo, registered, orphans, seen.take(k)).entries,
            l.path,
        ),
        is_evidence(repo, l),
    ensures
        inventory::surveyed(repo, registered, orphans, seen).entries.contains(
            EntryView {
                path: l.path,
                branch: None,
                target: l.target,
                kind: Kind::Stale,
                locked: false,
            },
        ),
{
    let few = inventory::surveyed(repo, registered, orphans, seen.take(k));
    let more = inventory::surveyed(repo, registered, orphans, seen.take(k + 1));
    let all = inventory::surveyed(repo, registered, orphans, seen);
    survey_closes_at_a_target(repo, registered, orphans, seen.take(k));
    assert(!few.closed) by {
        assert forall|i: int| 0 <= i < k implies !((#[trigger] seen.take(k)[i]) is Target) by {
            assert(seen.take(k)[i] == seen[i]);
        }
    }
    leftover_in_plain_words(repo, few.entries, l);
    assert(seen.take(k + 1).drop_last() =~= seen.take(k));
    assert(seen.take(k + 1).last() == seen[k]);
    let m = few.entries.len() as int;
    inventory_only_grows(repo, registered, orphans, seen, k + 1);
    assert(all.entries.subrange(0, more.entries.len() as int)[m] == all.entries[m]);
    assert(all.entries[m].kind == Kind::Stale);
}

/// A directory adds nothing to an inventory where it is the main checkout or Git's data, touches an
/// entry other than the main checkout, or shows nothing of having been a worktree of this repository.
pub proof fn other_directory_adds_nothing(repo: RepoView, s: SurveyView, l: LeftoverView)
    requires
        l.path == repo.main || l.path == repo.common || !is_apart_from_places(s.entries, l.path)
            || !is_evidence(repo, l),
    ensures
        inventory::counted(repo, s, SightingView::Directory(l)) == s,
{
    leftover_in_plain_words(repo, s.entries, l);
}

/// Leftovers are looked for beside every registered worktree, and nowhere else but in the usual
/// places of the main checkout.
pub proof fn searches_go_beside_worktrees(
    repo: RepoView,
    entries: Seq<EntryView>,
    usual: Seq<Seq<u8>>,
    i: int,
    m: int,
    p: Seq<Seq<u8>>,
)
    ensures
        0 <= i < entries.len() && entries[i].kind == Kind::Worktree && entries[i].path.len() > 0
            ==> inventory::is_searched(repo, entries, usual, entries[i].path.drop_last()),
        0 <= m < usual.len() ==> inventory::is_searched(
            repo,
            entries,
            usual,
            path::joined(repo.main, usual[m]),
        ),
        inventory::is_searched(repo, entries, usual, p) ==> (exists|j: int|
            0 <= j < entries.len() && (#[trigger] entries[j]).kind == Kind::Worktree
                && entries[j].path.len() > 0 && entries[j].path.drop_last() == p) || (exists|j: int|
            0 <= j < usual.len() && path::joined(repo.main, #[trigger] usual[j]) == p),
{
    if 0 <= m < usual.len() {
        assert(path::joined(repo.main, usual[m]) == path::joined(repo.main, usual[m]));
        assert(inventory::is_usual(repo, usual, path::joined(repo.main, usual[m])));
    }
    if 0 <= i < entries.len() && entries[i].kind == Kind::Worktree && entries[i].path.len() > 0 {
        assert(inventory::holds_worktree(entries, entries[i].path.drop_last()));
    }
}

/// The name of a hidden directory that is neither Git's, nor `.worktrees`, nor the parent.
pub open spec fn is_hidden(name: Seq<u8>) -> bool {
    &&& name.len() > 0
    &&& name[0] == 46
    &&& name != seq![46u8, 46u8]
    &&& name != encode_utf8(".git"@)
    &&& name != encode_utf8(".worktrees"@)
}

/// The usual places are `worktrees` in each hidden directory that was found, `.worktrees` and
/// `worktrees`, and no others.
pub proof fn usual_places_are_known(found: Seq<Seq<u8>>, m: int)
    ensures
        inventory::places(found).contains(encode_utf8(".worktrees"@)),
        inventory::places(found).contains(encode_utf8("worktrees"@)),
        forall|k: int|
            0 <= k < found.len() && is_hidden(#[trigger] found[k]) ==> inventory::places(
                found,
            ).contains(found[k] + encode_utf8("/worktrees"@)),
        0 <= m < inventory::places(found).len() ==> {
            let p = inventory::places(found)[m];
            ||| p == encode_utf8(".worktrees"@)
            ||| p == encode_utf8("worktrees"@)
            ||| exists|k: int|
                0 <= k < found.len() && is_hidden(#[trigger] found[k]) && p == found[k]
                    + encode_utf8("/worktrees"@)
        },
{
    let all = inventory::places(found);
    let n = inventory::tool_places(found).len() as int;
    assert(all[n] == encode_utf8(".worktrees"@));
    assert(all[n + 1] == encode_utf8("worktrees"@));
    assert forall|k: int| 0 <= k < found.len() && is_hidden(#[trigger] found[k]) implies all.contains(
        found[k] + encode_utf8("/worktrees"@),
    ) by {
        let j = tool_place_at(found, k);
        assert(all[j] == found[k] + encode_utf8("/worktrees"@));
    }
    if 0 <= m < n {
        let k = tool_of_place(found, m);
        assert(is_hidden(found[k]));
    }
}

/// A hidden directory has its place.
proof fn tool_place_at(found: Seq<Seq<u8>>, k: int) -> (m: int)
    requires
        0 <= k < found.len(),
        is_hidden(found[k]),
    ensures
        0 <= m < inventory::tool_places(found).len(),
        inventory::tool_places(found)[m] == found[k] + encode_utf8("/worktrees"@),
    decreases found.len(),
{
    if k == found.len() - 1 {
        inventory::tool_places(found).len() - 1
    } else {
        let m = tool_place_at(found.drop_last(), k);
        assert(inventory::tool_places(found)[m] == inventory::tool_places(found.drop_last())[m]);
        m
    }
}

/// A place belongs to a hidden directory.
proof fn tool_of_place(found: Seq<Seq<u8>>, m: int) -> (k: int)
    requires
        0 <= m < inventory::tool_places(found).len(),
    ensures
        0 <= k < found.len(),
        is_hidden(found[k]),
        inventory::tool_places(found)[m] == found[k] + encode_utf8("/worktrees"@),
    decreases found.len(),
{
    let before = inventory::tool_places(found.drop_last());
    if m < before.len() {
        let k = tool_of_place(found.drop_last(), m);
        assert(found.drop_last()[k] == found[k]);
        k
    } else {
        found.len() - 1
    }
}

/// White space in front of a text is trimmed away.
proof fn blank_front_goes(a: Seq<char>, s: Seq<char>)
    requires
        text::is_blank(a),
        s.len() > 0,
        !text::is_space(s[0]),
    ensures
        text::trimmed_front(a + s) == s,
    decreases a.len(),
{
    if a.len() == 0 {
        assert(a + s =~= s);
    } else {
        assert(text::is_space(a[0]));
        assert(text::is_blank(a.skip(1))) by {
            assert forall|i: int| 0 <= i < a.skip(1).len() implies text::is_space(
                #[trigger] a.skip(1)[i],
            ) by {
                assert(a.skip(1)[i] == a[i + 1]);
            }
        }
        blank_front_goes(a.skip(1), s);
        assert((a + s).skip(1) =~= a.skip(1) + s);
    }
}

/// White space behind a text is trimmed away.
proof fn blank_back_goes(s: Seq<char>, b: Seq<char>)
    requires
        text::is_blank(b),
        s.len() > 0,
        !text::is_space(s.last()),
    ensures
        text::trimmed_back(s + b) == s,
    decreases b.len(),
{
    if b.len() == 0 {
        assert(s + b =~= s);
    } else {
        assert(text::is_space(b[b.len() - 1]));
        assert(text::is_blank(b.drop_last())) by {
            assert forall|i: int| 0 <= i < b.drop_last().len() implies text::is_space(
                #[trigger] b.drop_last()[i],
            ) by {
                assert(b.drop_last()[i] == b[i]);
            }
        }
        blank_back_goes(s, b.drop_last());
        assert((s + b).drop_last() =~= s + b.drop_last());
    }
}

/// A `.git` file names what follows `gitdir: ` in it, whatever white space stands around; a text that
/// begins otherwise names nothing.
pub proof fn git_file_names_its_directory(
    a: Seq<char>,
    dir: Seq<char>,
    b: Seq<char>,
    content: Seq<char>,
)
    requires
        text::is_blank(a),
        text::is_blank(b),
    ensures
        dir.len() > 0 && !text::is_space(dir.last()) ==> inventory::named_gitdir(
            a + ("gitdir: "@ + dir) + b,
        ) == Some(dir),
        content.len() > 0 && !text::is_space(content[0]) && !text::is_space(content.last()) && !(
        "gitdir: "@.is_prefix_of(content)) ==> inventory::named_gitdir(a + content + b) is None,
{
    let word = "gitdir: "@;
    reveal_strlit("gitdir: ");
    let line = word + dir;
    if dir.len() > 0 && !text::is_space(dir.last()) {
        assert(line[0] == 'g');
        assert(line.last() == dir.last());
        blank_front_goes(a, line + b);
        blank_back_goes(line, b);
        assert(a + line + b =~= a + (line + b));
        assert(word =~= line.subrange(0, word.len() as int));
        assert(line.skip(word.len() as int) =~= dir);
    }
    if content.len() > 0 && !text::is_space(content[0]) && !text::is_space(content.last()) {
        blank_front_goes(a, content + b);
        blank_back_goes(content, b);
        assert(a + content + b =~= a + (content + b));
    }
}

} // verus!
