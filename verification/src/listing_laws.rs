//! What holds of every listing of worktrees and of every state of one.

use crate::bytes;
use crate::entry;
use crate::entry::{Kind, Record};
use crate::status;
use vstd::prelude::*;
use vstd::utf8::*;

verus! {

/// The words of a listing begin differently.
proof fn words_begin_differently()
    ensures
        encode_utf8("worktree "@).len() == 9,
        encode_utf8("worktree "@)[0] == 119,
        encode_utf8("branch refs/heads/"@).len() == 18,
        encode_utf8("branch refs/heads/"@)[0] == 98,
        encode_utf8("locked"@).len() == 6,
        encode_utf8("locked"@)[0] == 108,
        !encode_utf8("worktree "@).contains(0),
        !encode_utf8("branch refs/heads/"@).contains(0),
        !encode_utf8("locked"@).contains(0),
{
    reveal_strlit("worktree ");
    reveal_strlit("branch refs/heads/");
    reveal_strlit("locked");
    is_ascii_chars_encode_utf8("worktree "@);
    is_ascii_chars_encode_utf8("branch refs/heads/"@);
    is_ascii_chars_encode_utf8("locked"@);
}

/// Two byte strings without a zero byte make one.
proof fn no_zero_in_both(a: Seq<u8>, b: Seq<u8>)
    requires
        !a.contains(0),
        !b.contains(0),
    ensures
        !(a + b).contains(0),
{
    if (a + b).contains(0) {
        let i = (a + b).index_of(0);
        if i < a.len() {
            assert(a[i] == 0);
        } else {
            assert(b[i - a.len()] == 0);
        }
    }
}

/// A field at the end of a listing is the last of its fields.
proof fn field_comes_last(raw: Seq<u8>, field: Seq<u8>)
    requires
        !field.contains(0),
    ensures
        bytes::pieces(raw.push(0) + field, 0) == bytes::pieces(raw, 0).push(field),
        bytes::pieces(raw, 0).push(field).drop_last() == bytes::pieces(raw, 0),
{
    bytes::pieces_of_appended(raw, field, 0);
    assert(bytes::pieces(raw, 0).push(field).drop_last() =~= bytes::pieces(raw, 0));
}

/// A field that begins with another byte begins with none of the words.
proof fn other_beginning(word: Seq<u8>, field: Seq<u8>)
    requires
        word.len() > 0,
        field.len() == 0 || field[0] != word[0],
    ensures
        !word.is_prefix_of(field),
{
    if word.is_prefix_of(field) {
        assert(field.subrange(0, word.len() as int)[0] == field[0]);
    }
}

/// A field `worktree` begins a new record, with all that follows the word as its path, no branch and
/// no lock, and changes none before it.
pub proof fn worktree_field_begins_a_record(raw: Seq<u8>, path: Seq<u8>)
    requires
        !path.contains(0),
    ensures
        entry::listed(raw.push(0) + (encode_utf8("worktree "@) + path)) == entry::listed(raw).push(
            Record { path, branches: Seq::empty(), locked: false },
        ),
        entry::listed(encode_utf8("worktree "@) + path) == seq![
            Record { path, branches: Seq::empty(), locked: false },
        ],
{
    words_begin_differently();
    let word = encode_utf8("worktree "@);
    let field = word + path;
    no_zero_in_both(word, path);
    field_comes_last(raw, field);
    bytes::beginning_is_followed_by_the_rest("worktree "@, path, field);
    bytes::pieces_without_separator(field, 0);
    assert(seq![field].drop_last() =~= Seq::<Seq<u8>>::empty());
    assert(entry::records(seq![field].drop_last()) =~= Seq::<Record>::empty());
    assert(entry::listed(field) =~= seq![Record { path, branches: Seq::empty(), locked: false }]);
}

/// A field `locked`, alone or with any reason behind it, locks the worktree that is listed last, and
/// changes nothing else.
pub proof fn locked_field_locks(raw: Seq<u8>, reason: Seq<u8>)
    requires
        !reason.contains(0),
        entry::listed(raw).len() > 0,
    ensures
        entry::listed(raw.push(0) + (encode_utf8("locked"@) + reason)) == entry::listed(raw).drop_last().push(
            Record {
                path: entry::listed(raw).last().path,
                branches: entry::listed(raw).last().branches,
                locked: true,
            },
        ),
{
    words_begin_differently();
    let word = encode_utf8("locked"@);
    let field = word + reason;
    no_zero_in_both(word, reason);
    field_comes_last(raw, field);
    assert(field[0] == 108);
    other_beginning(encode_utf8("worktree "@), field);
    other_beginning(encode_utf8("branch refs/heads/"@), field);
    bytes::beginning_is_followed_by_the_rest("locked"@, reason, field);
}

/// A field `branch refs/heads/` adds all that follows the word to the branches of the worktree that
/// is listed last, and changes nothing else.
pub proof fn branch_field_names_the_branch(raw: Seq<u8>, branch: Seq<u8>)
    requires
        !branch.contains(0),
        entry::listed(raw).len() > 0,
    ensures
        entry::listed(raw.push(0) + (encode_utf8("branch refs/heads/"@) + branch)) == entry::listed(
            raw,
        ).drop_last().push(
            Record {
                path: entry::listed(raw).last().path,
                branches: entry::listed(raw).last().branches.push(branch),
                locked: entry::listed(raw).last().locked,
            },
        ),
{
    words_begin_differently();
    let word = encode_utf8("branch refs/heads/"@);
    let field = word + branch;
    no_zero_in_both(word, branch);
    field_comes_last(raw, field);
    assert(field[0] == 98);
    other_beginning(encode_utf8("worktree "@), field);
    other_beginning(encode_utf8("locked"@), field);
    bytes::beginning_is_followed_by_the_rest("branch refs/heads/"@, branch, field);
}

/// Any other field says nothing, the empty one included, and before the first worktree no field but
/// its own does.
pub proof fn other_fields_say_nothing(raw: Seq<u8>, field: Seq<u8>)
    requires
        !field.contains(0),
        !encode_utf8("worktree "@).is_prefix_of(field),
        entry::listed(raw).len() == 0 || (!encode_utf8("branch refs/heads/"@).is_prefix_of(field)
            && !encode_utf8("locked"@).is_prefix_of(field)),
    ensures
        entry::listed(raw.push(0) + field) == entry::listed(raw),
{
    field_comes_last(raw, field);
    let done = entry::listed(raw);
    if done.len() > 0 {
        assert(done.drop_last().push(done.last()) =~= done);
    }
}

/// A zero byte at the end of a listing says nothing, and neither does an empty listing.
pub proof fn ending_says_nothing(raw: Seq<u8>)
    ensures
        entry::listed(raw.push(0)) == entry::listed(raw),
        entry::listed(Seq::empty()).len() == 0,
{
    words_begin_differently();
    let nothing = Seq::<u8>::empty();
    other_beginning(encode_utf8("worktree "@), nothing);
    other_beginning(encode_utf8("branch refs/heads/"@), nothing);
    other_beginning(encode_utf8("locked"@), nothing);
    other_fields_say_nothing(raw, nothing);
    assert(raw.push(0) + nothing =~= raw.push(0));
    assert(bytes::pieces(nothing, 0) =~= seq![nothing]);
    assert(seq![nothing].drop_last() =~= Seq::<Seq<u8>>::empty());
    assert(entry::records(seq![nothing].drop_last()) =~= Seq::<Record>::empty());
}

/// Line `k` of a text cut at its line feeds is this text; a carriage return before a line feed is no
/// part of a line.
pub open spec fn is_line(cut: Seq<Seq<u8>>, k: int, s: Seq<char>) -> bool {
    cut[k] == encode_utf8(s) || (k + 1 < cut.len() && cut[k] == encode_utf8(s).push(13))
}

/// Line `k` is one of the references into which work is merged for good.
pub open spec fn is_trunk_line(cut: Seq<Seq<u8>>, k: int) -> bool {
    ||| is_line(cut, k, "refs/heads/main"@)
    ||| is_line(cut, k, "refs/heads/master"@)
    ||| is_line(cut, k, "refs/remotes/origin/main"@)
    ||| is_line(cut, k, "refs/remotes/origin/master"@)
    ||| encode_utf8("refs/remotes/origin/sprint-"@).is_prefix_of(cut[k])
}

/// The references end in no carriage return.
proof fn references_end_plainly()
    ensures
        encode_utf8("refs/remotes/"@).len() == 13,
        encode_utf8("refs/remotes/"@)[12] == 47,
        encode_utf8("refs/remotes/origin/sprint-"@).len() == 27,
        encode_utf8("refs/remotes/origin/sprint-"@)[26] == 45,
        encode_utf8("refs/heads/main"@).len() == 15,
        encode_utf8("refs/heads/main"@)[14] == 110,
        encode_utf8("refs/heads/master"@).len() == 17,
        encode_utf8("refs/heads/master"@)[16] == 114,
        encode_utf8("refs/remotes/origin/main"@).len() == 24,
        encode_utf8("refs/remotes/origin/main"@)[23] == 110,
        encode_utf8("refs/remotes/origin/master"@).len() == 26,
        encode_utf8("refs/remotes/origin/master"@)[25] == 114,
{
    reveal_strlit("refs/remotes/");
    reveal_strlit("refs/remotes/origin/sprint-");
    reveal_strlit("refs/heads/main");
    reveal_strlit("refs/heads/master");
    reveal_strlit("refs/remotes/origin/main");
    reveal_strlit("refs/remotes/origin/master");
    is_ascii_chars_encode_utf8("refs/remotes/"@);
    is_ascii_chars_encode_utf8("refs/remotes/origin/sprint-"@);
    is_ascii_chars_encode_utf8("refs/heads/main"@);
    is_ascii_chars_encode_utf8("refs/heads/master"@);
    is_ascii_chars_encode_utf8("refs/remotes/origin/main"@);
    is_ascii_chars_encode_utf8("refs/remotes/origin/master"@);
}

/// A carriage return makes no difference to how a line begins.
proof fn beginning_of_line(cut: Seq<Seq<u8>>, k: int, word: Seq<u8>)
    requires
        0 <= k < cut.len(),
        word.len() > 0,
        word.last() != 13,
    ensures
        word.is_prefix_of(status::line(cut, k)) == word.is_prefix_of(cut[k]),
{
    let whole = cut[k];
    let short = status::line(cut, k);
    if short != whole {
        assert(short == whole.drop_last());
        if word.is_prefix_of(whole) {
            assert(word =~= whole.subrange(0, word.len() as int));
            if word.len() == whole.len() {
                assert(word[word.len() - 1] == whole[whole.len() - 1]);
            }
            assert(word =~= short.subrange(0, word.len() as int));
        }
        if word.is_prefix_of(short) {
            assert(word =~= short.subrange(0, word.len() as int));
            assert(word =~= whole.subrange(0, word.len() as int));
        }
    }
}

/// A carriage return makes no difference to what a whole line is.
proof fn whole_of_line(cut: Seq<Seq<u8>>, k: int, s: Seq<char>)
    requires
        0 <= k < cut.len(),
        encode_utf8(s).len() > 0,
        encode_utf8(s).last() != 13,
    ensures
        is_line(cut, k, s) == (status::line(cut, k) == encode_utf8(s)),
{
    let word = encode_utf8(s);
    let whole = cut[k];
    let short = status::line(cut, k);
    if short != whole {
        assert(whole =~= whole.drop_last().push(13));
        assert(word.push(13).drop_last() =~= word);
    } else if k + 1 < cut.len() && whole == word.push(13) {
        assert(whole.last() == 13);
        assert(word.push(13).drop_last() =~= word);
    }
}

/// Each line tells the same whether or not a carriage return ends it.
proof fn line_tells(cut: Seq<Seq<u8>>, k: int)
    requires
        0 <= k < cut.len(),
    ensures
        status::is_trunk(status::line(cut, k)) == is_trunk_line(cut, k),
        status::is_remote(status::line(cut, k)) == encode_utf8("refs/remotes/"@).is_prefix_of(
            cut[k],
        ),
{
    references_end_plainly();
    beginning_of_line(cut, k, encode_utf8("refs/remotes/"@));
    beginning_of_line(cut, k, encode_utf8("refs/remotes/origin/sprint-"@));
    whole_of_line(cut, k, "refs/heads/main"@);
    whole_of_line(cut, k, "refs/heads/master"@);
    whole_of_line(cut, k, "refs/remotes/origin/main"@);
    whole_of_line(cut, k, "refs/remotes/origin/master"@);
}

/// The words for states differ.
proof fn states_differ()
    ensures
        "merged"@ != "pushed"@,
        "merged"@ != "local-only"@,
        "pushed"@ != "local-only"@,
        "missing"@ != "merged"@,
        "missing"@ != "pushed"@,
        "missing"@ != "local-only"@,
{
    reveal_strlit("merged");
    reveal_strlit("pushed");
    reveal_strlit("local-only");
    reveal_strlit("missing");
    assert("merged"@[0] != "pushed"@[0]);
    assert("local-only"@.len() == 10);
    assert("missing"@.len() == 7);
    assert("merged"@.len() == 6);
    assert("pushed"@.len() == 6);
}

/// The state of a worktree that is there: `merged` just where some line is `main` or `master`, here
/// or at `origin`, or begins as a sprint at `origin`; else `pushed` just where some line begins with
/// `refs/remotes/`, whatever the remote; else `local-only`.
pub proof fn state_goes_by_the_lines(refs: Seq<u8>)
    ensures
        ({
            let cut = bytes::pieces(refs, 10);
            let state = status::state_of(Kind::Worktree, true, refs);
            &&& state == "merged"@ <==> exists|k: int|
                0 <= k < cut.len() && #[trigger] is_trunk_line(cut, k)
            &&& state == "pushed"@ ==> exists|k: int|
                0 <= k < cut.len() && encode_utf8("refs/remotes/"@).is_prefix_of(
                    #[trigger] cut[k],
                )
            &&& state == "merged"@ || state == "pushed"@ || state == "local-only"@
            &&& state == "local-only"@ ==> forall|k: int|
                0 <= k < cut.len() ==> !is_trunk_line(cut, k) && !encode_utf8(
                    "refs/remotes/"@,
                ).is_prefix_of(#[trigger] cut[k])
        }),
{
    let cut = bytes::pieces(refs, 10);
    states_differ();
    assert forall|k: int| 0 <= k < cut.len() implies status::is_trunk(
        #[trigger] status::line(cut, k),
    ) == is_trunk_line(cut, k) && status::is_remote(status::line(cut, k)) == encode_utf8(
        "refs/remotes/"@,
    ).is_prefix_of(cut[k]) by {
        line_tells(cut, k);
    }
    let state = status::state_of(Kind::Worktree, true, refs);
    if exists|k: int| 0 <= k < cut.len() && #[trigger] is_trunk_line(cut, k) {
        let k = choose|k: int| 0 <= k < cut.len() && #[trigger] is_trunk_line(cut, k);
        assert(status::is_trunk(status::line(cut, k)));
    }
    if state == "merged"@ {
        let k = choose|k: int|
            0 <= k < cut.len() && status::is_trunk(#[trigger] status::line(cut, k));
        assert(is_trunk_line(cut, k));
    }
    if state == "pushed"@ {
        let k = choose|k: int|
            0 <= k < cut.len() && status::is_remote(#[trigger] status::line(cut, k));
        assert(encode_utf8("refs/remotes/"@).is_prefix_of(cut[k]));
    }
    if state == "local-only"@ {
        assert forall|k: int| 0 <= k < cut.len() implies !is_trunk_line(cut, k) && !encode_utf8(
            "refs/remotes/"@,
        ).is_prefix_of(#[trigger] cut[k]) by {
            assert(!status::is_trunk(status::line(cut, k)));
            assert(!status::is_remote(status::line(cut, k)));
        }
    }
}

/// A line that stands between line feeds, or at an end, is a line.
proof fn line_stands(a: Seq<u8>, b: Seq<u8>, line: Seq<u8>, refs: Seq<u8>) -> (k: int)
    requires
        !line.contains(10),
        refs == line || refs == a.push(10) + line || refs == line.push(10) + b || refs == (a.push(
            10,
        ) + line).push(10) + b,
    ensures
        0 <= k < bytes::pieces(refs, 10).len(),
        bytes::pieces(refs, 10)[k] == line,
{
    bytes::pieces_without_separator(line, 10);
    bytes::pieces_of_joined(a, line, 10);
    bytes::pieces_of_joined(line, b, 10);
    bytes::pieces_of_joined(a.push(10) + line, b, 10);
    let n = bytes::pieces(a, 10).len() as int;
    assert(seq![line][0] == line);
    if refs == line {
        0
    } else if refs == a.push(10) + line {
        assert(bytes::pieces(refs, 10)[n] == line);
        n
    } else if refs == line.push(10) + b {
        assert(bytes::pieces(refs, 10)[0] == line);
        0
    } else {
        assert(bytes::pieces(a.push(10) + line, 10)[n] == line);
        assert(bytes::pieces(refs, 10)[n] == line);
        n
    }
}

/// A reference at any remote, wherever it stands in the listing and whatever else is in it, makes the
/// commits of a worktree count as saved.
pub proof fn any_remote_saves(a: Seq<u8>, b: Seq<u8>, name: Seq<u8>, refs: Seq<u8>)
    requires
        !name.contains(10),
        ({
            let line = encode_utf8("refs/remotes/"@) + name;
            refs == line || refs == a.push(10) + line || refs == line.push(10) + b || refs == (
            a.push(10) + line).push(10) + b
        }),
    ensures
        ({
            let state = status::state_of(Kind::Worktree, true, refs);
            state == "merged"@ || state == "pushed"@
        }),
{
    let word = encode_utf8("refs/remotes/"@);
    let line = word + name;
    reveal_strlit("refs/remotes/");
    is_ascii_chars_encode_utf8("refs/remotes/"@);
    assert forall|i: int| 0 <= i < line.len() implies line[i] != 10 by {
        if i >= word.len() {
            assert(line[i] == name[i - word.len()]);
        }
    }
    let k = line_stands(a, b, line, refs);
    assert(word =~= line.subrange(0, word.len() as int));
    state_goes_by_the_lines(refs);
}

/// More references never make saved commits count as unsaved.
pub proof fn more_references_save_no_less(a: Seq<u8>, b: Seq<u8>)
    ensures
        status::state_of(Kind::Worktree, true, a.push(10) + b) == "local-only"@ ==> status::state_of(
            Kind::Worktree,
            true,
            b,
        ) == "local-only"@,
{
    let whole = a.push(10) + b;
    let cut = bytes::pieces(whole, 10);
    let last = bytes::pieces(b, 10);
    let n = bytes::pieces(a, 10).len() as int;
    bytes::pieces_of_joined(a, b, 10);
    state_goes_by_the_lines(whole);
    state_goes_by_the_lines(b);
    states_differ();
    if status::state_of(Kind::Worktree, true, whole) == "local-only"@ {
        assert forall|k: int| 0 <= k < last.len() implies !is_trunk_line(last, k) && !encode_utf8(
            "refs/remotes/"@,
        ).is_prefix_of(#[trigger] last[k]) by {
            assert(cut[n + k] == last[k]);
            assert(!is_trunk_line(cut, n + k));
        }
    }
}

/// A worktree that is not there is missing whatever references there are, and what is no worktree
/// goes by what it is.
pub proof fn only_present_worktrees_have_commits(present: bool, refs: Seq<u8>)
    ensures
        status::state_of(Kind::Worktree, false, refs) == "missing"@,
        status::state_of(Kind::Main, present, refs) == "main"@,
        status::state_of(Kind::Stale, present, refs) == "stale"@,
        status::state_of(Kind::Orphan, present, refs) == "orphan"@,
{
}

} // verus!
