//! What holds of every repository, of the target directories in it and of its worktrees.

use crate::config;
use crate::config::Fault;
use crate::entry;
use crate::entry::{EntryView, Kind, Record};
use crate::path;
use crate::repo;
use crate::repo::{OpenError, RepoView, TargetFault};
use crate::text;
use vstd::prelude::*;
use vstd::utf8::*;

verus! {

/// A repository with a checkout is keyed by the name of that checkout.
pub proof fn checkout_is_opened_by_its_name(
    root: Seq<Seq<u8>>,
    here: Seq<Seq<u8>>,
    top: Seq<Seq<u8>>,
    name: Seq<u8>,
    base: Seq<Seq<u8>>,
)
    requires
        base.len() > 0,
        path::valid_name(name),
        name != seq![46u8, 46u8],
    ensures
        repo::opened(root, here, top.push(name).push(encode_utf8(".git"@)), base) == Ok::<
            RepoView,
            OpenError,
        >(
            RepoView {
                root,
                here,
                common: top.push(name).push(encode_utf8(".git"@)),
                main: top.push(name),
                base,
                key: base.push(name),
            },
        ),
{
    let git = encode_utf8(".git"@);
    reveal_strlit(".git");
    is_ascii_chars_encode_utf8(".git"@);
    assert(git.len() == 4);
    let main = top.push(name);
    let common = main.push(git);
    path::added_name_is_the_file_name(main, git);
    path::added_name_is_the_file_name(top, name);
    assert(common.drop_last() =~= main);
    path::file_name_is_one_component(name);
    assert(path::joined(base, name) =~= base.push(name));
}

/// A repository without a checkout is its own main directory, and is keyed by its name without an
/// extension.
pub proof fn bare_repository_is_opened_by_its_stem(
    root: Seq<Seq<u8>>,
    here: Seq<Seq<u8>>,
    top: Seq<Seq<u8>>,
    stem: Seq<u8>,
    extension: Seq<u8>,
    base: Seq<Seq<u8>>,
)
    requires
        base.len() > 0,
        path::valid_name(stem),
        !extension.contains(46),
        stem.push(46) + extension != seq![46u8, 46u8],
    ensures
        repo::opened(root, here, top.push(stem.push(46) + extension), base) == Ok::<
            RepoView,
            OpenError,
        >(
            RepoView {
                root,
                here,
                common: top.push(stem.push(46) + extension),
                main: top.push(stem.push(46) + extension),
                base,
                key: base.push(stem),
            },
        ),
{
    let name = stem.push(46) + extension;
    let common = top.push(name);
    let git = encode_utf8(".git"@);
    reveal_strlit(".git");
    is_ascii_chars_encode_utf8(".git"@);
    assert(git[0] == 46 && git.len() == 4);
    path::added_name_is_the_file_name(top, name);
    path::stem_loses_the_extension(stem, extension);
    if name == git {
        // The only dot of `.git` is its first byte.
        let n = stem.len() as int;
        assert(name[n] == 46);
        assert(n == 0) by {
            assert(git[1] != 46 && git[2] != 46 && git[3] != 46);
        }
    }
    path::file_name_is_one_component(stem);
    assert(path::joined(base, stem) =~= base.push(stem));
}

/// The filesystem's root is no base, and a repository there has no name.
pub proof fn roots_are_refused(
    root: Seq<Seq<u8>>,
    here: Seq<Seq<u8>>,
    common: Seq<Seq<u8>>,
    base: Seq<Seq<u8>>,
)
    ensures
        base.len() == 0 ==> repo::opened(root, here, common, base) is Err,
        common.len() == 0 ==> repo::opened(root, here, common, base) == Err::<RepoView, OpenError>(
            OpenError::NoName,
        ),
        repo::opened(root, here, common, base) matches Err(e) ==> e == OpenError::RootBase
            ==> base.len() == 0,
        repo::open_complaint(OpenError::NoName) == "repository has no name"@,
        repo::open_complaint(OpenError::RootBase)
            == "Cargo target base must not be the filesystem root"@,
{
}

/// The setting of a document is the string at `target-dir` in its `build`; something else there is a
/// fault, and nothing there is no setting.
pub proof fn setting_stands_under_build(tree: Map<Seq<Seq<char>>, Option<Seq<char>>>)
    ensures
        ({
            let way = seq!["build"@, "target-dir"@];
            let there = tree.contains_key(seq!["build"@]) && tree.contains_key(way);
            &&& there && tree[way] is Some ==> config::target_dir(tree) == Ok::<
                Option<Seq<char>>,
                Fault,
            >(tree[way])
            &&& there && tree[way] is None ==> config::target_dir(tree) == Err::<
                Option<Seq<char>>,
                Fault,
            >(Fault::NotAString)
            &&& !there ==> config::target_dir(tree) == Ok::<Option<Seq<char>>, Fault>(None)
        }),
{
}

/// A text that is no document is a fault with the parser's message; a document says what it sets.
pub proof fn text_sets_what_its_document_does(t: Seq<char>)
    ensures
        config::toml_outcome(t) matches Err(m) ==> config::configured(t) == Err::<
            Option<Seq<char>>,
            Fault,
        >(Fault::Syntax(m)),
        config::toml_outcome(t) matches Ok(tree) ==> config::configured(t) == config::target_dir(
            tree,
        ),
{
}

/// What a configuration file sets is read in the worktree: an absolute path as it is, any other
/// below the worktree.
pub proof fn setting_is_read_in_the_worktree(
    r: RepoView,
    wt: Seq<Seq<u8>>,
    t: Seq<char>,
    other: Option<Seq<char>>,
    dir: Seq<char>,
)
    requires
        config::configured(t) == Ok::<Option<Seq<char>>, Fault>(Some(dir)),
    ensures
        ({
            let raw = encode_utf8(dir);
            let found = if raw.len() > 0 && raw[0] == 47 {
                path::components(raw)
            } else {
                wt + path::components(raw)
            };
            &&& repo::target_by_files(r, wt, Some(t), other) == Ok::<Seq<Seq<u8>>, TargetFault>(
                found,
            )
            &&& repo::target_by_files(r, wt, None, Some(t)) == Ok::<Seq<Seq<u8>>, TargetFault>(
                found,
            )
        }),
{
}

/// The configuration file without an extension goes first and alone: where it is there, the other
/// does not matter, whether the first sets anything or is faulty.
pub proof fn bare_configuration_goes_first(
    r: RepoView,
    wt: Seq<Seq<u8>>,
    t: Seq<char>,
    a: Option<Seq<char>>,
    b: Option<Seq<char>>,
)
    ensures
        repo::target_by_files(r, wt, Some(t), a) == repo::target_by_files(r, wt, Some(t), b),
        config::configured(t) == Ok::<Option<Seq<char>>, Fault>(None) ==> repo::target_by_files(
            r,
            wt,
            Some(t),
            a,
        ) == repo::target_by_files(r, wt, None, None),
{
}

/// A faulty configuration file is named, with its fault.
pub proof fn faulty_configuration_is_named(
    r: RepoView,
    wt: Seq<Seq<u8>>,
    t: Seq<char>,
    a: Option<Seq<char>>,
    fault: Fault,
    file: Seq<Seq<u8>>,
    m: Seq<char>,
)
    requires
        config::configured(t) == Err::<Option<Seq<char>>, Fault>(fault),
    ensures
        repo::target_by_files(r, wt, Some(t), a) == Err::<Seq<Seq<u8>>, TargetFault>(
            TargetFault::Config(wt + seq![encode_utf8(".cargo"@), encode_utf8("config"@)], fault),
        ),
        repo::target_by_files(r, wt, None, Some(t)) == Err::<Seq<Seq<u8>>, TargetFault>(
            TargetFault::Config(
                wt + seq![encode_utf8(".cargo"@), encode_utf8("config.toml"@)],
                fault,
            ),
        ),
        repo::target_complaint(TargetFault::Config(file, Fault::Syntax(m))) == "invalid "@
            + path::display(file) + ": "@ + m,
        repo::target_complaint(TargetFault::Config(file, Fault::NotAString))
            == "build.target-dir must be a string"@,
        repo::target_complaint(TargetFault::NoName) == "worktree has no name"@,
{
    configuration_files_lie_in_cargo(wt);
}

/// The two configuration files lie in `.cargo` of a worktree.
pub proof fn configuration_files_lie_in_cargo(wt: Seq<Seq<u8>>)
    ensures
        repo::bare_config(wt) == wt + seq![encode_utf8(".cargo"@), encode_utf8("config"@)],
        repo::toml_config(wt) == wt + seq![encode_utf8(".cargo"@), encode_utf8("config.toml"@)],
{
    reveal_strlit(".cargo/config");
    reveal_strlit(".cargo/config.toml");
    reveal_strlit(".cargo");
    reveal_strlit("config");
    reveal_strlit("config.toml");
    is_ascii_chars_encode_utf8(".cargo/config"@);
    is_ascii_chars_encode_utf8(".cargo/config.toml"@);
    is_ascii_chars_encode_utf8(".cargo"@);
    is_ascii_chars_encode_utf8("config"@);
    is_ascii_chars_encode_utf8("config.toml"@);
    let dir = encode_utf8(".cargo"@);
    let bare = encode_utf8("config"@);
    let toml = encode_utf8("config.toml"@);
    assert(encode_utf8(".cargo/config"@) =~= dir.push(47) + bare);
    assert(encode_utf8(".cargo/config.toml"@) =~= dir.push(47) + toml);
    assert(path::valid_name(dir)) by {
        assert(dir.len() == 6);
    }
    assert(path::valid_name(bare)) by {
        assert(bare.len() == 6);
    }
    assert(path::valid_name(toml)) by {
        assert(toml.len() == 11);
    }
    path::slash_separates(dir, bare);
    path::slash_separates(dir, toml);
    path::file_name_is_one_component(dir);
    path::file_name_is_one_component(bare);
    path::file_name_is_one_component(toml);
    assert(wt + (seq![dir] + seq![bare]) =~= wt + seq![dir, bare]);
    assert(wt + (seq![dir] + seq![toml]) =~= wt + seq![dir, toml]);
}

/// Without a setting, the target directory is `<worktree>/target` among the repository's, and
/// `main/target` for the main checkout; a worktree without a name has none.
pub proof fn usual_target_goes_by_the_name(r: RepoView, top: Seq<Seq<u8>>, name: Seq<u8>)
    requires
        path::valid_name(name),
        name != seq![46u8, 46u8],
    ensures
        top.push(name) != r.main ==> repo::usual_target(r, top.push(name)) == Ok::<
            Seq<Seq<u8>>,
            TargetFault,
        >(r.key + seq![name, encode_utf8("target"@)]),
        repo::usual_target(r, r.main) == Ok::<Seq<Seq<u8>>, TargetFault>(
            r.key + seq![encode_utf8("main"@), encode_utf8("target"@)],
        ),
        r.main.len() > 0 ==> repo::usual_target(r, Seq::empty()) == Err::<
            Seq<Seq<u8>>,
            TargetFault,
        >(TargetFault::NoName),
{
    let target = encode_utf8("target"@);
    let main = encode_utf8("main"@);
    reveal_strlit("main");
    reveal_strlit("target");
    is_ascii_chars_encode_utf8("main"@);
    is_ascii_chars_encode_utf8("target"@);
    assert(main.len() == 4 && target.len() == 6);
    assert(path::valid_name(main) && path::valid_name(target));
    path::added_name_is_the_file_name(top, name);
    path::file_name_is_one_component(name);
    path::file_name_is_one_component(main);
    path::file_name_is_one_component(target);
    assert(r.key + seq![name] + seq![target] =~= r.key + seq![name, target]);
    assert(r.key + seq![main] + seq![target] =~= r.key + seq![main, target]);
}

/// The entry of a listed worktree keeps its path, target directory and lock, and is the main checkout
/// just where it lies at the main checkout or at Git's data.
pub proof fn entry_keeps_what_is_listed(
    r: RepoView,
    record: Record,
    at: Seq<Seq<u8>>,
    target: Seq<Seq<u8>>,
)
    ensures
        repo::entry_of(r, record, at, target) matches Ok(e) ==> {
            &&& e.path == at
            &&& e.target == target
            &&& e.locked == record.locked
            &&& e.kind == Kind::Main <==> at == r.main || at == r.common
            &&& e.kind == Kind::Main || e.kind == Kind::Worktree
        },
{
}

/// The branch of a listed worktree is the last that is named, decoded; without any it is detached;
/// and one that is not UTF-8 is a fault.
pub proof fn branch_is_the_last_one_named(
    r: RepoView,
    record: Record,
    at: Seq<Seq<u8>>,
    target: Seq<Seq<u8>>,
    raw: Seq<u8>,
)
    ensures
        record.branches.len() == 0 ==> (repo::entry_of(r, record, at, target) matches Ok(e)
            && e.branch is None),
        record.branches == seq![raw] && valid_utf8(raw) ==> (repo::entry_of(
            r,
            record,
            at,
            target,
        ) matches Ok(e) && e.branch == Some(decode_utf8(raw))),
        record.branches == seq![raw] && !valid_utf8(raw) ==> repo::entry_of(r, record, at, target)
            == Err::<EntryView, Seq<char>>(text::utf8_complaint(raw)),
        record.branches.len() > 0 ==> (repo::entry_of(r, record, at, target) matches Ok(e)
            ==> e.branch == Some(decode_utf8(record.branches.last()))),
        repo::entry_of(r, record, at, target) is Ok <==> forall|i: int|
            0 <= i < record.branches.len() ==> valid_utf8(#[trigger] record.branches[i]),
{
    reveal_with_fuel(repo::branch_of, 2);
    if record.branches == seq![raw] {
        assert(record.branches.drop_last() =~= Seq::<Seq<u8>>::empty());
        assert(record.branches.last() == raw);
    }
    branches_are_all_decoded(record.branches);
}

/// The branches are told just where all are UTF-8.
proof fn branches_are_all_decoded(branches: Seq<Seq<u8>>)
    ensures
        repo::branch_of(branches) is Ok <==> forall|i: int|
            0 <= i < branches.len() ==> valid_utf8(#[trigger] branches[i]),
    decreases branches.len(),
{
    if branches.len() > 0 {
        let before = branches.drop_last();
        branches_are_all_decoded(before);
        if repo::branch_of(branches) is Ok {
            assert forall|i: int| 0 <= i < branches.len() implies valid_utf8(
                #[trigger] branches[i],
            ) by {
                if i < before.len() {
                    assert(before[i] == branches[i]);
                }
            }
        } else if forall|i: int|
            0 <= i < branches.len() ==> valid_utf8(#[trigger] branches[i]) {
            assert(valid_utf8(branches[branches.len() - 1]));
            assert forall|i: int| 0 <= i < before.len() implies valid_utf8(
                #[trigger] before[i],
            ) by {
                assert(before[i] == branches[i]);
            }
        }
    }
}

/// An entry goes by the last name of its path: as it is where that is UTF-8, and repaired otherwise.
pub proof fn entry_goes_by_its_last_name(top: Seq<Seq<u8>>, name: Seq<u8>)
    requires
        name != seq![46u8, 46u8],
    ensures
        valid_utf8(name) ==> entry::name_of(top.push(name)) == decode_utf8(name),
        !valid_utf8(name) ==> entry::name_of(top.push(name)) == text::utf8_lossy(name),
{
    path::added_name_is_the_file_name(top, name);
}

/// A path is shown as it is written: every name behind a slash, and the root as a slash.
pub proof fn path_is_shown_as_written(top: Seq<Seq<u8>>, name: Seq<u8>)
    ensures
        path::written(Seq::empty()) == seq![47u8],
        path::written(seq![name]) == seq![47u8] + name,
        top.len() > 0 ==> path::written(top.push(name)) == path::written(top).push(47) + name,
        valid_utf8(path::written(top)) ==> path::display(top) == decode_utf8(path::written(top)),
        !valid_utf8(path::written(top)) ==> path::display(top) == text::utf8_lossy(
            path::written(top),
        ),
{
    reveal_with_fuel(path::slashed, 2);
    assert(top.push(name).drop_last() =~= top);
    assert(seq![name].drop_last() =~= Seq::<Seq<u8>>::empty());
    assert(Seq::<u8>::empty().push(47) + name =~= seq![47u8] + name);
}

} // verus!
