//! A repository: where its parts lie, whose a directory is, and which target may go.

use crate::bytes;
use crate::config;
use crate::config::{ConfigError, Fault};
use crate::entry::{Entry, EntryView, Kind, Record, Registration};
use crate::path;
use crate::path::AbsPath;
use crate::text;
use vstd::prelude::*;
use vstd::string::*;
use vstd::utf8::*;

verus! {

/// A repository and the place of its target directories.
#[derive(Debug)]
pub struct Repo {
    root: AbsPath,
    here: AbsPath,
    common: AbsPath,
    main: AbsPath,
    base: AbsPath,
    key: AbsPath,
}

/// A repository as a value.
#[verifier::ext_equal]
pub struct RepoView {
    /// The directory that the program was told to work in.
    pub root: Seq<Seq<u8>>,
    /// The directory that the user is in.
    pub here: Seq<Seq<u8>>,
    /// The directory of Git's own data.
    pub common: Seq<Seq<u8>>,
    /// The main checkout.
    pub main: Seq<Seq<u8>>,
    /// The directory of all target directories.
    pub base: Seq<Seq<u8>>,
    /// The directory of this repository's target directories.
    pub key: Seq<Seq<u8>>,
}

impl View for Repo {
    type V = RepoView;

    closed spec fn view(&self) -> RepoView {
        RepoView {
            root: self.root@,
            here: self.here@,
            common: self.common@,
            main: self.main@,
            base: self.base@,
            key: self.key@,
        }
    }
}

/// Why a repository cannot be worked on.
#[derive(Clone, Copy, Debug, PartialEq, Eq, Structural)]
pub enum OpenError {
    /// Its directory has no name.
    NoName,
    /// All of the filesystem would be the directory of target directories.
    RootBase,
}

/// What is said where a repository cannot be worked on.
pub open spec fn open_complaint(e: OpenError) -> Seq<char> {
    match e {
        OpenError::NoName => "repository has no name"@,
        OpenError::RootBase => "Cargo target base must not be the filesystem root"@,
    }
}

impl OpenError {
    /// Says why a repository cannot be worked on.
    pub fn message(&self) -> (r: String)
        ensures
            r@ == open_complaint(*self),
    {
        match self {
            OpenError::NoName => "repository has no name".to_owned(),
            OpenError::RootBase => "Cargo target base must not be the filesystem root".to_owned(),
        }
    }
}

/// Git's data lies in a directory `.git` of the main checkout.
pub open spec fn has_checkout(common: Seq<Seq<u8>>) -> bool {
    path::file_name(common) == Some(bytes::utf8(".git"@))
}

/// The main checkout, or Git's data itself where a repository is bare.
pub open spec fn main_of(common: Seq<Seq<u8>>) -> Seq<Seq<u8>> {
    if has_checkout(common) {
        common.drop_last()
    } else {
        common
    }
}

/// The name of a repository: that of its main checkout, or that of a bare repository without its
/// extension.
pub open spec fn name_of(common: Seq<Seq<u8>>) -> Option<Seq<u8>> {
    if has_checkout(common) {
        path::file_name(common.drop_last())
    } else {
        match path::file_name(common) {
            Some(n) => Some(path::stem(n)),
            None => None,
        }
    }
}

/// A checkout has a name to go by.
pub open spec fn checkout_is_named(common: Seq<Seq<u8>>) -> bool {
    has_checkout(common) ==> path::file_name(common.drop_last()) is Some
}

/// What opening a repository gives.
pub open spec fn opened(
    root: Seq<Seq<u8>>,
    here: Seq<Seq<u8>>,
    common: Seq<Seq<u8>>,
    base: Seq<Seq<u8>>,
) -> Result<RepoView, OpenError> {
    match name_of(common) {
        None => Err(OpenError::NoName),
        Some(name) => if base.len() == 0 {
            Err(OpenError::RootBase)
        } else {
            Ok(
                RepoView {
                    root,
                    here,
                    common,
                    main: main_of(common),
                    base,
                    key: path::joined(base, name),
                },
            )
        },
    }
}

/// The contents of an opened repository.
pub open spec fn opening(r: Result<Repo, OpenError>) -> Result<RepoView, OpenError> {
    match r {
        Ok(repo) => Ok(repo@),
        Err(e) => Err(e),
    }
}

/// The directory of all target directories, as it is written: what the environment says, or the
/// usual place.
pub fn base_setting(variable: Option<Vec<u8>>) -> (r: Vec<u8>)
    ensures
        r@ == match variable {
            Some(v) => v@,
            None => bytes::utf8("/.cargo-targets/targets"@),
        },
{
    match variable {
        Some(v) => v,
        None => bytes::copy("/.cargo-targets/targets".as_bytes()),
    }
}

impl Repo {
    /// The main checkout of a repository, and its name.
    pub fn locate(common: &AbsPath) -> (r: Result<(AbsPath, Vec<u8>), OpenError>)
        requires
            checkout_is_named(common@),
        ensures
            r matches Ok(found) ==> found.0@ == main_of(common@) && name_of(common@) == Some(
                found.1@,
            ),
            r matches Err(e) ==> e == OpenError::NoName && name_of(common@) is None,
    {
        let name = match common.file_name() {
            None => {
                return Err(OpenError::NoName);
            },
            Some(n) => n,
        };
        if bytes::same(name.as_slice(), ".git".as_bytes()) {
            assert(has_checkout(common@));
            match common.parent() {
                Some(main) => match main.file_name() {
                    Some(n) => Ok((main, n)),
                    None => Err(OpenError::NoName),
                },
                None => Err(OpenError::NoName),
            }
        } else {
            Ok((common.clone(), path::file_stem(name.as_slice())))
        }
    }

    /// Opens the repository whose data lies in `common`, to work in `root` for a user who is in
    /// `here`, with its target directories under `base`.
    pub fn open(root: AbsPath, here: AbsPath, common: AbsPath, base: AbsPath) -> (r: Result<
        Repo,
        OpenError,
    >)
        requires
            checkout_is_named(common@),
        ensures
            opening(r) == opened(root@, here@, common@, base@),
    {
        match Repo::locate(&common) {
            Err(e) => Err(e),
            Ok((main, name)) => {
                if base.depth() == 0 {
                    return Err(OpenError::RootBase);
                }
                let key = base.join(name.as_slice());
                Ok(Repo { root, here, common, main, base, key })
            },
        }
    }

    /// The directory that the program was told to work in.
    pub fn root(&self) -> (p: &AbsPath)
        ensures
            p@ == self@.root,
    {
        &self.root
    }

    /// The directory that the user is in.
    pub fn here(&self) -> (p: &AbsPath)
        ensures
            p@ == self@.here,
    {
        &self.here
    }

    /// The directory of Git's own data.
    pub fn common(&self) -> (p: &AbsPath)
        ensures
            p@ == self@.common,
    {
        &self.common
    }

    /// The main checkout.
    pub fn main(&self) -> (p: &AbsPath)
        ensures
            p@ == self@.main,
    {
        &self.main
    }

    /// The directory of all target directories.
    pub fn base(&self) -> (p: &AbsPath)
        ensures
            p@ == self@.base,
    {
        &self.base
    }

    /// The directory of this repository's target directories.
    pub fn key(&self) -> (p: &AbsPath)
        ensures
            p@ == self@.key,
    {
        &self.key
    }
}

/// Why the target directory of a worktree is not known.
pub enum TargetError {
    /// This configuration file cannot be used.
    Config(AbsPath, ConfigError),
    /// The worktree has no name.
    NoName,
}

/// Why the target directory of a worktree is not known, as a value.
pub enum TargetFault {
    Config(Seq<Seq<u8>>, Fault),
    NoName,
}

impl View for TargetError {
    type V = TargetFault;

    open spec fn view(&self) -> TargetFault {
        match *self {
            TargetError::Config(p, e) => TargetFault::Config(p@, e@),
            TargetError::NoName => TargetFault::NoName,
        }
    }
}

/// What is said where the target directory of a worktree is not known.
pub open spec fn target_complaint(fault: TargetFault) -> Seq<char> {
    match fault {
        TargetFault::Config(file, e) => config::complaint(e, file),
        TargetFault::NoName => "worktree has no name"@,
    }
}

impl TargetError {
    /// Says why the target directory is not known.
    pub fn message(&self) -> (r: String)
        ensures
            r@ == target_complaint(self@),
    {
        match self {
            TargetError::Config(file, e) => e.message(file),
            TargetError::NoName => "worktree has no name".to_owned(),
        }
    }
}

/// The contents of a target directory that was found.
pub open spec fn finding(r: Result<AbsPath, TargetError>) -> Result<Seq<Seq<u8>>, TargetFault> {
    match r {
        Ok(p) => Ok(p@),
        Err(e) => Err(e@),
    }
}

/// The target directory of a worktree that sets none: under the name of the worktree, and under
/// `main` for the main checkout.
pub open spec fn usual_target(repo: RepoView, wt: Seq<Seq<u8>>) -> Result<
    Seq<Seq<u8>>,
    TargetFault,
> {
    if wt == repo.main {
        Ok(path::joined(path::joined(repo.key, bytes::utf8("main"@)), bytes::utf8("target"@)))
    } else {
        match path::file_name(wt) {
            Some(n) => Ok(path::joined(path::joined(repo.key, n), bytes::utf8("target"@))),
            None => Err(TargetFault::NoName),
        }
    }
}

/// The target directory of a worktree, before it is resolved: what its configuration file sets,
/// read in the worktree, or the usual one.
pub open spec fn target_of(
    repo: RepoView,
    wt: Seq<Seq<u8>>,
    file: Seq<Seq<u8>>,
    text: Option<Seq<char>>,
) -> Result<Seq<Seq<u8>>, TargetFault> {
    match text {
        None => usual_target(repo, wt),
        Some(t) => match config::configured(t) {
            Ok(Some(dir)) => Ok(path::joined(wt, bytes::utf8(dir))),
            Ok(None) => usual_target(repo, wt),
            Err(e) => Err(TargetFault::Config(file, e)),
        },
    }
}

/// The target directory of a worktree, before it is resolved, from the texts of its configuration
/// files: the one without an extension goes first, and alone.
pub open spec fn target_by_files(
    repo: RepoView,
    wt: Seq<Seq<u8>>,
    bare: Option<Seq<char>>,
    toml: Option<Seq<char>>,
) -> Result<Seq<Seq<u8>>, TargetFault> {
    if bare is Some {
        target_of(repo, wt, bare_config(wt), bare)
    } else {
        target_of(repo, wt, toml_config(wt), toml)
    }
}

/// The contents of an optional text.
pub open spec fn optional_str(s: Option<&str>) -> Option<Seq<char>> {
    match s {
        Some(t) => Some(t@),
        None => None,
    }
}

/// The configuration file without an extension.
pub open spec fn bare_config(wt: Seq<Seq<u8>>) -> Seq<Seq<u8>> {
    path::joined(wt, bytes::utf8(".cargo/config"@))
}

/// The configuration file with the extension `toml`.
pub open spec fn toml_config(wt: Seq<Seq<u8>>) -> Seq<Seq<u8>> {
    path::joined(wt, bytes::utf8(".cargo/config.toml"@))
}

impl Repo {
    /// The configuration files of a worktree; the first that exists counts, and no other.
    pub fn config_files(wt: &AbsPath) -> (r: (AbsPath, AbsPath))
        ensures
            r.0@ == bare_config(wt@),
            r.1@ == toml_config(wt@),
    {
        (wt.join(".cargo/config".as_bytes()), wt.join(".cargo/config.toml".as_bytes()))
    }

    /// The target directory that a setting gives a worktree.
    pub fn target_from(
        &self,
        wt: &AbsPath,
        file: AbsPath,
        setting: Result<Option<String>, ConfigError>,
    ) -> (r: Result<AbsPath, TargetError>)
        ensures
            finding(r) == match config::read(setting) {
                Ok(Some(dir)) => Ok(path::joined(wt@, bytes::utf8(dir))),
                Ok(None) => usual_target(self@, wt@),
                Err(e) => Err(TargetFault::Config(file@, e)),
            },
    {
        match setting {
            Err(e) => Err(TargetError::Config(file, e)),
            Ok(Some(dir)) => Ok(wt.join(dir.as_str().as_bytes())),
            Ok(None) => {
                if wt.same(&self.main) {
                    Ok(self.key.join("main".as_bytes()).join("target".as_bytes()))
                } else {
                    match wt.file_name() {
                        Some(n) => Ok(self.key.join(n.as_slice()).join("target".as_bytes())),
                        None => Err(TargetError::NoName),
                    }
                }
            },
        }
    }

    /// The target directory of a worktree, before it is resolved, from the texts of its two
    /// configuration files. The one without an extension goes first.
    pub fn target(&self, wt: &AbsPath, bare: Option<&str>, toml: Option<&str>) -> (r: Result<
        AbsPath,
        TargetError,
    >)
        ensures
            finding(r) == target_by_files(self@, wt@, optional_str(bare), optional_str(toml)),
    {
        let (bare_file, toml_file) = Repo::config_files(wt);
        match bare {
            Some(t) => self.target_from(wt, bare_file, config::text_target_dir(t)),
            None => match toml {
                Some(t) => self.target_from(wt, toml_file, config::text_target_dir(t)),
                None => self.target_from(wt, toml_file, Ok(None)),
            },
        }
    }
}

/// The branch that a worktree has checked out: the last one named, where all are UTF-8.
pub open spec fn branch_of(branches: Seq<Seq<u8>>) -> Result<Option<Seq<char>>, Seq<char>>
    decreases branches.len(),
{
    if branches.len() == 0 {
        Ok(None)
    } else {
        match branch_of(branches.drop_last()) {
            Err(m) => Err(m),
            Ok(_) => if valid_utf8(branches.last()) {
                Ok(Some(decode_utf8(branches.last())))
            } else {
                Err(text::utf8_complaint(branches.last()))
            },
        }
    }
}

/// The entry of a listed worktree.
pub open spec fn entry_of(
    repo: RepoView,
    record: Record,
    at: Seq<Seq<u8>>,
    target: Seq<Seq<u8>>,
) -> Result<EntryView, Seq<char>> {
    match branch_of(record.branches) {
        Err(m) => Err(m),
        Ok(branch) => Ok(
            EntryView {
                path: at,
                branch,
                target,
                kind: if at == repo.main || at == repo.common {
                    Kind::Main
                } else {
                    Kind::Worktree
                },
                locked: record.locked,
            },
        ),
    }
}

/// The contents of an entry that was made.
pub open spec fn making(r: Result<Entry, String>) -> Result<EntryView, Seq<char>> {
    match r {
        Ok(e) => Ok(e@),
        Err(m) => Err(m@),
    }
}

impl Repo {
    /// Makes the entry of a listed worktree from its resolved path and target directory.
    pub fn registered(&self, listed: &Registration, at: AbsPath, target: AbsPath) -> (r: Result<
        Entry,
        String,
    >)
        ensures
            making(r) == entry_of(self@, listed@, at@, target@),
    {
        let mut branch: Option<String> = None;
        let mut i: usize = 0;
        let ghost all = bytes::views(listed.branches@);
        while i < listed.branches.len()
            invariant
                i <= listed.branches@.len(),
                all == bytes::views(listed.branches@),
                branch_of(all.take(i as int)) == Ok::<Option<Seq<char>>, Seq<char>>(
                    text::optional(branch),
                ),
            decreases listed.branches@.len() - i,
        {
            let raw = bytes::copy(listed.branches[i].as_slice());
            assert(all.take(i + 1).drop_last() =~= all.take(i as int));
            assert(all.take(i + 1).last() == raw@);
            match text::decode(raw) {
                Ok(s) => {
                    branch = Some(s);
                },
                Err(m) => {
                    proof {
                        branch_error_stays(all, i + 1);
                    }
                    return Err(m);
                },
            }
            i += 1;
        }
        assert(all.take(i as int) =~= all);
        let kind = if at.same(&self.main) || at.same(&self.common) {
            Kind::Main
        } else {
            Kind::Worktree
        };
        Ok(Entry { path: at, branch, target, kind, locked: listed.locked })
    }
}

/// The first branch that is not UTF-8 decides.
proof fn branch_error_stays(branches: Seq<Seq<u8>>, k: int)
    requires
        0 <= k <= branches.len(),
        branch_of(branches.take(k)) is Err,
    ensures
        branch_of(branches) == branch_of(branches.take(k)),
    decreases branches.len() - k,
{
    if k == branches.len() {
        assert(branches.take(k) =~= branches);
    } else {
        assert(branches.take(k + 1).drop_last() =~= branches.take(k));
        branch_error_stays(branches, k + 1);
    }
}

/// A word of this module is a name.
proof fn words_are_names()
    ensures
        path::valid_name(bytes::utf8("main"@)),
        path::valid_name(bytes::utf8("target"@)),
{
    reveal_strlit("main");
    reveal_strlit("target");
    is_ascii_chars_encode_utf8("main"@);
    is_ascii_chars_encode_utf8("target"@);
    assert(bytes::utf8("main"@).len() == 4);
    assert(bytes::utf8("target"@).len() == 6);
}

/// Without a setting, the target directory of a worktree is `<base>/<repository>/<worktree>/target`,
/// and that of the main checkout is `<base>/<repository>/main/target`.
pub proof fn usual_target_is_keyed_by_names(
    root: Seq<Seq<u8>>,
    here: Seq<Seq<u8>>,
    common: Seq<Seq<u8>>,
    base: Seq<Seq<u8>>,
    wt: Seq<Seq<u8>>,
)
    requires
        base.len() > 0,
        path::valid(wt),
        path::file_name(wt) is Some,
        name_of(common) matches Some(n) && path::valid_name(n),
    ensures
        ({
            let repo = opened(root, here, common, base)->Ok_0;
            let name = name_of(common)->0;
            let key = if wt == main_of(common) {
                bytes::utf8("main"@)
            } else {
                wt.last()
            };
            &&& opened(root, here, common, base) is Ok
            &&& usual_target(repo, wt) == Ok::<Seq<Seq<u8>>, TargetFault>(
                base + seq![name, key, bytes::utf8("target"@)],
            )
        }),
{
    let repo = opened(root, here, common, base)->Ok_0;
    let name = name_of(common)->0;
    let main = bytes::utf8("main"@);
    let target = bytes::utf8("target"@);
    let key = if wt == main_of(common) {
        main
    } else {
        wt.last()
    };
    words_are_names();
    assert(path::valid_name(wt[wt.len() - 1]));
    path::file_name_is_one_component(name);
    path::file_name_is_one_component(key);
    path::file_name_is_one_component(target);
    assert(base + seq![name] + seq![key] + seq![target] =~= base + seq![name, key, target]);
}

} // verus!
