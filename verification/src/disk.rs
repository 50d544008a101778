//! Whether a directory tree can be removed, and how.

use crate::text;
use vstd::prelude::*;
use vstd::string::*;

verus! {

/// One thing that was met on a walk through a directory tree.
pub enum Visit {
    /// A place that the walk could not enter, with its complaint.
    Unreadable(String),
    /// Something of which nothing could be learnt, with the complaint.
    Unknown(String),
    /// A file or directory.
    Node(Node),
}

/// A file or directory.
pub struct Node {
    /// Its path, as it is written.
    pub path: Vec<u8>,
    /// The device that it lies on.
    pub device: u64,
    /// The user that it belongs to.
    pub owner: u32,
    /// It is a directory.
    pub is_dir: bool,
    /// Entries can be removed from it, where it is a directory.
    pub writable: bool,
}

/// One thing that was met on a walk, as a value.
pub enum VisitView {
    Unreadable(Seq<char>),
    Unknown(Seq<char>),
    Node { path: Seq<u8>, device: u64, owner: u32, is_dir: bool, writable: bool },
}

impl View for Visit {
    type V = VisitView;

    open spec fn view(&self) -> VisitView {
        match *self {
            Visit::Unreadable(m) => VisitView::Unreadable(m@),
            Visit::Unknown(m) => VisitView::Unknown(m@),
            Visit::Node(n) => VisitView::Node {
                path: n.path@,
                device: n.device,
                owner: n.owner,
                is_dir: n.is_dir,
                writable: n.writable,
            },
        }
    }
}

/// The contents of a list of visits.
pub open spec fn views(list: Seq<Visit>) -> Seq<VisitView> {
    Seq::new(list.len(), |i: int| list[i]@)
}

/// Why what was met cannot be removed by `user` together with the tree on `device`. With `sudo`,
/// only another device, and what nothing is known of, stand in the way.
pub open spec fn hindrance(v: VisitView, device: u64, user: u32, sudo: bool) -> Option<Seq<char>> {
    match v {
        VisitView::Unreadable(m) => if sudo {
            None
        } else {
            Some(m)
        },
        VisitView::Unknown(m) => Some(m),
        VisitView::Node { path, device: d, owner, is_dir, writable } => if d != device {
            Some("nested mount point: "@ + text::shown(path))
        } else if sudo {
            None
        } else if owner != user {
            Some("foreign-owned path "@ + text::shown(path) + "; pass --sudo"@)
        } else if is_dir && !writable {
            Some("unwritable directory "@ + text::shown(path) + "; pass --sudo"@)
        } else {
            None
        },
    }
}

/// The first reason on a walk why the tree cannot be removed.
pub open spec fn first_hindrance(
    visits: Seq<VisitView>,
    device: u64,
    user: u32,
    sudo: bool,
) -> Option<Seq<char>>
    decreases visits.len(),
{
    if visits.len() == 0 {
        None
    } else {
        match hindrance(visits[0], device, user, sudo) {
            Some(m) => Some(m),
            None => first_hindrance(visits.skip(1), device, user, sudo),
        }
    }
}

/// Says why what was met cannot be removed.
fn hinders(v: &Visit, device: u64, user: u32, sudo: bool) -> (r: Option<String>)
    ensures
        text::optional(r) == hindrance(v@, device, user, sudo),
{
    match v {
        Visit::Unreadable(m) => {
            if sudo {
                None
            } else {
                Some(m.clone())
            }
        },
        Visit::Unknown(m) => Some(m.clone()),
        Visit::Node(n) => {
            if n.device != device {
                let mut out = "nested mount point: ".to_owned();
                out.append(text::show(n.path.as_slice()).as_str());
                Some(out)
            } else if sudo {
                None
            } else if n.owner != user {
                let mut out = "foreign-owned path ".to_owned();
                out.append(text::show(n.path.as_slice()).as_str());
                out.append("; pass --sudo");
                Some(out)
            } else if n.is_dir && !n.writable {
                let mut out = "unwritable directory ".to_owned();
                out.append(text::show(n.path.as_slice()).as_str());
                out.append("; pass --sudo");
                Some(out)
            } else {
                None
            }
        },
    }
}

/// Checks, from a walk through a tree on `device`, that `user` can remove all of it.
pub fn preflight(visits: &[Visit], device: u64, user: u32, sudo: bool) -> (r: Result<(), String>)
    ensures
        r is Ok <==> first_hindrance(views(visits@), device, user, sudo) is None,
        r matches Err(m) ==> first_hindrance(views(visits@), device, user, sudo) == Some(m@),
{
    let ghost all = views(visits@);
    let mut i: usize = 0;
    assert(all.skip(0) =~= all);
    while i < visits.len()
        invariant
            i <= visits@.len(),
            all == views(visits@),
            first_hindrance(all.skip(i as int), device, user, sudo) == first_hindrance(
                all,
                device,
                user,
                sudo,
            ),
        decreases visits@.len() - i,
    {
        assert(all.skip(i as int)[0] == visits@[i as int]@);
        assert(all.skip(i as int).skip(1) =~= all.skip(i + 1));
        if let Some(m) = hinders(&visits[i], device, user, sudo) {
            return Err(m);
        }
        i += 1;
    }
    Ok(())
}

/// How a directory tree is to be removed.
pub enum Removal {
    /// Not at all: nothing is there.
    Nothing,
    /// Not at all, for this reason.
    Refused(String),
    /// With `sudo`.
    Sudo,
    /// By the user.
    Plain,
}

/// How a directory tree is to be removed, as a value.
pub enum Way {
    Nothing,
    Refused(Seq<char>),
    Sudo,
    Plain,
}

impl View for Removal {
    type V = Way;

    open spec fn view(&self) -> Way {
        match *self {
            Removal::Nothing => Way::Nothing,
            Removal::Refused(m) => Way::Refused(m@),
            Removal::Sudo => Way::Sudo,
            Removal::Plain => Way::Plain,
        }
    }
}

/// How a directory tree is to be removed: `sudo` is used only where it is asked for and needed.
pub open spec fn way_of(
    exists: bool,
    sudo: bool,
    clear: Result<(), Seq<char>>,
    clear_unaided: bool,
) -> Way {
    if !exists {
        Way::Nothing
    } else {
        match clear {
            Err(m) => Way::Refused(m),
            Ok(()) => if sudo && !clear_unaided {
                Way::Sudo
            } else {
                Way::Plain
            },
        }
    }
}

/// Decides how a directory tree is to be removed, from the check with the given `sudo` and, where
/// that is set, from the check without it.
pub fn remove(exists: bool, sudo: bool, clear: Result<(), String>, clear_unaided: bool) -> (r: Removal)
    ensures
        r@ == way_of(
            exists,
            sudo,
            match clear {
                Ok(_) => Ok::<(), Seq<char>>(()),
                Err(m) => Err::<(), Seq<char>>(m@),
            },
            clear_unaided,
        ),
{
    if !exists {
        return Removal::Nothing;
    }
    match clear {
        Err(m) => Removal::Refused(m),
        Ok(_) => {
            if sudo && !clear_unaided {
                Removal::Sudo
            } else {
                Removal::Plain
            }
        },
    }
}

/// A walk can be checked piece by piece: the first piece that hinders decides.
pub proof fn walk_is_checked_piecewise(
    first: Seq<VisitView>,
    second: Seq<VisitView>,
    device: u64,
    user: u32,
    sudo: bool,
)
    ensures
        first_hindrance(first + second, device, user, sudo) == match first_hindrance(
            first,
            device,
            user,
            sudo,
        ) {
            Some(m) => Some(m),
            None => first_hindrance(second, device, user, sudo),
        },
    decreases first.len(),
{
    let all = first + second;
    if first.len() == 0 {
        assert(all =~= second);
    } else {
        assert(all[0] == first[0]);
        assert(all.skip(1) =~= first.skip(1) + second);
        walk_is_checked_piecewise(first.skip(1), second, device, user, sudo);
    }
}

/// A tree can be removed just when nothing in it stands in the way.
pub proof fn clear_tree_has_no_hindrance(
    visits: Seq<VisitView>,
    device: u64,
    user: u32,
    sudo: bool,
)
    ensures
        first_hindrance(visits, device, user, sudo) is None <==> forall|i: int|
            0 <= i < visits.len() ==> hindrance(#[trigger] visits[i], device, user, sudo) is None,
    decreases visits.len(),
{
    if visits.len() > 0 {
        let rest = visits.skip(1);
        clear_tree_has_no_hindrance(rest, device, user, sudo);
        if first_hindrance(visits, device, user, sudo) is None {
            assert forall|i: int| 0 <= i < visits.len() implies hindrance(
                #[trigger] visits[i],
                device,
                user,
                sudo,
            ) is None by {
                if i > 0 {
                    assert(rest[i - 1] == visits[i]);
                }
            }
        } else if forall|i: int|
            0 <= i < visits.len() ==> hindrance(#[trigger] visits[i], device, user, sudo) is None {
            assert(hindrance(visits[0], device, user, sudo) is None);
            assert forall|i: int| 0 <= i < rest.len() implies hindrance(
                #[trigger] rest[i],
                device,
                user,
                sudo,
            ) is None by {
                assert(rest[i] == visits[i + 1]);
            }
        }
    }
}

/// With `sudo`, nothing hinders that does not hinder without it.
pub proof fn sudo_hinders_no_more(visits: Seq<VisitView>, device: u64, user: u32)
    requires
        first_hindrance(visits, device, user, false) is None,
    ensures
        first_hindrance(visits, device, user, true) is None,
    decreases visits.len(),
{
    if visits.len() > 0 {
        sudo_hinders_no_more(visits.skip(1), device, user);
    }
}

/// `sudo` never reaches across a mount point.
pub proof fn mount_points_always_hinder(
    visits: Seq<VisitView>,
    i: int,
    device: u64,
    user: u32,
    sudo: bool,
)
    requires
        0 <= i < visits.len(),
        visits[i] matches VisitView::Node { path, device: d, owner, is_dir, writable } && d != device,
    ensures
        first_hindrance(visits, device, user, sudo) is Some,
{
    clear_tree_has_no_hindrance(visits, device, user, sudo);
}

/// `sudo` is used only where it is asked for, where nothing hinders it, and where the user alone
/// cannot do the removal.
pub proof fn sudo_is_used_only_when_needed(
    exists: bool,
    sudo: bool,
    clear: Result<(), Seq<char>>,
    clear_unaided: bool,
)
    requires
        way_of(exists, sudo, clear, clear_unaided) == Way::Sudo,
    ensures
        exists,
        sudo,
        clear is Ok,
        !clear_unaided,
{
}

/// What was met stands in nobody's way: it is known, lies on the device and, unless `sudo` helps, can
/// be read, belongs to the user and, where it is a directory, can be written.
pub open spec fn is_removable(v: VisitView, device: u64, user: u32, sudo: bool) -> bool {
    match v {
        VisitView::Unreadable(_) => sudo,
        VisitView::Unknown(_) => false,
        VisitView::Node { path, device: d, owner, is_dir, writable } => d == device && (sudo || (owner
            == user && (is_dir ==> writable))),
    }
}

/// A tree can be removed just where all that was met in it can.
pub proof fn tree_goes_where_all_of_it_can(
    visits: Seq<VisitView>,
    device: u64,
    user: u32,
    sudo: bool,
)
    ensures
        first_hindrance(visits, device, user, sudo) is None <==> forall|i: int|
            0 <= i < visits.len() ==> is_removable(#[trigger] visits[i], device, user, sudo),
{
    clear_tree_has_no_hindrance(visits, device, user, sudo);
    assert forall|i: int| 0 <= i < visits.len() implies (hindrance(
        #[trigger] visits[i],
        device,
        user,
        sudo,
    ) is None <==> is_removable(visits[i], device, user, sudo)) by {}
    if forall|i: int|
        0 <= i < visits.len() ==> is_removable(#[trigger] visits[i], device, user, sudo) {
        assert forall|i: int| 0 <= i < visits.len() implies hindrance(
            #[trigger] visits[i],
            device,
            user,
            sudo,
        ) is None by {
            assert(is_removable(visits[i], device, user, sudo));
        }
    }
    if first_hindrance(visits, device, user, sudo) is None {
        assert forall|i: int| 0 <= i < visits.len() implies is_removable(
            #[trigger] visits[i],
            device,
            user,
            sudo,
        ) by {
            assert(hindrance(visits[i], device, user, sudo) is None);
        }
    }
}

/// The first thing on a walk that cannot be removed is what is complained of: what could not be read
/// or known with its own words, and the rest by path, a mount point before a foreign owner and that
/// before a directory that cannot be written.
pub proof fn first_hindrance_is_told(
    before: Seq<VisitView>,
    v: VisitView,
    after: Seq<VisitView>,
    device: u64,
    user: u32,
    sudo: bool,
)
    requires
        forall|i: int|
            0 <= i < before.len() ==> is_removable(#[trigger] before[i], device, user, sudo),
        !is_removable(v, device, user, sudo),
    ensures
        first_hindrance(before + seq![v] + after, device, user, sudo) == Some(
            match v {
                VisitView::Unreadable(m) => m,
                VisitView::Unknown(m) => m,
                VisitView::Node { path, device: d, owner, is_dir, writable } => if d != device {
                    "nested mount point: "@ + text::shown(path)
                } else if owner != user {
                    "foreign-owned path "@ + text::shown(path) + "; pass --sudo"@
                } else {
                    "unwritable directory "@ + text::shown(path) + "; pass --sudo"@
                },
            },
        ),
{
    tree_goes_where_all_of_it_can(before, device, user, sudo);
    let rest = seq![v] + after;
    walk_is_checked_piecewise(before, rest, device, user, sudo);
    assert(before + seq![v] + after =~= before + rest);
    assert(rest[0] == v);
}

/// Nothing is removed that is not there or that the check refuses; anything else goes, with `sudo`
/// just where it is asked for and the user alone could not do it.
pub proof fn removal_goes_by_the_checks(
    exists: bool,
    sudo: bool,
    clear: Result<(), Seq<char>>,
    clear_unaided: bool,
)
    ensures
        !exists ==> way_of(exists, sudo, clear, clear_unaided) == Way::Nothing,
        exists ==> (clear matches Err(m) ==> way_of(exists, sudo, clear, clear_unaided)
            == Way::Refused(m)),
        exists && clear is Ok && sudo && !clear_unaided ==> way_of(
            exists,
            sudo,
            clear,
            clear_unaided,
        ) == Way::Sudo,
        exists && clear is Ok && (!sudo || clear_unaided) ==> way_of(
            exists,
            sudo,
            clear,
            clear_unaided,
        ) == Way::Plain,
{
}

} // verus!
