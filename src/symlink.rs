use vstd::prelude::*;

use crate::distro::{
    dist_views, is_listing_of, list_distribution_names, name_views, ros_root, selected,
    CanonicalEntry, Distribution, LinkState, LinkView,
};
use crate::error::RosenvError;
use crate::text::{join_path, joined, str_eq};

verus! {

/// The next step in making a canonical entry point at an installation.
#[derive(Debug, Clone, Copy, PartialEq, Eq)]
pub enum LinkStep {
    /// The entry already points at the installation: nothing to do.
    UpToDate,
    /// Nothing stands at the entry: create the link.
    Create,
    /// Something else stands there: ask before overwriting it.
    Confirm,
    /// Remove what stands there and create the link.
    Overwrite,
    /// The overwrite was declined: leave the entry as it is.
    Skipped,
}

/// How to clear what stands at a canonical entry.
#[derive(Debug, Clone, Copy, PartialEq, Eq)]
pub enum Removal {
    /// Nothing to remove by this tool (absent, or neither link nor directory).
    Nothing,
    /// Unlink a symlink.
    Unlink,
    /// Remove a directory with its contents.
    RemoveTree,
}

pub open spec fn link_plan(state: LinkView, target: Seq<char>, force: bool) -> LinkStep {
    match state {
        LinkView::Absent => LinkStep::Create,
        LinkView::Symlink(t) => if t == target {
            LinkStep::UpToDate
        } else if force {
            LinkStep::Overwrite
        } else {
            LinkStep::Confirm
        },
        _ => if force {
            LinkStep::Overwrite
        } else {
            LinkStep::Confirm
        },
    }
}

/// The step taken once the user answered the overwrite question.
pub open spec fn answer_step(yes: bool) -> LinkStep {
    if yes {
        LinkStep::Overwrite
    } else {
        LinkStep::Skipped
    }
}

/// Whether a step writes to the filesystem.
pub open spec fn step_writes(step: LinkStep) -> bool {
    step == LinkStep::Create || step == LinkStep::Overwrite
}

/// What stands at the entry once `step` has been carried out.
pub open spec fn state_after(state: LinkView, step: LinkStep, target: Seq<char>) -> LinkView {
    if step_writes(step) {
        LinkView::Symlink(target)
    } else {
        state
    }
}

pub open spec fn removal_of(state: LinkView) -> Removal {
    match state {
        LinkView::Symlink(_) => Removal::Unlink,
        LinkView::Directory => Removal::RemoveTree,
        _ => Removal::Nothing,
    }
}

/// Decides what to do about the canonical entry whose current state is
/// `state`, so that it points at `target`; `force` skips the question.
pub fn plan_link(state: &LinkState, target: &str, force: bool) -> (r: LinkStep)
    ensures
        r == link_plan(state@, target@, force),
{
    match state {
        LinkState::Absent => LinkStep::Create,
        LinkState::Symlink { target: t } => {
            if str_eq(t.as_str(), target) {
                LinkStep::UpToDate
            } else if force {
                LinkStep::Overwrite
            } else {
                LinkStep::Confirm
            }
        },
        _ => {
            if force {
                LinkStep::Overwrite
            } else {
                LinkStep::Confirm
            }
        },
    }
}

/// The step after the overwrite question was answered.
pub fn answer_overwrite(yes: bool) -> (r: LinkStep)
    ensures
        r == answer_step(yes),
{
    if yes {
        LinkStep::Overwrite
    } else {
        LinkStep::Skipped
    }
}

/// How to clear the entry before a link is written in its place.
pub fn removal_for(state: &LinkState) -> (r: Removal)
    ensures
        r == removal_of(state@),
{
    match state {
        LinkState::Symlink { .. } => Removal::Unlink,
        LinkState::Directory => Removal::RemoveTree,
        _ => Removal::Nothing,
    }
}

/// Reconciling an entry that already points at the installation asks
/// nothing and writes nothing, with or without force.
pub proof fn lemma_correct_link_untouched(target: Seq<char>, force: bool)
    ensures
        link_plan(LinkView::Symlink(target), target, force) == LinkStep::UpToDate,
        !step_writes(link_plan(LinkView::Symlink(target), target, force)),
        state_after(
            LinkView::Symlink(target),
            link_plan(LinkView::Symlink(target), target, force),
            target,
        ) == LinkView::Symlink(target),
{
}

/// Declining the overwrite question leaves the entry as it was.
pub proof fn lemma_declined_overwrite_keeps_entry(state: LinkView, target: Seq<char>, force: bool)
    requires
        link_plan(state, target, force) == LinkStep::Confirm,
    ensures
        !step_writes(answer_step(false)),
        state_after(state, answer_step(false), target) == state,
{
}


/// Checks that a canonical entry exists before it is removed, and says how to
/// remove it.
pub fn plan_remove(distro: &str, state: &LinkState) -> (r: Result<Removal, RosenvError>)
    ensures
        state@ is Absent ==> (r matches Err(RosenvError::NotFound { distro: d }) && d@ == distro@),
        !(state@ is Absent) ==> r == Ok::<Removal, RosenvError>(removal_of(state@)),
{
    match state {
        LinkState::Absent => Err(RosenvError::NotFound { distro: String::from_str(distro) }),
        _ => Ok(removal_for(state)),
    }
}

/// The path of the first installation of version `name` in `found`.
pub fn find_installation(found: &Vec<Distribution>, name: &str) -> (r: Option<String>)
    ensures
        r matches Some(p) ==> exists|i: int|
            0 <= i < found@.len() && (#[trigger] found@[i]).name@ == name@ && found@[i].path@ == p@
                && forall|k: int| 0 <= k < i ==> (#[trigger] found@[k]).name@ != name@,
        r is None ==> forall|i: int| 0 <= i < found@.len() ==> (#[trigger] found@[i]).name@ != name@,
{
    let mut i: usize = 0;
    while i < found.len()
        invariant
            i <= found@.len(),
            forall|k: int| 0 <= k < i ==> (#[trigger] found@[k]).name@ != name@,
        decreases found@.len() - i,
    {
        if str_eq(found[i].name.as_str(), name) {
            return Some(found[i].path.clone());
        }
        i = i + 1;
    }
    None
}

/// The installations of `found`, in their order, whose version is not among
/// the names `existing`.
pub open spec fn fresh_of(found: Seq<(Seq<char>, Seq<char>)>, existing: Seq<Seq<char>>) -> Seq<
    (Seq<char>, Seq<char>),
>
    decreases found.len(),
{
    if found.len() == 0 {
        seq![]
    } else {
        let prev = fresh_of(found.drop_last(), existing);
        if existing.contains(found.last().0) {
            prev
        } else {
            prev.push(found.last())
        }
    }
}

fn contains_name(names: &Vec<String>, name: &str) -> (r: bool)
    ensures
        r == name_views(names@).contains(name@),
{
    let mut i: usize = 0;
    while i < names.len()
        invariant
            i <= names@.len(),
            forall|k: int| 0 <= k < i ==> name_views(names@)[k] != name@,
        decreases names@.len() - i,
    {
        if str_eq(names[i].as_str(), name) {
            assert(name_views(names@)[i as int] == name@);
            return true;
        }
        i = i + 1;
    }
    false
}

/// The installations that have no canonical entry yet: what a refresh links.
pub fn new_installations(existing: &Vec<String>, found: &Vec<Distribution>) -> (r: Vec<Distribution>)
    ensures
        dist_views(r@) == fresh_of(dist_views(found@), name_views(existing@)),
{
    let ghost ex = name_views(existing@);
    let mut r: Vec<Distribution> = Vec::new();
    let mut i: usize = 0;
    while i < found.len()
        invariant
            ex == name_views(existing@),
            i <= found@.len(),
            dist_views(r@) == fresh_of(dist_views(found@).take(i as int), ex),
        decreases found@.len() - i,
    {
        let ghost before = dist_views(r@);
        assert(dist_views(found@).take(i + 1).drop_last() =~= dist_views(found@).take(i as int));
        if !contains_name(existing, found[i].name.as_str()) {
            let d = Distribution { name: found[i].name.clone(), path: found[i].path.clone() };
            r.push(d);
            assert(dist_views(r@) =~= before.push(found@[i as int]@));
        }
        i = i + 1;
    }
    assert(dist_views(found@).take(i as int) =~= dist_views(found@));
    r
}

/// How a refresh reports an existing canonical link.
#[derive(Debug, Clone, Copy, PartialEq, Eq)]
pub enum Freshness {
    /// The link's target exists.
    UpToDate,
    /// The link points at nothing.
    Broken,
}

/// Symlinks are reported by whether their target exists; other entries not at all.
pub open spec fn freshness_of(state: LinkView, target_exists: bool) -> Option<Freshness> {
    match state {
        LinkView::Symlink(_) => Some(
            if target_exists {
                Freshness::UpToDate
            } else {
                Freshness::Broken
            },
        ),
        _ => None,
    }
}

/// The refresh verdict on an existing entry; `target_exists` says whether
/// its link target exists.
pub fn link_freshness(state: &LinkState, target_exists: bool) -> (r: Option<Freshness>)
    ensures
        r == freshness_of(state@, target_exists),
{
    match state {
        LinkState::Symlink { .. } => {
            if target_exists {
                Some(Freshness::UpToDate)
            } else {
                Some(Freshness::Broken)
            }
        },
        _ => None,
    }
}

/// The marker file that tests whether the canonical directory can be written.
pub open spec fn writability_probe() -> Seq<char> {
    joined(ros_root(), ".rosenv-test"@)
}

pub fn writability_probe_path() -> (r: String)
    ensures
        r@ == writability_probe(),
{
    let root = crate::distro::get_ros_root();
    join_path(root.as_str(), ".rosenv-test")
}

/// The verdict on the canonical directory before links are written:
/// `root_exists` says whether it exists, `probe_created` whether the marker
/// file could be created in it.
pub fn writability_verdict(root_exists: bool, probe_created: bool) -> (r: Result<(), RosenvError>)
    ensures
        !root_exists ==> r == Err::<(), RosenvError>(RosenvError::RootMissing),
        root_exists && !probe_created ==> r == Err::<(), RosenvError>(RosenvError::RootNotWritable),
        root_exists && probe_created ==> r == Ok::<(), RosenvError>(()),
{
    if !root_exists {
        Err(RosenvError::RootMissing)
    } else if !probe_created {
        Err(RosenvError::RootNotWritable)
    } else {
        Ok(())
    }
}

/// The Unicode White_Space property, which `char::is_whitespace` tests.
pub open spec fn is_white_space(c: char) -> bool {
    let u = c as int;
    ||| 0x09 <= u <= 0x0d
    ||| u == 0x20
    ||| u == 0x85
    ||| u == 0xa0
    ||| u == 0x1680
    ||| 0x2000 <= u <= 0x200a
    ||| u == 0x2028
    ||| u == 0x2029
    ||| u == 0x202f
    ||| u == 0x205f
    ||| u == 0x3000
}

pub open spec fn trim_start_of(s: Seq<char>) -> Seq<char>
    decreases s.len(),
{
    if s.len() > 0 && is_white_space(s[0]) {
        trim_start_of(s.drop_first())
    } else {
        s
    }
}

pub open spec fn trim_end_of(s: Seq<char>) -> Seq<char>
    decreases s.len(),
{
    if s.len() > 0 && is_white_space(s.last()) {
        trim_end_of(s.drop_last())
    } else {
        s
    }
}

/// A string without its leading and trailing whitespace.
pub open spec fn trimmed(s: Seq<char>) -> Seq<char> {
    trim_end_of(trim_start_of(s))
}

/// Relies on str::trim: the string without the leading and trailing
/// characters of the White_Space property.
#[verifier::external_body]
fn trim(s: &str) -> (r: &str)
    ensures
        r@ == trimmed(s@),
{
    s.trim()
}

/// An answer (already trimmed) that accepts: `y` in either case.
pub open spec fn accepts(answer: Seq<char>) -> bool {
    answer == seq!['y'] || answer == seq!['Y']
}

pub fn is_yes(answer: &str) -> (r: bool)
    ensures
        r == accepts(answer@),
{
    if answer.unicode_len() != 1 {
        return false;
    }
    let c = answer.get_char(0);
    proof {
        if c == 'y' {
            assert(answer@ =~= seq!['y']);
        }
        if c == 'Y' {
            assert(answer@ =~= seq!['Y']);
        }
    }
    c == 'y' || c == 'Y'
}

/// Whether a line typed at a `[y/N]` question accepts.
pub fn confirmed(input: &str) -> (r: bool)
    ensures
        r == accepts(trimmed(input@)),
{
    is_yes(trim(input))
}


/// A canonical entry that a cleanup removes, and how.
#[derive(Debug, Clone)]
pub struct CleanupItem {
    pub name: String,
    pub removal: Removal,
}

pub open spec fn cleanup_names(items: Seq<CleanupItem>) -> Seq<Seq<char>> {
    items.map_values(|c: CleanupItem| c.name@)
}

/// Entry `j` is the first listed entry of the canonical directory named `name`.
pub open spec fn first_listed(es: Seq<CanonicalEntry>, j: int, name: Seq<char>) -> bool {
    &&& 0 <= j < es.len()
    &&& selected(es[j])
    &&& es[j].name@ == name
    &&& forall|k: int| 0 <= k < j ==> !(selected(#[trigger] es[k]) && es[k].name@ == name)
}

/// `item` is removed the way the first listed entry of its name asks.
pub open spec fn removes_as_listed(es: Seq<CanonicalEntry>, item: CleanupItem) -> bool {
    exists|j: int| #[trigger] first_listed(es, j, item.name@) && item.removal == removal_of(es[j].state@)
}

fn listed_removal(entries: &Vec<CanonicalEntry>, name: &str) -> (r: Removal)
    requires
        exists|j: int| 0 <= j < entries@.len() && selected(#[trigger] entries@[j]) && entries@[j].name@ == name@,
    ensures
        exists|j: int| #[trigger] first_listed(entries@, j, name@) && r == removal_of(entries@[j].state@),
{
    let mut j: usize = 0;
    while j < entries.len()
        invariant
            j <= entries@.len(),
            forall|k: int| 0 <= k < j ==> !(selected(#[trigger] entries@[k]) && entries@[k].name@ == name@),
        decreases entries@.len() - j,
    {
        let listed = match &entries[j].state {
            LinkState::Symlink { .. } => true,
            LinkState::Directory => true,
            _ => false,
        };
        if listed && str_eq(entries[j].name.as_str(), name) {
            assert(first_listed(entries@, j as int, name@));
            return removal_for(&entries[j].state);
        }
        j = j + 1;
    }
    Removal::Nothing
}

/// Every entry of the canonical directory that a listing shows, in the same
/// order, each with how it is removed: a cleanup removes them all.
pub fn cleanup_candidates(entries: &Vec<CanonicalEntry>) -> (r: Vec<CleanupItem>)
    ensures
        is_listing_of(entries@, cleanup_names(r@)),
        forall|i: int| 0 <= i < r@.len() ==> removes_as_listed(entries@, #[trigger] r@[i]),
{
    let names = list_distribution_names(entries);
    let mut r: Vec<CleanupItem> = Vec::new();
    let mut i: usize = 0;
    while i < names.len()
        invariant
            is_listing_of(entries@, name_views(names@)),
            i <= names@.len(),
            r@.len() == i,
            cleanup_names(r@) == name_views(names@).take(i as int),
            forall|k: int| 0 <= k < r@.len() ==> removes_as_listed(entries@, #[trigger] r@[k]),
        decreases names@.len() - i,
    {
        assert(name_views(names@).contains(name_views(names@)[i as int]));
        let removal = listed_removal(entries, names[i].as_str());
        let ghost before = r@;
        r.push(CleanupItem { name: names[i].clone(), removal });
        assert(cleanup_names(r@) =~= name_views(names@).take(i + 1));
        assert forall|k: int| 0 <= k < r@.len() implies removes_as_listed(entries@, #[trigger] r@[k]) by {
            if k < i {
                assert(r@[k] == before[k]);
            } else {
                assert(r@[k].name@ == names@[i as int]@);
                assert(r@[k].removal == removal);
                let j = choose|j: int| #[trigger] first_listed(entries@, j, names@[i as int]@) && removal == removal_of(entries@[j].state@);
                assert(first_listed(entries@, j, r@[k].name@));
            }
        }
        i = i + 1;
    }
    assert(name_views(names@).take(i as int) =~= name_views(names@));
    r
}

} // verus!
