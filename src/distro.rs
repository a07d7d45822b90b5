use vstd::prelude::*;

use crate::error::RosenvError;
use crate::text::{
    has_prefix, join_path, joined, lemma_seq_lt_asymmetric, lemma_seq_lt_irreflexive,
    lemma_seq_lt_total, lemma_seq_lt_transitive, lemma_seq_not_lt_transitive, seq_lt, starts_with, str_eq, str_less,
};

verus! {

/// The canonical directory, under which one entry per version stands.
pub open spec fn ros_root() -> Seq<char> {
    seq!['/', 'o', 'p', 't', '/', 'r', 'o', 's']
}

/// The name prefix of an installation directory in the cache.
pub open spec fn install_prefix() -> Seq<char> {
    seq!['r', 'o', 's', '-']
}

/// The canonical entry of a version.
pub open spec fn canonical_path(distro: Seq<char>) -> Seq<char> {
    joined(ros_root(), distro)
}

/// An installation found in the cache: its version identifier and where it lies.
#[derive(Debug, Clone)]
pub struct Distribution {
    pub name: String,
    pub path: String,
}

impl View for Distribution {
    type V = (Seq<char>, Seq<char>);

    open spec fn view(&self) -> (Seq<char>, Seq<char>) {
        (self.name@, self.path@)
    }
}

pub fn get_ros_root() -> (r: String)
    ensures
        r@ == ros_root(),
{
    proof {
        reveal_strlit("/opt/ros");
    }
    String::from_str("/opt/ros")
}

/// The path of the canonical entry for `distro`.
pub fn distro_path(distro: &str) -> (r: String)
    ensures
        r@ == canonical_path(distro@),
{
    let root = get_ros_root();
    join_path(root.as_str(), distro)
}

/// Checks that the canonical entry of `distro` exists; `entry_exists` is what
/// the filesystem says of `distro_path(distro)`.
pub fn validate_distro(distro: &str, entry_exists: bool) -> (r: Result<String, RosenvError>)
    ensures
        entry_exists ==> (r matches Ok(p) && p@ == canonical_path(distro@)),
        !entry_exists ==> (r matches Err(RosenvError::NotFound { distro: d }) && d@ == distro@),
{
    if !entry_exists {
        return Err(RosenvError::NotFound { distro: String::from_str(distro) });
    }
    Ok(distro_path(distro))
}

/// Index of the first `-` in `s`, or its length when there is none.
pub open spec fn first_dash(s: Seq<char>) -> nat
    decreases s.len(),
{
    if s.len() == 0 {
        0
    } else if s[0] == '-' {
        0
    } else {
        1 + first_dash(s.drop_first())
    }
}

/// The version identifier of an installation directory named
/// `ros-<version>-<variant>`: a non-empty version free of `-`, followed by a
/// `-` and any variant.
pub open spec fn version_of(name: Seq<char>) -> Option<Seq<char>> {
    if has_prefix(name, install_prefix()) {
        let rest = name.skip(4);
        let k = first_dash(rest);
        if 0 < k && k < rest.len() {
            Some(rest.take(k as int))
        } else {
            None
        }
    } else {
        None
    }
}

proof fn lemma_first_dash_at(s: Seq<char>, k: int)
    requires
        0 <= k <= s.len(),
        k < s.len() ==> s[k] == '-',
        forall|j: int| 0 <= j < k ==> s[j] != '-',
    ensures
        first_dash(s) == k,
    decreases s.len(),
{
    if s.len() > 0 && k > 0 {
        assert forall|j: int| 0 <= j < k - 1 implies s.drop_first()[j] != '-' by {
            assert(s.drop_first()[j] == s[j + 1]);
        }
        lemma_first_dash_at(s.drop_first(), k - 1);
    }
}

/// The version identifier in an installation directory's name, if the name
/// has the installation pattern.
pub fn version_from_name(name: &str) -> (r: Option<String>)
    ensures
        r matches Some(v) ==> version_of(name@) == Some(v@),
        r is None ==> version_of(name@) is None,
{
    proof {
        reveal_strlit("ros-");
        assert("ros-"@ =~= install_prefix());
    }
    if !starts_with(name, "ros-") {
        return None;
    }
    let len = name.unicode_len();
    let mut k: usize = 4;
    while k < len && name.get_char(k) != '-'
        invariant
            len == name@.len(),
            4 <= k <= len,
            forall|j: int| 4 <= j < k ==> name@[j] != '-',
        decreases len - k,
    {
        k = k + 1;
    }
    let ghost rest = name@.skip(4);
    proof {
        lemma_first_dash_at(rest, k - 4);
    }
    if k > 4 && k < len {
        let v = name.substring_char(4, k);
        assert(v@ =~= rest.take(k - 4));
        Some(String::from_str(v))
    } else {
        None
    }
}


/// A child of the cache directory, as the filesystem shows it.
#[derive(Debug, Clone)]
pub struct CacheEntry {
    pub name: String,
    pub path: String,
    pub is_dir: bool,
    pub has_setup_bash: bool,
    pub has_setup_zsh: bool,
}

pub struct CacheEntryView {
    pub name: Seq<char>,
    pub path: Seq<char>,
    pub is_dir: bool,
    pub has_setup_bash: bool,
    pub has_setup_zsh: bool,
}

impl View for CacheEntry {
    type V = CacheEntryView;

    open spec fn view(&self) -> CacheEntryView {
        CacheEntryView {
            name: self.name@,
            path: self.path@,
            is_dir: self.is_dir,
            has_setup_bash: self.has_setup_bash,
            has_setup_zsh: self.has_setup_zsh,
        }
    }
}

pub open spec fn entry_views(es: Seq<CacheEntry>) -> Seq<CacheEntryView> {
    es.map_values(|e: CacheEntry| e@)
}

pub open spec fn dist_views(ds: Seq<Distribution>) -> Seq<(Seq<char>, Seq<char>)> {
    ds.map_values(|d: Distribution| d@)
}

/// A cache entry is an installation: a directory named by the installation
/// pattern that holds at least one setup script.
pub open spec fn accepted(e: CacheEntryView) -> bool {
    &&& e.is_dir
    &&& version_of(e.name) is Some
    &&& (e.has_setup_bash || e.has_setup_zsh)
}

/// Entry `j` of `es` is an installation of version `v`.
pub open spec fn installs(es: Seq<CacheEntryView>, j: int, v: Seq<char>) -> bool {
    0 <= j < es.len() && accepted(es[j]) && version_of(es[j].name) == Some(v)
}

/// Sorted by version, each version at most once.
pub open spec fn strictly_sorted(r: Seq<(Seq<char>, Seq<char>)>) -> bool {
    forall|i: int, j: int| 0 <= i < j < r.len() ==> seq_lt(#[trigger] r[i].0, #[trigger] r[j].0)
}

/// Some installation among `es` has the version and path of `x`.
pub open spec fn witnessed(es: Seq<CacheEntryView>, x: (Seq<char>, Seq<char>)) -> bool {
    exists|j: int| #[trigger] installs(es, j, x.0) && es[j].path == x.1
}

/// Version `v` has an item in `r`.
pub open spec fn listed(r: Seq<(Seq<char>, Seq<char>)>, v: Seq<char>) -> bool {
    exists|i: int| 0 <= i < r.len() && (#[trigger] r[i]).0 == v
}

/// `r` is what a scan of the cache entries `es` yields: one item per version
/// among the installations, in increasing order of version; where several
/// installations share a version, the one whose path sorts first.
pub open spec fn is_scan_of(es: Seq<CacheEntryView>, r: Seq<(Seq<char>, Seq<char>)>) -> bool {
    &&& strictly_sorted(r)
    &&& forall|i: int| 0 <= i < r.len() ==> witnessed(es, #[trigger] r[i])
    &&& forall|i: int, j: int|
        0 <= i < r.len() && #[trigger] installs(es, j, r[i].0) ==> !seq_lt(es[j].path, r[i].1)
    &&& forall|j: int|
        0 <= j < es.len() && accepted(#[trigger] es[j]) ==> listed(r, version_of(es[j].name)->0)
}

/// Inserts `d` into a list sorted by version. Where the version is already
/// there, the item whose path sorts first stays.
fn insert_installation(v: &mut Vec<Distribution>, d: Distribution)
    requires
        strictly_sorted(dist_views(old(v)@)),
    ensures
        strictly_sorted(dist_views(final(v)@)),
        forall|i: int|
            0 <= i < final(v)@.len() ==> (#[trigger] final(v)@[i])@ == d@ || exists|k: int|
                0 <= k < old(v)@.len() && final(v)@[i]@ == (#[trigger] old(v)@[k])@,
        forall|k: int|
            0 <= k < old(v)@.len() && (#[trigger] old(v)@[k])@.0 != d@.0 ==> exists|i: int|
                0 <= i < final(v)@.len() && (#[trigger] final(v)@[i])@ == old(v)@[k]@,
        exists|i: int| 0 <= i < final(v)@.len() && (#[trigger] final(v)@[i])@.0 == d@.0,
        forall|i: int|
            0 <= i < final(v)@.len() && (#[trigger] final(v)@[i])@.0 == d@.0 ==> !seq_lt(
                d@.1,
                final(v)@[i]@.1,
            ),
        forall|i: int, k: int|
            0 <= i < final(v)@.len() && 0 <= k < old(v)@.len() && (#[trigger] final(v)@[i])@.0
                == d@.0 && (#[trigger] old(v)@[k])@.0 == d@.0 ==> !seq_lt(
                old(v)@[k]@.1,
                final(v)@[i]@.1,
            ),
{
    let ghost old_v = v@;
    let n = v.len();
    let mut pos: usize = 0;
    while pos < n && str_less(v[pos].name.as_str(), d.name.as_str())
        invariant
            n == v@.len(),
            v@ == old_v,
            pos <= n,
            forall|i: int| 0 <= i < pos ==> seq_lt((#[trigger] v@[i]).name@, d.name@),
        decreases n - pos,
    {
        pos = pos + 1;
    }
    if pos < n && str_eq(v[pos].name.as_str(), d.name.as_str()) {
        if str_less(d.path.as_str(), v[pos].path.as_str()) {
            v.set(pos, d);
            assert forall|i: int, j: int|
                0 <= i < j < v@.len() implies seq_lt(
                #[trigger] dist_views(v@)[i].0,
                #[trigger] dist_views(v@)[j].0,
            ) by {
                assert(seq_lt(dist_views(old_v)[i].0, dist_views(old_v)[j].0));
            }
            assert forall|i: int, k: int|
                0 <= i < v@.len() && 0 <= k < old_v.len() && (#[trigger] v@[i])@.0 == d@.0 && (
                #[trigger] old_v[k])@.0 == d@.0 implies !seq_lt(old_v[k]@.1, v@[i]@.1) by {
                if k != pos {
                    lemma_seq_lt_irreflexive(d@.0);
                    if k < pos {
                        assert(seq_lt(dist_views(old_v)[k].0, dist_views(old_v)[pos as int].0));
                    } else {
                        assert(seq_lt(dist_views(old_v)[pos as int].0, dist_views(old_v)[k].0));
                    }
                }
                if i != pos {
                    lemma_seq_lt_irreflexive(d@.0);
                    if i < pos {
                        assert(seq_lt(dist_views(old_v)[i].0, dist_views(old_v)[pos as int].0));
                    } else {
                        assert(seq_lt(dist_views(old_v)[pos as int].0, dist_views(old_v)[i].0));
                    }
                }
                lemma_seq_lt_asymmetric(d@.1, old_v[pos as int]@.1);
            }
            assert(v@[pos as int]@.0 == d@.0);
            assert forall|i: int|
                0 <= i < v@.len() && (#[trigger] v@[i])@.0 == d@.0 implies !seq_lt(
                d@.1,
                v@[i]@.1,
            ) by {
                lemma_seq_lt_irreflexive(d@.1);
                if i != pos {
                    lemma_seq_lt_irreflexive(d@.0);
                    if i < pos {
                        assert(seq_lt(dist_views(old_v)[i].0, dist_views(old_v)[pos as int].0));
                    } else {
                        assert(seq_lt(dist_views(old_v)[pos as int].0, dist_views(old_v)[i].0));
                    }
                }
            }
            assert forall|k: int|
                0 <= k < old_v.len() && (#[trigger] old_v[k])@.0 != d@.0 implies exists|i: int|
                0 <= i < v@.len() && (#[trigger] v@[i])@ == old_v[k]@ by {
                assert(v@[k]@ == old_v[k]@);
            }
        } else {
            proof {
                lemma_seq_lt_total(d@.1, old_v[pos as int]@.1);
                lemma_seq_lt_irreflexive(d@.1);
            }
            assert(v@[pos as int]@.0 == d@.0);
            assert forall|i: int, k: int|
                0 <= i < v@.len() && 0 <= k < old_v.len() && (#[trigger] v@[i])@.0 == d@.0 && (
                #[trigger] old_v[k])@.0 == d@.0 implies !seq_lt(old_v[k]@.1, v@[i]@.1) by {
                lemma_seq_lt_irreflexive(d@.0);
                lemma_seq_lt_irreflexive(old_v[k]@.1);
                if k != i {
                    if k < i {
                        assert(seq_lt(dist_views(old_v)[k].0, dist_views(old_v)[i].0));
                    } else {
                        assert(seq_lt(dist_views(old_v)[i].0, dist_views(old_v)[k].0));
                    }
                }
            }
            assert forall|i: int|
                0 <= i < v@.len() && (#[trigger] v@[i])@.0 == d@.0 implies !seq_lt(
                d@.1,
                v@[i]@.1,
            ) by {
                if i != pos {
                    lemma_seq_lt_irreflexive(d@.0);
                    if i < pos {
                        assert(seq_lt(dist_views(old_v)[i].0, dist_views(old_v)[pos as int].0));
                    } else {
                        assert(seq_lt(dist_views(old_v)[pos as int].0, dist_views(old_v)[i].0));
                    }
                }
            }
            assert forall|i: int|
                0 <= i < v@.len() implies (#[trigger] v@[i])@ == d@ || exists|k: int|
                0 <= k < old_v.len() && v@[i]@ == (#[trigger] old_v[k])@ by {
                assert(v@[i]@ == old_v[i]@);
            }
            assert forall|k: int|
                0 <= k < old_v.len() && (#[trigger] old_v[k])@.0 != d@.0 implies exists|i: int|
                0 <= i < v@.len() && (#[trigger] v@[i])@ == old_v[k]@ by {
                assert(v@[k]@ == old_v[k]@);
            }
        }
    } else {
        proof {
            if pos < n {
                lemma_seq_lt_total(v@[pos as int].name@, d.name@);
            }
        }
        v.insert(pos, d);
        assert forall|i: int, j: int|
            0 <= i < j < v@.len() implies seq_lt(
            #[trigger] dist_views(v@)[i].0,
            #[trigger] dist_views(v@)[j].0,
        ) by {
            if j < pos {
                assert(seq_lt(dist_views(old_v)[i].0, dist_views(old_v)[j].0));
            } else if j == pos {
                assert(seq_lt(old_v[i].name@, d.name@));
            } else if i > pos {
                assert(seq_lt(dist_views(old_v)[i - 1].0, dist_views(old_v)[j - 1].0));
            } else if i == pos {
                if j - 1 > pos {
                    assert(seq_lt(dist_views(old_v)[pos as int].0, dist_views(old_v)[j - 1].0));
                    lemma_seq_lt_transitive(d@.0, old_v[pos as int]@.0, old_v[j - 1]@.0);
                }
            } else {
                assert(seq_lt(old_v[i].name@, d.name@));
                if j - 1 > pos {
                    assert(seq_lt(dist_views(old_v)[pos as int].0, dist_views(old_v)[j - 1].0));
                    lemma_seq_lt_transitive(d@.0, old_v[pos as int]@.0, old_v[j - 1]@.0);
                }
                lemma_seq_lt_transitive(old_v[i]@.0, d@.0, old_v[j - 1]@.0);
            }
        }
        assert(v@[pos as int]@.0 == d@.0);
        assert forall|i: int|
            0 <= i < v@.len() && (#[trigger] v@[i])@.0 == d@.0 implies !seq_lt(d@.1, v@[i]@.1) by {
            lemma_seq_lt_irreflexive(d@.1);
            lemma_seq_lt_irreflexive(d@.0);
            if i < pos {
                assert(seq_lt(old_v[i].name@, d.name@));
            } else if i > pos {
                assert(i - 1 >= pos);
                if i - 1 > pos {
                    assert(seq_lt(dist_views(old_v)[pos as int].0, dist_views(old_v)[i - 1].0));
                    lemma_seq_lt_transitive(d@.0, old_v[pos as int]@.0, old_v[i - 1]@.0);
                }
            }
        }
        assert forall|i: int, k: int|
            0 <= i < v@.len() && 0 <= k < old_v.len() && (#[trigger] v@[i])@.0 == d@.0 && (
            #[trigger] old_v[k])@.0 == d@.0 implies !seq_lt(old_v[k]@.1, v@[i]@.1) by {
            lemma_seq_lt_irreflexive(d@.0);
            if k < pos {
                assert(seq_lt(old_v[k].name@, d.name@));
            } else {
                if k > pos {
                    assert(seq_lt(dist_views(old_v)[pos as int].0, dist_views(old_v)[k].0));
                    lemma_seq_lt_transitive(d@.0, old_v[pos as int]@.0, old_v[k]@.0);
                }
            }
        }
        assert forall|i: int|
            0 <= i < v@.len() implies (#[trigger] v@[i])@ == d@ || exists|k: int|
            0 <= k < old_v.len() && v@[i]@ == (#[trigger] old_v[k])@ by {
            if i < pos {
                assert(v@[i]@ == old_v[i]@);
            } else if i > pos {
                assert(v@[i]@ == old_v[i - 1]@);
            }
        }
        assert forall|k: int|
            0 <= k < old_v.len() && (#[trigger] old_v[k])@.0 != d@.0 implies exists|i: int|
            0 <= i < v@.len() && (#[trigger] v@[i])@ == old_v[k]@ by {
            if k < pos {
                assert(v@[k]@ == old_v[k]@);
            } else {
                assert(v@[k + 1]@ == old_v[k]@);
            }
        }
    }
}


/// The installations among the cache directory's children `entries`, one per
/// version, sorted by version.
pub fn select_installations(entries: &Vec<CacheEntry>) -> (r: Vec<Distribution>)
    ensures
        is_scan_of(entry_views(entries@), dist_views(r@)),
{
    let ghost es = entry_views(entries@);
    let mut r: Vec<Distribution> = Vec::new();
    let mut idx: usize = 0;
    while idx < entries.len()
        invariant
            es == entry_views(entries@),
            idx <= entries@.len(),
            is_scan_of(es.take(idx as int), dist_views(r@)),
        decreases entries@.len() - idx,
    {
        let e = &entries[idx];
        let ghost pre = es.take(idx as int);
        let ghost post = es.take(idx + 1);
        let ghost old_r = r@;
        assert(post[idx as int] == e@);
        assert forall|j: int, v: Seq<char>| #[trigger] installs(pre, j, v) implies installs(post, j, v) by {
            assert(pre[j] == post[j]);
        }
        assert forall|j: int, v: Seq<char>| #[trigger] installs(post, j, v) && j < idx implies installs(pre, j, v) by {
            assert(pre[j] == post[j]);
        }
        let version = if e.is_dir && (e.has_setup_bash || e.has_setup_zsh) {
            version_from_name(e.name.as_str())
        } else {
            None
        };
        match version {
            Some(v) => {
                let d = Distribution { name: v, path: e.path.clone() };
                assert(d@.1 == e.path@);
                insert_installation(&mut r, d);
                let ghost x = d@;
                assert(installs(post, idx as int, x.0));
                assert forall|i: int| 0 <= i < r@.len() implies witnessed(post, #[trigger] dist_views(r@)[i]) by {
                    if r@[i]@ != x {
                        let k = choose|k: int| 0 <= k < old_r.len() && r@[i]@ == (#[trigger] old_r[k])@;
                        assert(witnessed(pre, dist_views(old_r)[k]));
                        let j = choose|j: int| #[trigger] installs(pre, j, old_r[k]@.0) && pre[j].path == old_r[k]@.1;
                        assert(installs(post, j, old_r[k]@.0));
                    } else {
                        assert(installs(post, idx as int, dist_views(r@)[i].0));
                    }
                }
                assert forall|i: int, j: int|
                    0 <= i < r@.len() && #[trigger] installs(post, j, dist_views(r@)[i].0) implies !seq_lt(
                    post[j].path,
                    dist_views(r@)[i].1,
                ) by {
                    let y = r@[i]@;
                    if j == idx {
                        assert(y.0 == x.0);
                    } else {
                        assert(installs(pre, j, y.0));
                        if y.0 == x.0 {
                            assert(listed(dist_views(old_r), y.0));
                            let k = choose|k: int| 0 <= k < old_r.len() && (#[trigger] dist_views(old_r)[k]).0 == y.0;
                            assert(!seq_lt(pre[j].path, dist_views(old_r)[k].1));
                            assert(old_r[k]@.0 == x.0);
                            assert(!seq_lt(old_r[k]@.1, r@[i]@.1));
                            lemma_seq_not_lt_transitive(pre[j].path, old_r[k]@.1, y.1);
                        } else {
                            let k = choose|k: int| 0 <= k < old_r.len() && r@[i]@ == (#[trigger] old_r[k])@;
                            assert(installs(pre, j, dist_views(old_r)[k].0));
                        }
                    }
                }
                assert forall|j: int| 0 <= j < post.len() && accepted(#[trigger] post[j]) implies listed(
                    dist_views(r@),
                    version_of(post[j].name)->0,
                ) by {
                    if j == idx {
                        let i = choose|i: int| 0 <= i < r@.len() && (#[trigger] r@[i])@.0 == x.0;
                        assert(dist_views(r@)[i].0 == x.0);
                    } else {
                        assert(pre[j] == post[j]);
                        assert(listed(dist_views(old_r), version_of(pre[j].name)->0));
                        let k = choose|k: int| 0 <= k < old_r.len() && (#[trigger] dist_views(old_r)[k]).0 == version_of(pre[j].name)->0;
                        if old_r[k]@.0 == x.0 {
                            let i = choose|i: int| 0 <= i < r@.len() && (#[trigger] r@[i])@.0 == x.0;
                            assert(dist_views(r@)[i].0 == x.0);
                        } else {
                            let i = choose|i: int| 0 <= i < r@.len() && (#[trigger] r@[i])@ == old_r[k]@;
                            assert(dist_views(r@)[i] == old_r[k]@);
                        }
                    }
                }
            },
            None => {
                assert(!accepted(post[idx as int]));
                assert forall|j: int| 0 <= j < post.len() && accepted(#[trigger] post[j]) implies listed(
                    dist_views(r@),
                    version_of(post[j].name)->0,
                ) by {
                    assert(pre[j] == post[j]);
                }
                assert forall|i: int| 0 <= i < r@.len() implies witnessed(post, #[trigger] dist_views(r@)[i]) by {
                    let j = choose|j: int| #[trigger] installs(pre, j, dist_views(r@)[i].0) && pre[j].path == dist_views(r@)[i].1;
                    assert(installs(post, j, dist_views(r@)[i].0));
                }
            },
        }
        idx = idx + 1;
    }
    assert(es.take(idx as int) =~= es);
    r
}


/// Two lists sorted strictly by version that hold the same items are equal.
proof fn lemma_sorted_same_items_equal(r1: Seq<(Seq<char>, Seq<char>)>, r2: Seq<(Seq<char>, Seq<char>)>)
    requires
        strictly_sorted(r1),
        strictly_sorted(r2),
        forall|i: int| 0 <= i < r1.len() ==> r2.contains(#[trigger] r1[i]),
        forall|i: int| 0 <= i < r2.len() ==> r1.contains(#[trigger] r2[i]),
    ensures
        r1 == r2,
    decreases r1.len() + r2.len(),
{
    if r1.len() == 0 {
        if r2.len() > 0 {
            assert(r1.contains(r2[0]));
        }
        assert(r1 =~= r2);
    } else if r2.len() == 0 {
        assert(r2.contains(r1[0]));
    } else {
        assert(r2.contains(r1[0]));
        assert(r1.contains(r2[0]));
        let k = choose|k: int| 0 <= k < r2.len() && r2[k] == r1[0];
        let m = choose|m: int| 0 <= m < r1.len() && r1[m] == r2[0];
        if k > 0 {
            assert(seq_lt(r2[0].0, r2[k].0));
            if m > 0 {
                assert(seq_lt(r1[0].0, r1[m].0));
                lemma_seq_lt_asymmetric(r1[0].0, r1[m].0);
            } else {
                lemma_seq_lt_irreflexive(r1[0].0);
            }
        }
        let t1 = r1.drop_first();
        let t2 = r2.drop_first();
        assert forall|i: int| 0 <= i < t1.len() implies t2.contains(#[trigger] t1[i]) by {
            assert(r2.contains(r1[i + 1]));
            let k2 = choose|k2: int| 0 <= k2 < r2.len() && r2[k2] == r1[i + 1];
            assert(seq_lt(r1[0].0, r1[i + 1].0));
            if k2 == 0 {
                lemma_seq_lt_irreflexive(r1[0].0);
            }
            assert(t2[k2 - 1] == t1[i]);
        }
        assert forall|i: int| 0 <= i < t2.len() implies t1.contains(#[trigger] t2[i]) by {
            assert(r1.contains(r2[i + 1]));
            let k1 = choose|k1: int| 0 <= k1 < r1.len() && r1[k1] == r2[i + 1];
            assert(seq_lt(r2[0].0, r2[i + 1].0));
            if k1 == 0 {
                lemma_seq_lt_irreflexive(r2[0].0);
            }
            assert(t1[k1 - 1] == t2[i]);
        }
        lemma_sorted_same_items_equal(t1, t2);
        assert(r1 =~= seq![r1[0]] + t1);
        assert(r2 =~= seq![r2[0]] + t2);
    }
}

/// Every item of one scan is an item of another scan of the same entries.
proof fn lemma_scan_items_shared(
    es1: Seq<CacheEntryView>,
    es2: Seq<CacheEntryView>,
    r1: Seq<(Seq<char>, Seq<char>)>,
    r2: Seq<(Seq<char>, Seq<char>)>,
)
    requires
        is_scan_of(es1, r1),
        is_scan_of(es2, r2),
        forall|x: CacheEntryView| es1.contains(x) <==> es2.contains(x),
    ensures
        forall|i: int| 0 <= i < r1.len() ==> r2.contains(#[trigger] r1[i]),
{
    assert forall|i: int| 0 <= i < r1.len() implies r2.contains(#[trigger] r1[i]) by {
        let x = r1[i];
        assert(witnessed(es1, x));
        let j1 = choose|j1: int| #[trigger] installs(es1, j1, x.0) && es1[j1].path == x.1;
        assert(es1.contains(es1[j1]));
        let j2 = choose|j2: int| 0 <= j2 < es2.len() && es2[j2] == es1[j1];
        assert(installs(es2, j2, x.0));
        assert(accepted(es2[j2]));
        assert(listed(r2, x.0));
        let i2 = choose|i2: int| 0 <= i2 < r2.len() && (#[trigger] r2[i2]).0 == x.0;
        let y = r2[i2];
        assert(!seq_lt(es2[j2].path, y.1));
        assert(witnessed(es2, y));
        let j3 = choose|j3: int| #[trigger] installs(es2, j3, y.0) && es2[j3].path == y.1;
        assert(es2.contains(es2[j3]));
        let j4 = choose|j4: int| 0 <= j4 < es1.len() && es1[j4] == es2[j3];
        assert(installs(es1, j4, x.0));
        assert(!seq_lt(es1[j4].path, x.1));
        lemma_seq_lt_total(x.1, y.1);
        assert(y == x);
    }
}

/// A scan depends on the set of cache entries alone, not on the order in
/// which the directory listing hands them out: scanning the same cache twice
/// yields the same ordered list.
pub proof fn lemma_scan_determined_by_entries(
    es1: Seq<CacheEntryView>,
    es2: Seq<CacheEntryView>,
    r1: Seq<(Seq<char>, Seq<char>)>,
    r2: Seq<(Seq<char>, Seq<char>)>,
)
    requires
        is_scan_of(es1, r1),
        is_scan_of(es2, r2),
        forall|x: CacheEntryView| es1.contains(x) <==> es2.contains(x),
    ensures
        r1 == r2,
{
    lemma_scan_items_shared(es1, es2, r1, r2);
    lemma_scan_items_shared(es2, es1, r2, r1);
    lemma_sorted_same_items_equal(r1, r2);
}

/// A cache entry that is not an installation (a name outside the pattern
/// `ros-<version>-<variant>`, a non-directory, or no setup script) adds
/// nothing to a scan: the scan without it is the same list.
pub proof fn lemma_non_installation_excluded(es: Seq<CacheEntryView>, r: Seq<(Seq<char>, Seq<char>)>, j: int)
    requires
        is_scan_of(es, r),
        0 <= j < es.len(),
        !accepted(es[j]),
    ensures
        is_scan_of(es.remove(j), r),
        forall|i: int| 0 <= i < r.len() ==> !installs(es, j, #[trigger] r[i].0),
{
    let rest = es.remove(j);
    assert forall|k: int, v: Seq<char>| #[trigger] installs(es, k, v) implies k != j && installs(
        rest,
        if k < j { k } else { k - 1 },
        v,
    ) by {}
    assert forall|k: int, v: Seq<char>| #[trigger] installs(rest, k, v) implies installs(
        es,
        if k < j { k } else { k + 1 },
        v,
    ) by {}
    assert forall|i: int| 0 <= i < r.len() implies witnessed(rest, #[trigger] r[i]) by {
        let k = choose|k: int| #[trigger] installs(es, k, r[i].0) && es[k].path == r[i].1;
        assert(installs(rest, if k < j { k } else { k - 1 }, r[i].0));
    }
    assert forall|i: int, k: int|
        0 <= i < r.len() && #[trigger] installs(rest, k, r[i].0) implies !seq_lt(rest[k].path, r[i].1) by {
        assert(installs(es, if k < j { k } else { k + 1 }, r[i].0));
    }
    assert forall|k: int| 0 <= k < rest.len() && accepted(#[trigger] rest[k]) implies listed(
        r,
        version_of(rest[k].name)->0,
    ) by {
        let k0 = if k < j { k } else { k + 1 };
        assert(es[k0] == rest[k]);
    }
}


/// In a listing whose entries have distinct paths, as a directory's children
/// do, no item of a scan carries the path of an entry that is not an
/// installation, and every item's version is a non-empty identifier.
pub proof fn lemma_non_installation_path_absent(es: Seq<CacheEntryView>, r: Seq<(Seq<char>, Seq<char>)>, j: int)
    requires
        is_scan_of(es, r),
        0 <= j < es.len(),
        !accepted(es[j]),
        forall|a: int, b: int| 0 <= a < b < es.len() ==> (#[trigger] es[a]).path != (#[trigger] es[b]).path,
    ensures
        forall|i: int| 0 <= i < r.len() ==> (#[trigger] r[i]).1 != es[j].path && r[i].0.len() > 0,
{
    assert forall|i: int| 0 <= i < r.len() implies (#[trigger] r[i]).1 != es[j].path && r[i].0.len() > 0 by {
        assert(witnessed(es, r[i]));
        let k = choose|k: int| #[trigger] installs(es, k, r[i].0) && es[k].path == r[i].1;
        assert(k != j);
        if k < j {
            assert(es[k].path != es[j].path);
        } else {
            assert(es[j].path != es[k].path);
        }
    }
}

/// What stands at a path in the canonical directory, as seen without
/// following a symlink.
#[derive(Debug, Clone)]
pub enum LinkState {
    Absent,
    Symlink { target: String },
    Directory,
    Other,
}

pub enum LinkView {
    Absent,
    Symlink(Seq<char>),
    Directory,
    Other,
}

impl View for LinkState {
    type V = LinkView;

    open spec fn view(&self) -> LinkView {
        match self {
            LinkState::Absent => LinkView::Absent,
            LinkState::Symlink { target } => LinkView::Symlink(target@),
            LinkState::Directory => LinkView::Directory,
            LinkState::Other => LinkView::Other,
        }
    }
}

/// A child of the canonical directory.
#[derive(Debug, Clone)]
pub struct CanonicalEntry {
    pub name: String,
    pub state: LinkState,
}

/// The canonical directory lists its directories and symlinks as versions.
pub open spec fn selected(e: CanonicalEntry) -> bool {
    match e.state {
        LinkState::Symlink { .. } => true,
        LinkState::Directory => true,
        _ => false,
    }
}

pub open spec fn name_views(v: Seq<String>) -> Seq<Seq<char>> {
    v.map_values(|s: String| s@)
}

pub open spec fn names_sorted(r: Seq<Seq<char>>) -> bool {
    forall|i: int, j: int| 0 <= i < j < r.len() ==> seq_lt(#[trigger] r[i], #[trigger] r[j])
}

/// `r` holds the names of the entries of `es` that are selected, each once,
/// in increasing order.
pub open spec fn is_listing_of(es: Seq<CanonicalEntry>, r: Seq<Seq<char>>) -> bool {
    &&& names_sorted(r)
    &&& forall|x: Seq<char>|
        r.contains(x) <==> exists|j: int|
            0 <= j < es.len() && selected(#[trigger] es[j]) && es[j].name@ == x
}

/// Inserts `s` into a list of names sorted strictly, unless it is there.
fn insert_name(v: &mut Vec<String>, s: String)
    requires
        names_sorted(name_views(old(v)@)),
    ensures
        names_sorted(name_views(final(v)@)),
        forall|x: Seq<char>|
            name_views(final(v)@).contains(x) <==> (name_views(old(v)@).contains(x) || x == s@),
{
    let ghost old_v = name_views(v@);
    let n = v.len();
    let mut pos: usize = 0;
    while pos < n && str_less(v[pos].as_str(), s.as_str())
        invariant
            n == v@.len(),
            name_views(v@) == old_v,
            pos <= n,
            forall|i: int| 0 <= i < pos ==> seq_lt(#[trigger] old_v[i], s@),
        decreases n - pos,
    {
        pos = pos + 1;
    }
    if pos < n && str_eq(v[pos].as_str(), s.as_str()) {
        assert(old_v[pos as int] == s@);
        return;
    }
    proof {
        if pos < n {
            lemma_seq_lt_total(old_v[pos as int], s@);
        }
    }
    v.insert(pos, s);
    let ghost nv = name_views(v@);
    assert(nv =~= old_v.insert(pos as int, s@));
    assert forall|i: int, j: int| 0 <= i < j < nv.len() implies seq_lt(#[trigger] nv[i], #[trigger] nv[j]) by {
        if j < pos {
            assert(seq_lt(old_v[i], old_v[j]));
        } else if j == pos {
        } else if i > pos {
            assert(seq_lt(old_v[i - 1], old_v[j - 1]));
        } else if i == pos {
            if j - 1 > pos {
                assert(seq_lt(old_v[pos as int], old_v[j - 1]));
                lemma_seq_lt_transitive(s@, old_v[pos as int], old_v[j - 1]);
            }
        } else {
            if j - 1 > pos {
                assert(seq_lt(old_v[pos as int], old_v[j - 1]));
                lemma_seq_lt_transitive(s@, old_v[pos as int], old_v[j - 1]);
            }
            lemma_seq_lt_transitive(old_v[i], s@, old_v[j - 1]);
        }
    }
    assert forall|x: Seq<char>| nv.contains(x) <==> (old_v.contains(x) || x == s@) by {
        if nv.contains(x) {
            let i = choose|i: int| 0 <= i < nv.len() && nv[i] == x;
            if i < pos {
                assert(old_v[i] == x);
            } else if i > pos {
                assert(old_v[i - 1] == x);
            }
        }
        if old_v.contains(x) {
            let i = choose|i: int| 0 <= i < old_v.len() && old_v[i] == x;
            if i < pos {
                assert(nv[i] == x);
            } else {
                assert(nv[i + 1] == x);
            }
        }
        if x == s@ {
            assert(nv[pos as int] == x);
        }
    }
}

/// The versions in the canonical directory: its directories and symlinks, by name.
pub fn list_distribution_names(entries: &Vec<CanonicalEntry>) -> (r: Vec<String>)
    ensures
        is_listing_of(entries@, name_views(r@)),
{
    let mut r: Vec<String> = Vec::new();
    let mut idx: usize = 0;
    while idx < entries.len()
        invariant
            idx <= entries@.len(),
            is_listing_of(entries@.take(idx as int), name_views(r@)),
        decreases entries@.len() - idx,
    {
        let e = &entries[idx];
        let ghost pre = entries@.take(idx as int);
        let ghost post = entries@.take(idx + 1);
        let ghost old_r = name_views(r@);
        assert(post[idx as int] == *e);
        let take = match &e.state {
            LinkState::Symlink { .. } => true,
            LinkState::Directory => true,
            _ => false,
        };
        if take {
            insert_name(&mut r, e.name.clone());
        }
        assert forall|x: Seq<char>|
            name_views(r@).contains(x) <==> exists|j: int|
                0 <= j < post.len() && selected(#[trigger] post[j]) && post[j].name@ == x by {
            if exists|j: int| 0 <= j < post.len() && selected(#[trigger] post[j]) && post[j].name@ == x {
                let j = choose|j: int| 0 <= j < post.len() && selected(#[trigger] post[j]) && post[j].name@ == x;
                if j < idx {
                    assert(pre[j] == post[j]);
                }
            }
            if old_r.contains(x) {
                let j = choose|j: int| 0 <= j < pre.len() && selected(#[trigger] pre[j]) && pre[j].name@ == x;
                assert(pre[j] == post[j]);
            }
        }
        idx = idx + 1;
    }
    assert(entries@.take(idx as int) =~= entries@);
    r
}

/// Relies on dirs::home_dir: the current user's home directory, where the
/// platform reports one. It depends on the environment, so nothing is
/// promised of it.
#[verifier::external_body]
fn home_dir() -> (r: Option<String>) {
    match dirs::home_dir() {
        Some(p) => Some(p.to_string_lossy().into_owned()),
        None => None,
    }
}

/// The package manager's cache of installations under a home directory.
pub open spec fn pixi_envs_under(home: Seq<char>) -> Seq<char> {
    joined(joined(home, seq!['.', 'p', 'i', 'x', 'i']), seq!['e', 'n', 'v', 's'])
}

pub fn pixi_envs_dir_under(home: &str) -> (r: String)
    ensures
        r@ == pixi_envs_under(home@),
{
    proof {
        reveal_strlit(".pixi");
        reveal_strlit("envs");
        assert(".pixi"@ =~= seq!['.', 'p', 'i', 'x', 'i']);
        assert("envs"@ =~= seq!['e', 'n', 'v', 's']);
    }
    let pixi = join_path(home, ".pixi");
    join_path(pixi.as_str(), "envs")
}

/// The cache directory of the current user, or `None` where no home
/// directory can be determined.
pub fn get_pixi_envs_dir() -> (r: Option<String>)
    ensures
        r matches Some(p) ==> exists|h: Seq<char>| p@ == pixi_envs_under(h),
{
    match home_dir() {
        Some(h) => Some(pixi_envs_dir_under(h.as_str())),
        None => None,
    }
}

} // verus!
