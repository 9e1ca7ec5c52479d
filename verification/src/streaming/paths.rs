//! The receiver's path checks: a path it is told to write must be relative,
//! must not climb with `..`, and must stay under the root once normalized;
//! a symlink target must be relative and must not point out of the root.
//!
//! Paths are handled as lists of components, as `std::path` splits them.
//! Normalizing drops `.` and lets `..` remove the component before it.

use vstd::prelude::*;
use std::path::{Component, Path};

verus! {

#[verifier::external_type_specification]
#[verifier::external_body]
pub struct ExPathBuf(std::path::PathBuf);

/// One component of a path.
#[derive(Debug)]
pub enum PathComponent {
    /// A Windows drive or UNC prefix.
    Prefix(String),
    RootDir,
    CurDir,
    ParentDir,
    Normal(String),
}

/// A path component taken as plain values.
pub enum ComponentView {
    Prefix(Seq<char>),
    RootDir,
    CurDir,
    ParentDir,
    Normal(Seq<char>),
}

impl View for PathComponent {
    type V = ComponentView;

    open spec fn view(&self) -> ComponentView {
        match self {
            PathComponent::Prefix(s) => ComponentView::Prefix(s@),
            PathComponent::RootDir => ComponentView::RootDir,
            PathComponent::CurDir => ComponentView::CurDir,
            PathComponent::ParentDir => ComponentView::ParentDir,
            PathComponent::Normal(s) => ComponentView::Normal(s@),
        }
    }
}

pub open spec fn components_view(cs: Seq<PathComponent>) -> Seq<ComponentView> {
    cs.map_values(|c: PathComponent| c@)
}

/// The components `std::path::Path::components` yields for the path `p`,
/// by the path syntax of the target the crate is built for (a prefix
/// component occurs only on Windows).
pub uninterp spec fn path_components(p: Seq<char>) -> Seq<ComponentView>;

/// Whether `std::path::Path::is_absolute` holds of the path `p`, by the path
/// syntax of the target the crate is built for.
pub uninterp spec fn path_is_absolute(p: Seq<char>) -> bool;

/// `Path::new(p).components()`, each component carried over as it is.
#[verifier::external_body]
pub(crate) fn str_components(p: &str) -> (r: Vec<PathComponent>)
    ensures
        components_view(r@) == path_components(p@),
{
    Path::new(p).components().map(|c| match c {
        Component::Prefix(x) => PathComponent::Prefix(x.as_os_str().to_string_lossy().into_owned()),
        Component::RootDir => PathComponent::RootDir,
        Component::CurDir => PathComponent::CurDir,
        Component::ParentDir => PathComponent::ParentDir,
        Component::Normal(x) => PathComponent::Normal(x.to_string_lossy().into_owned()),
    }).collect()
}

/// `Path::new(p).is_absolute()`.
#[verifier::external_body]
fn str_is_absolute(p: &str) -> (r: bool)
    ensures
        r == path_is_absolute(p@),
{
    Path::new(p).is_absolute()
}

// =============================================================================
// Normalizing and comparing component lists
// =============================================================================

/// Normalizing, one component at a time: `.` is dropped, `..` removes the
/// last normal component (and nothing at the root or at the start), and any
/// other component is appended.
pub open spec fn norm_step(acc: Seq<ComponentView>, c: ComponentView) -> Seq<ComponentView> {
    match c {
        ComponentView::CurDir => acc,
        ComponentView::ParentDir => if acc.len() > 0 && acc.last() is Normal {
            acc.drop_last()
        } else {
            acc
        },
        _ => acc.push(c),
    }
}

pub open spec fn spec_normalize(cs: Seq<ComponentView>) -> Seq<ComponentView>
    decreases cs.len(),
{
    if cs.len() == 0 {
        Seq::empty()
    } else {
        norm_step(spec_normalize(cs.drop_last()), cs.last())
    }
}

/// `a` begins with the components of `b`.
pub open spec fn spec_starts_with(a: Seq<ComponentView>, b: Seq<ComponentView>) -> bool {
    b.len() <= a.len() && a.subrange(0, b.len() as int) == b
}

fn copy_component(c: &PathComponent) -> (r: PathComponent)
    ensures
        r@ == c@,
{
    match c {
        PathComponent::Prefix(s) => PathComponent::Prefix(s.clone()),
        PathComponent::RootDir => PathComponent::RootDir,
        PathComponent::CurDir => PathComponent::CurDir,
        PathComponent::ParentDir => PathComponent::ParentDir,
        PathComponent::Normal(s) => PathComponent::Normal(s.clone()),
    }
}

/// Normalize a path without requiring it to exist: `.` is dropped and `..`
/// removes the component before it.
pub fn normalize_path(cs: &[PathComponent]) -> (r: Vec<PathComponent>)
    ensures
        components_view(r@) == spec_normalize(components_view(cs@)),
{
    let mut out: Vec<PathComponent> = Vec::new();
    let mut i: usize = 0;
    while i < cs.len()
        invariant
            i <= cs@.len(),
            components_view(out@) == spec_normalize(components_view(cs@.take(i as int))),
        decreases cs@.len() - i,
    {
        proof {
            assert(components_view(cs@.take(i + 1)).drop_last() =~= components_view(
                cs@.take(i as int),
            ));
            assert(components_view(cs@.take(i + 1)).last() == cs@[i as int]@);
        }
        match &cs[i] {
            PathComponent::CurDir => {},
            PathComponent::ParentDir => {
                let n = out.len();
                if n > 0 {
                    let last_is_normal = match &out[n - 1] {
                        PathComponent::Normal(_) => true,
                        _ => false,
                    };
                    if last_is_normal {
                        let ghost before = out@;
                        out.pop();
                        proof {
                            assert(components_view(out@) =~= components_view(before).drop_last());
                        }
                    }
                }
            },
            other => {
                let ghost before = out@;
                out.push(copy_component(other));
                proof {
                    assert(components_view(out@) =~= components_view(before).push(cs@[i as int]@));
                }
            },
        }
        i = i + 1;
    }
    proof {
        assert(cs@.take(cs@.len() as int) =~= cs@);
    }
    out
}

fn component_eq(a: &PathComponent, b: &PathComponent) -> (r: bool)
    ensures
        r == (a@ == b@),
{
    match a {
        PathComponent::Prefix(x) => match b {
            PathComponent::Prefix(y) => x.eq(y),
            _ => false,
        },
        PathComponent::RootDir => match b {
            PathComponent::RootDir => true,
            _ => false,
        },
        PathComponent::CurDir => match b {
            PathComponent::CurDir => true,
            _ => false,
        },
        PathComponent::ParentDir => match b {
            PathComponent::ParentDir => true,
            _ => false,
        },
        PathComponent::Normal(x) => match b {
            PathComponent::Normal(y) => x.eq(y),
            _ => false,
        },
    }
}

/// Whether the component list `a` begins with the component list `b`, as
/// `Path::starts_with` compares whole components.
pub fn starts_with_components(a: &[PathComponent], b: &[PathComponent]) -> (r: bool)
    ensures
        r == spec_starts_with(components_view(a@), components_view(b@)),
{
    if b.len() > a.len() {
        return false;
    }
    let mut i: usize = 0;
    while i < b.len()
        invariant
            i <= b@.len() <= a@.len(),
            forall|j: int| 0 <= j < i ==> a@[j]@ == b@[j]@,
        decreases b@.len() - i,
    {
        if !component_eq(&a[i], &b[i]) {
            proof {
                assert(components_view(a@).subrange(0, b@.len() as int)[i as int] != components_view(
                    b@,
                )[i as int]);
            }
            return false;
        }
        i = i + 1;
    }
    assert(components_view(a@).subrange(0, b@.len() as int) =~= components_view(b@));
    true
}

// =============================================================================
// Path validation
// =============================================================================

/// Why a path from the wire was refused.
#[derive(Debug)]
pub enum PathError {
    /// The path is empty.
    Empty,
    /// The path is absolute.
    Absolute(String),
    /// The path climbs with `..`.
    Traversal(String),
    /// The path has a Windows prefix.
    WindowsPrefix(String),
    /// The normalized path leaves the root directory.
    EscapesRoot(String),
    /// A symlink target is absolute.
    AbsoluteSymlinkTarget(String),
    /// A symlink target leads out of the root directory.
    SymlinkEscapesRoot(String),
}

pub open spec fn is_unsafe(c: ComponentView) -> bool {
    c is ParentDir || c is Prefix
}

/// Component `i` is the first `..` or prefix component of `cs`.
pub open spec fn first_unsafe_at(cs: Seq<ComponentView>, i: int) -> bool {
    &&& 0 <= i < cs.len()
    &&& is_unsafe(cs[i])
    &&& forall|j: int| 0 <= j < i ==> !is_unsafe(#[trigger] cs[j])
}

/// Only `.` and normal components.
pub open spec fn is_clean(cs: Seq<ComponentView>) -> bool {
    forall|j: int| 0 <= j < cs.len() ==> (#[trigger] cs[j] is CurDir || cs[j] is Normal)
}

/// The normal components of `cs`, in order.
pub open spec fn normals(cs: Seq<ComponentView>) -> Seq<ComponentView>
    decreases cs.len(),
{
    if cs.len() == 0 {
        Seq::empty()
    } else if cs.last() is Normal {
        normals(cs.drop_last()).push(cs.last())
    } else {
        normals(cs.drop_last())
    }
}

/// The first `n` components of `a` followed by the components of `b`.
pub(crate) fn copy_components(a: &[PathComponent], n: usize, b: &[PathComponent]) -> (r: Vec<PathComponent>)
    requires
        n <= a@.len(),
    ensures
        components_view(r@) == components_view(a@.subrange(0, n as int)) + components_view(b@),
{
    let mut out: Vec<PathComponent> = Vec::new();
    let mut i: usize = 0;
    while i < n
        invariant
            i <= n <= a@.len(),
            out@.len() == i,
            forall|j: int| 0 <= j < i ==> (#[trigger] out@[j])@ == a@[j]@,
        decreases n - i,
    {
        out.push(copy_component(&a[i]));
        i = i + 1;
    }
    let mut k: usize = 0;
    while k < b.len()
        invariant
            k <= b@.len(),
            out@.len() == n + k,
            forall|j: int| 0 <= j < n ==> (#[trigger] out@[j])@ == a@[j]@,
            forall|j: int| 0 <= j < k ==> (#[trigger] out@[n + j])@ == b@[j]@,
        decreases b@.len() - k,
    {
        out.push(copy_component(&b[k]));
        k = k + 1;
    }
    proof {
        let want = components_view(a@.subrange(0, n as int)) + components_view(b@);
        assert forall|j: int| 0 <= j < out@.len() implies components_view(out@)[j] == want[j] by {
            if j >= n {
                assert(out@[n + (j - n)] == out@[j]);
            }
        }
        assert(components_view(out@) =~= want);
    }
    out
}

/// No `..` or prefix component.
pub open spec fn no_unsafe(cs: Seq<ComponentView>) -> bool {
    forall|j: int| 0 <= j < cs.len() ==> !is_unsafe(#[trigger] cs[j])
}

/// Normalized, `root` followed by `rel` still begins with normalized `root`.
pub open spec fn stays_under(root: Seq<ComponentView>, rel: Seq<ComponentView>) -> bool {
    spec_starts_with(spec_normalize(root + rel), spec_normalize(root))
}

/// Validate that a relative path is safe and doesn't escape the root.
/// Returns the full path if valid: the root's components followed by the
/// relative path's. Checks, in order: not empty, not absolute, no `..` or
/// prefix component (the first one found decides the error), and still
/// under the root once normalized.
pub fn validate_path(root: &[PathComponent], relative: &str) -> (r: Result<Vec<PathComponent>, PathError>)
    ensures
        (r matches Err(PathError::Empty)) <==> relative@.len() == 0,
        (r matches Err(PathError::Absolute(p))) <==> (relative@.len() != 0 && path_is_absolute(
            relative@,
        )),
        relative@.len() != 0 && !path_is_absolute(relative@) ==> {
            let cs = path_components(relative@);
            &&& (r is Err && r->Err_0 is Traversal) <==> exists|i: int|
                #[trigger] first_unsafe_at(cs, i) && cs[i] is ParentDir
            &&& (r is Err && r->Err_0 is WindowsPrefix) <==> exists|i: int|
                #[trigger] first_unsafe_at(cs, i) && cs[i] is Prefix
            &&& (r is Err && r->Err_0 is EscapesRoot) <==> no_unsafe(cs) && !stays_under(
                components_view(root@),
                cs,
            )
            &&& r is Ok <==> no_unsafe(cs) && stays_under(components_view(root@), cs)
            &&& is_clean(cs) ==> r is Ok
        },
        r matches Ok(full) ==> components_view(full@) == components_view(root@) + path_components(
            relative@,
        ),
        r matches Ok(full) ==> spec_starts_with(
            spec_normalize(components_view(full@)),
            spec_normalize(components_view(root@)),
        ),
        r matches Err(PathError::Absolute(p)) ==> p@ == relative@,
        r matches Err(PathError::Traversal(p)) ==> p@ == relative@,
        r matches Err(PathError::WindowsPrefix(p)) ==> p@ == relative@,
        r matches Err(PathError::EscapesRoot(p)) ==> p@ == relative@,
        !(r matches Err(PathError::AbsoluteSymlinkTarget(_))),
        !(r matches Err(PathError::SymlinkEscapesRoot(_))),
{
    if relative.is_empty() {
        return Err(PathError::Empty);
    }
    if str_is_absolute(relative) {
        return Err(PathError::Absolute(relative.to_owned()));
    }
    let rel = str_components(relative);
    let ghost cs = path_components(relative@);
    let mut i: usize = 0;
    while i < rel.len()
        invariant
            i <= rel@.len(),
            relative@.len() != 0,
            !path_is_absolute(relative@),
            cs == path_components(relative@),
            components_view(rel@) == cs,
            forall|j: int| 0 <= j < i ==> !is_unsafe(#[trigger] cs[j]),
        decreases rel@.len() - i,
    {
        assert(cs[i as int] == rel@[i as int]@);
        match &rel[i] {
            PathComponent::ParentDir => {
                assert(first_unsafe_at(cs, i as int));
                proof {
                    assert forall|k: int| first_unsafe_at(cs, k) implies !(cs[k] is Prefix) by {
                        assert(k == i);
                    }
                    assert(!(cs[i as int] is CurDir || cs[i as int] is Normal));
                    assert(!is_clean(cs));
                    assert(!no_unsafe(cs));
                }
                return Err(PathError::Traversal(relative.to_owned()));
            },
            PathComponent::Prefix(_) => {
                assert(first_unsafe_at(cs, i as int));
                proof {
                    assert forall|k: int| first_unsafe_at(cs, k) implies !(cs[k] is ParentDir) by {
                        assert(k == i);
                    }
                    assert(!(cs[i as int] is CurDir || cs[i as int] is Normal));
                    assert(!is_clean(cs));
                    assert(!no_unsafe(cs));
                }
                return Err(PathError::WindowsPrefix(relative.to_owned()));
            },
            _ => {},
        }
        i = i + 1;
    }
    let full_c = copy_components(root, root.len(), rel.as_slice());
    assert(root@.subrange(0, root@.len() as int) =~= root@);
    let normalized = normalize_path(full_c.as_slice());
    let root_normalized = normalize_path(root);
    proof {
        if is_clean(cs) {
            lemma_clean_suffix_stays_under(components_view(root@), cs);
        }
    }
    if !starts_with_components(normalized.as_slice(), root_normalized.as_slice()) {
        return Err(PathError::EscapesRoot(relative.to_owned()));
    }
    Ok(full_c)
}

/// The directory holding a path (`Path::parent`): the path without its last
/// component, when that component is a normal one, `.` or `..`; none for an
/// empty path, the root or a prefix.
pub open spec fn spec_parent(p: Seq<ComponentView>) -> Option<Seq<ComponentView>> {
    if p.len() > 0 && (p.last() is Normal || p.last() is CurDir || p.last() is ParentDir) {
        Some(p.drop_last())
    } else {
        None
    }
}

/// Normalized, `dir` followed by `rel` begins with normalized `root`.
pub open spec fn stays_under_from(root: Seq<ComponentView>, dir: Seq<ComponentView>, rel: Seq<ComponentView>) -> bool {
    spec_starts_with(spec_normalize(dir + rel), spec_normalize(root))
}

/// Validate symlink target - must be relative and not escape root: joined
/// to the directory holding the link and normalized, it must still lie under
/// the normalized root. A link with no directory is not checked further.
pub fn validate_symlink_target(root: &[PathComponent], link_path: &[PathComponent], target: &str) -> (r:
    Result<(), PathError>)
    ensures
        (r matches Err(PathError::AbsoluteSymlinkTarget(t))) <==> path_is_absolute(target@),
        r matches Err(PathError::AbsoluteSymlinkTarget(t)) ==> t@ == target@,
        !path_is_absolute(target@) ==> match spec_parent(components_view(link_path@)) {
            None => r is Ok,
            Some(dir) => {
                &&& r is Ok <==> stays_under_from(
                    components_view(root@),
                    dir,
                    path_components(target@),
                )
                &&& (r matches Err(PathError::SymlinkEscapesRoot(t))) <==> !stays_under_from(
                    components_view(root@),
                    dir,
                    path_components(target@),
                )
            },
        },
        r matches Err(PathError::SymlinkEscapesRoot(t)) ==> t@ == target@,
        r is Ok || r matches Err(PathError::AbsoluteSymlinkTarget(_)) || r matches Err(
            PathError::SymlinkEscapesRoot(_),
        ),
{
    if str_is_absolute(target) {
        return Err(PathError::AbsoluteSymlinkTarget(target.to_owned()));
    }
    let n = link_path.len();
    if n == 0 {
        return Ok(());
    }
    let has_parent = match &link_path[n - 1] {
        PathComponent::Normal(_) => true,
        PathComponent::CurDir => true,
        PathComponent::ParentDir => true,
        _ => false,
    };
    assert(components_view(link_path@).last() == link_path@[n - 1]@);
    if !has_parent {
        return Ok(());
    }
    let target_c = str_components(target);
    let resolved = copy_components(link_path, n - 1, target_c.as_slice());
    assert(components_view(link_path@.subrange(0, n - 1)) =~= components_view(link_path@).drop_last());
    let normalized = normalize_path(resolved.as_slice());
    let root_normalized = normalize_path(root);
    if !starts_with_components(normalized.as_slice(), root_normalized.as_slice()) {
        return Err(PathError::SymlinkEscapesRoot(target.to_owned()));
    }
    Ok(())
}

// =============================================================================
// Laws
// =============================================================================

/// Normalizing a path followed by `.` and normal components gives the
/// normalized path followed by those normal components.
pub proof fn lemma_normalize_clean_suffix(base: Seq<ComponentView>, rel: Seq<ComponentView>)
    requires
        is_clean(rel),
    ensures
        spec_normalize(base + rel) == spec_normalize(base) + normals(rel),
    decreases rel.len(),
{
    if rel.len() == 0 {
        assert(base + rel =~= base);
        assert(spec_normalize(base) + normals(rel) =~= spec_normalize(base));
    } else {
        let init = rel.drop_last();
        assert forall|j: int| 0 <= j < init.len() implies (#[trigger] init[j] is CurDir
            || init[j] is Normal) by {
            assert(init[j] == rel[j]);
        }
        lemma_normalize_clean_suffix(base, init);
        assert((base + rel).drop_last() =~= base + init);
        assert((base + rel).last() == rel.last());
        assert(rel[rel.len() - 1] is CurDir || rel[rel.len() - 1] is Normal);
        if rel.last() is Normal {
            assert(spec_normalize(base) + normals(init).push(rel.last()) =~= (spec_normalize(base)
                + normals(init)).push(rel.last()));
        }
    }
}

/// A relative path made of normal and `.` components never leaves the
/// directory it is joined to: the escape check passes for it whatever the root.
pub proof fn lemma_clean_suffix_stays_under(root: Seq<ComponentView>, rel: Seq<ComponentView>)
    requires
        is_clean(rel),
    ensures
        spec_starts_with(spec_normalize(root + rel), spec_normalize(root)),
{
    lemma_normalize_clean_suffix(root, rel);
    let n = spec_normalize(root);
    assert((n + normals(rel)).subrange(0, n.len() as int) =~= n);
}

/// A symlink whose directory lies under the root and whose target is made of
/// normal and `.` components points under the root.
pub proof fn lemma_clean_target_stays_under(
    root: Seq<ComponentView>,
    parent: Seq<ComponentView>,
    target: Seq<ComponentView>,
)
    requires
        is_clean(target),
        spec_starts_with(spec_normalize(parent), spec_normalize(root)),
    ensures
        spec_starts_with(spec_normalize(parent + target), spec_normalize(root)),
{
    lemma_normalize_clean_suffix(parent, target);
    let np = spec_normalize(parent);
    let nr = spec_normalize(root);
    assert((np + normals(target)).subrange(0, nr.len() as int) =~= np.subrange(0, nr.len() as int));
}

/// A `..` cancels the normal component just before it, also when that
/// component is the first of a relative path: normalizing `s`, a name and
/// `..` is normalizing `s` alone, so normalizing `a/..` is empty.
pub proof fn lemma_parent_cancels_normal(s: Seq<ComponentView>, a: Seq<char>)
    ensures
        spec_normalize(s + seq![ComponentView::Normal(a), ComponentView::ParentDir]) == spec_normalize(
            s,
        ),
        spec_normalize(seq![ComponentView::Normal(a), ComponentView::ParentDir]) == Seq::<
            ComponentView,
        >::empty(),
{
    lemma_name_then_parent(s, a);
    let e = Seq::<ComponentView>::empty();
    lemma_name_then_parent(e, a);
    assert(e + seq![ComponentView::Normal(a), ComponentView::ParentDir] =~= seq![
        ComponentView::Normal(a),
        ComponentView::ParentDir,
    ]);
}

proof fn lemma_name_then_parent(s: Seq<ComponentView>, a: Seq<char>)
    ensures
        spec_normalize(s + seq![ComponentView::Normal(a), ComponentView::ParentDir]) == spec_normalize(
            s,
        ),
{
    let n = ComponentView::Normal(a);
    let sn = s.push(n);
    let t = s + seq![n, ComponentView::ParentDir];
    assert(t =~= sn.push(ComponentView::ParentDir));
    assert(sn.drop_last() =~= s);
    assert(sn.last() == n);
    assert(spec_normalize(sn) == norm_step(spec_normalize(sn.drop_last()), sn.last()));
    assert(spec_normalize(sn) == spec_normalize(s).push(n));
    let tt = sn.push(ComponentView::ParentDir);
    assert(tt.drop_last() =~= sn);
    assert(spec_normalize(tt) == norm_step(spec_normalize(tt.drop_last()), tt.last()));
    assert(spec_normalize(s).push(n).drop_last() =~= spec_normalize(s));
}

/// Normalizing twice is normalizing once.
pub proof fn lemma_normalize_idempotent(cs: Seq<ComponentView>)
    ensures
        spec_normalize(spec_normalize(cs)) == spec_normalize(cs),
{
    lemma_normalized_is_plain(cs);
    lemma_normalize_plain(spec_normalize(cs));
}

/// A normalized path holds no `.` or `..` component.
proof fn lemma_normalized_is_plain(cs: Seq<ComponentView>)
    ensures
        forall|j: int|
            0 <= j < spec_normalize(cs).len() ==> !(#[trigger] spec_normalize(cs)[j] is CurDir)
                && !(spec_normalize(cs)[j] is ParentDir),
    decreases cs.len(),
{
    if cs.len() > 0 {
        lemma_normalized_is_plain(cs.drop_last());
        let acc = spec_normalize(cs.drop_last());
        assert forall|j: int| 0 <= j < spec_normalize(cs).len() implies !(
        #[trigger] spec_normalize(cs)[j] is CurDir) && !(spec_normalize(cs)[j] is ParentDir) by {
            if j < acc.len() {
                assert(acc[j] == acc[j]);
            }
        }
    }
}

/// Normalizing a path without `.` or `..` components leaves it as it is.
proof fn lemma_normalize_plain(cs: Seq<ComponentView>)
    requires
        forall|j: int| 0 <= j < cs.len() ==> !(#[trigger] cs[j] is CurDir) && !(cs[j] is ParentDir),
    ensures
        spec_normalize(cs) == cs,
    decreases cs.len(),
{
    if cs.len() > 0 {
        let init = cs.drop_last();
        assert forall|j: int| 0 <= j < init.len() implies !(#[trigger] init[j] is CurDir) && !(
        init[j] is ParentDir) by {
            assert(init[j] == cs[j]);
        }
        lemma_normalize_plain(init);
        assert(!(cs[cs.len() - 1] is CurDir) && !(cs[cs.len() - 1] is ParentDir));
        assert(init.push(cs.last()) =~= cs);
    } else {
        assert(cs =~= Seq::<ComponentView>::empty());
    }
}

} // verus!
