//! Workspace containment for write targets.
//!
//! Reads are unrestricted; a write is allowed only when its canonicalized
//! target lies under the canonical workspace root. Canonicalization —
//! resolving symlinks and relative segments on the filesystem — is I/O and
//! happens at the edge; the guard receives its outcome as plain path
//! components and decides. A target that does not exist yet is judged by its
//! canonicalized parent joined with the final component, which preserves the
//! symlink guarantee for new files; a target whose parent does not exist is
//! rejected.

use vstd::prelude::*;

verus! {

/// The views of a list of path components.
pub open spec fn comps_view(v: Seq<String>) -> Seq<Seq<char>> {
    v.map_values(|c: String| c@)
}

/// Component-wise prefix: `path` starts with `root`.
pub open spec fn starts_with_spec(path: Seq<Seq<char>>, root: Seq<Seq<char>>) -> bool {
    root.len() <= path.len() && forall|i: int| 0 <= i < root.len() ==> path[i] == root[i]
}

/// What canonicalization found out about a write target.
pub enum TargetResolution {
    /// The target exists; these are its canonical components.
    Exists { canonical: Vec<String> },
    /// The target does not exist but its parent does: the parent's canonical
    /// components and the target's final component, which is not
    /// canonicalized because it does not exist yet.
    ParentExists { canonical_parent: Vec<String>, file_name: String },
    /// Neither the target nor its parent exists.
    ParentMissing,
}

/// The canonical path a resolution stands for, if any.
pub open spec fn resolved_path(t: TargetResolution) -> Option<Seq<Seq<char>>> {
    match t {
        TargetResolution::Exists { canonical } => Some(comps_view(canonical@)),
        TargetResolution::ParentExists { canonical_parent, file_name } => Some(
            comps_view(canonical_parent@).push(file_name@),
        ),
        TargetResolution::ParentMissing => None,
    }
}

/// Whether a write to the resolved target is allowed under the given root.
pub open spec fn allowed_spec(root: Seq<Seq<char>>, t: TargetResolution) -> bool {
    match resolved_path(t) {
        Some(p) => starts_with_spec(p, root),
        None => false,
    }
}

/// Enforces workspace-scoped write access: stores the canonical workspace
/// root and admits exactly the targets that resolve under it.
pub struct WorkspaceGuard {
    canonical_root: Vec<String>,
}

impl WorkspaceGuard {
    /// The view of the stored root components.
    pub closed spec fn root_view(self) -> Seq<Seq<char>> {
        comps_view(self.canonical_root@)
    }

    /// Build a guard from the canonical components of the workspace root,
    /// as canonicalization resolved them.
    pub fn from_canonical_root(canonical_root: Vec<String>) -> (r: WorkspaceGuard)
        ensures
            r.root_view() == comps_view(canonical_root@),
    {
        WorkspaceGuard { canonical_root }
    }

    /// The canonical workspace root components.
    pub fn canonical_root(&self) -> (r: &Vec<String>)
        ensures
            comps_view(r@) == self.root_view(),
    {
        &self.canonical_root
    }

    /// Decide a write: allowed exactly when the target resolves to a
    /// canonical path that begins with the canonical workspace root. A
    /// target without an existing parent is rejected.
    pub fn is_write_allowed(&self, target: &TargetResolution) -> (r: bool)
        ensures
            r == allowed_spec(self.root_view(), *target),
    {
        match target {
            TargetResolution::Exists { canonical } => {
                proof {
                    assert(resolved_path(*target) == Some(comps_view(canonical@)));
                }
                comps_start_with(canonical, &self.canonical_root)
            },
            TargetResolution::ParentExists { canonical_parent, file_name } => {
                let root_len = self.canonical_root.len();
                let parent_len = canonical_parent.len();
                proof {
                    assert(resolved_path(*target) == Some(
                        comps_view(canonical_parent@).push(file_name@),
                    ));
                }
                if root_len > 0 && parent_len < root_len - 1 {
                    proof {
                        assert(!starts_with_spec(
                            comps_view(canonical_parent@).push(file_name@),
                            self.root_view(),
                        ));
                    }
                    false
                } else if root_len > 0 && parent_len == root_len - 1 {
                    // The joined path has exactly the root's length: every
                    // parent component and the final component must match.
                    let head_ok = comps_start_with_prefix(
                        canonical_parent,
                        &self.canonical_root,
                        parent_len,
                    );
                    let last_ok = crate::strutil::str_eq(
                        file_name.as_str(),
                        self.canonical_root[parent_len].as_str(),
                    );
                    proof {
                        let joined = comps_view(canonical_parent@).push(file_name@);
                        assert(joined[parent_len as int] == file_name@);
                        assert(forall|i: int|
                            0 <= i < parent_len ==> joined[i] == comps_view(canonical_parent@)[i]);
                    }
                    head_ok && last_ok
                } else {
                    // The parent alone is at least as long as the root: the
                    // final component lies beyond the root prefix.
                    let r = comps_start_with(canonical_parent, &self.canonical_root);
                    proof {
                        let joined = comps_view(canonical_parent@).push(file_name@);
                        assert(forall|i: int|
                            0 <= i < self.root_view().len() ==> joined[i] == comps_view(
                                canonical_parent@,
                            )[i]);
                    }
                    r
                }
            },
            TargetResolution::ParentMissing => false,
        }
    }
}

/// Whether the first `k` components of `path` equal the first `k` of `root`.
fn comps_start_with_prefix(path: &Vec<String>, root: &Vec<String>, k: usize) -> (r: bool)
    requires
        k <= path@.len(),
        k <= root@.len(),
    ensures
        r == forall|i: int| 0 <= i < k ==> comps_view(path@)[i] == comps_view(root@)[i],
{
    let mut i: usize = 0;
    while i < k
        invariant
            k <= path@.len(),
            k <= root@.len(),
            0 <= i <= k,
            forall|j: int| 0 <= j < i ==> comps_view(path@)[j] == comps_view(root@)[j],
        decreases k - i,
    {
        if !crate::strutil::str_eq(path[i].as_str(), root[i].as_str()) {
            proof {
                assert(comps_view(path@)[i as int] == path@[i as int]@);
                assert(comps_view(root@)[i as int] == root@[i as int]@);
            }
            return false;
        }
        proof {
            assert(comps_view(path@)[i as int] == path@[i as int]@);
            assert(comps_view(root@)[i as int] == root@[i as int]@);
        }
        i += 1;
    }
    true
}

/// Whether `path` starts with all of `root`, component by component.
fn comps_start_with(path: &Vec<String>, root: &Vec<String>) -> (r: bool)
    ensures
        r == starts_with_spec(comps_view(path@), comps_view(root@)),
{
    let root_len = root.len();
    if root_len > path.len() {
        return false;
    }
    comps_start_with_prefix(path, root, root_len)
}

/// Law: workspace containment. Whenever a write is allowed, the target's
/// canonicalized path begins with the canonical workspace root.
pub proof fn lemma_write_containment(root: Seq<Seq<char>>, t: TargetResolution)
    requires
        allowed_spec(root, t),
    ensures
        resolved_path(t) matches Some(p) && starts_with_spec(p, root),
{
}

/// Law: the workspace root itself is always an allowed write target.
pub proof fn lemma_root_allowed(root: Seq<Seq<char>>, t: TargetResolution)
    requires
        t matches TargetResolution::Exists { canonical } && comps_view(canonical@) == root,
    ensures
        allowed_spec(root, t),
{
}

} // verus!
