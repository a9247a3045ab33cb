//! The path-validation engine: decides, for an untrusted path string and a
//! trusted workspace root, whether the path resolves inside the root, and
//! returns the resolved form.
//!
//! The filesystem is consulted through three small trusted wrappers whose
//! results are collected into a [`PathProbe`]. Everything that decides is
//! verified: [`evaluate_probe`] turns the path strings and one probe into
//! the outcome, and its contract pins the result exactly, for every probe
//! value. The outcome is a hint valid only until the next syscall, never a
//! proof about the future state of the disk.

use vstd::prelude::*;

use crate::errors::ValidationError;
use crate::errors::ValidationErrorView;
use crate::errors::ValidationResult;
use crate::resolve::extension_of;
use crate::resolve::extension_of_path;
use crate::resolve::is_within_root;
use crate::resolve::join_path;
use crate::resolve::join_path_spec;
use crate::resolve::path_is_within_root;
use crate::resolve::split_parent;
use crate::resolve::split_parent_spec;
use crate::strutil::seq_ascii_case_eq;
use crate::strutil::str_copy;
use crate::strutil::str_eq_ci;
use crate::traversal::contains_traversal_pattern;
use crate::traversal::is_traversal_pattern;
use vstd::string::StringExecFns;

verus! {

/// Relies on `Path::exists`: whether the path exists on disk at call
/// time. The result depends on the filesystem; nothing is assumed of it.
#[verifier::external_body]
fn path_exists(p: &str) -> bool {
    std::path::Path::new(p).exists()
}

/// Relies on `Path::is_dir`: whether the path is a directory on disk at
/// call time. The result depends on the filesystem; nothing is assumed of
/// it.
#[verifier::external_body]
fn path_is_dir(p: &str) -> bool {
    std::path::Path::new(p).is_dir()
}

/// Relies on `Path::canonicalize`: the absolute, symlink-free form of the
/// path, or the reported I/O error's text; a canonical path that is not
/// UTF-8 is reported as a failure. The result depends on the filesystem;
/// nothing is assumed of it.
#[verifier::external_body]
fn canonicalize_path(p: &str) -> Result<String, String> {
    match std::path::Path::new(p).canonicalize() {
        Ok(c) => match c.to_str() {
            Some(s) => Ok(s.to_string()),
            None => Err("canonical path is not valid UTF-8".to_string()),
        },
        Err(e) => Err(format!("{}", e)),
    }
}

/// What one look at the filesystem said about the root, the requested
/// path, and the requested path's parent. The canonicalization fields
/// carry the canonical path on success and the reported reason on
/// failure.
pub struct PathProbe {
    pub root_exists: bool,
    pub root_is_dir: bool,
    pub root_canonical: Result<String, String>,
    pub target_exists: bool,
    pub target_canonical: Result<String, String>,
    pub parent_exists: bool,
    pub parent_canonical: Result<String, String>,
}

/// Ghost mirror of `PathProbe`.
pub ghost struct ProbeView {
    pub root_exists: bool,
    pub root_is_dir: bool,
    pub root_canonical: Result<Seq<char>, Seq<char>>,
    pub target_exists: bool,
    pub target_canonical: Result<Seq<char>, Seq<char>>,
    pub parent_exists: bool,
    pub parent_canonical: Result<Seq<char>, Seq<char>>,
}

pub open spec fn canon_view(r: Result<String, String>) -> Result<Seq<char>, Seq<char>> {
    match r {
        Ok(s) => Ok(s@),
        Err(e) => Err(e@),
    }
}

impl View for PathProbe {
    type V = ProbeView;

    open spec fn view(&self) -> ProbeView {
        ProbeView {
            root_exists: self.root_exists,
            root_is_dir: self.root_is_dir,
            root_canonical: canon_view(self.root_canonical),
            target_exists: self.target_exists,
            target_canonical: canon_view(self.target_canonical),
            parent_exists: self.parent_exists,
            parent_canonical: canon_view(self.parent_canonical),
        }
    }
}

pub open spec fn result_view(r: Result<String, ValidationError>) -> Result<
    Seq<char>,
    ValidationErrorView,
> {
    match r {
        Ok(s) => Ok(s@),
        Err(e) => Err(e@),
    }
}

/// How the requested path resolves under a given probe: directly when it
/// exists, through its parent when it does not.
pub open spec fn resolve_target(requested: Seq<char>, pr: ProbeView) -> Result<
    Seq<char>,
    ValidationErrorView,
> {
    if pr.target_exists {
        match pr.target_canonical {
            Ok(c) => Ok(c),
            Err(e) => Err(
                ValidationErrorView::PathResolutionFailed {
                    path: requested,
                    reason: "Cannot resolve path: "@ + e,
                },
            ),
        }
    } else {
        match split_parent_spec(requested) {
            None => Err(
                ValidationErrorView::PathResolutionFailed {
                    path: requested,
                    reason: "Path has no parent directory"@,
                },
            ),
            Some(pn) => {
                if !pr.parent_exists {
                    Err(
                        ValidationErrorView::PathResolutionFailed {
                            path: requested,
                            reason: "Parent directory does not exist"@,
                        },
                    )
                } else {
                    match pr.parent_canonical {
                        Ok(pc) => Ok(join_path_spec(pc, pn.1)),
                        Err(e) => Err(
                            ValidationErrorView::PathResolutionFailed {
                                path: requested,
                                reason: "Cannot resolve parent directory: "@ + e,
                            },
                        ),
                    }
                }
            },
        }
    }
}

/// The validation outcome as a function of the path strings and one
/// filesystem probe: the traversal pre-check, then the root checks, then
/// resolution, then the component-wise containment test.
pub open spec fn decision(requested: Seq<char>, root: Seq<char>, pr: ProbeView) -> Result<
    Seq<char>,
    ValidationErrorView,
> {
    if is_traversal_pattern(requested) {
        Err(
            ValidationErrorView::InvalidPathPattern {
                path: requested,
                reason: "Path contains directory traversal patterns"@,
            },
        )
    } else if !pr.root_exists {
        Err(
            ValidationErrorView::InvalidWorkspaceRoot {
                path: root,
                reason: "Workspace directory does not exist"@,
            },
        )
    } else if !pr.root_is_dir {
        Err(
            ValidationErrorView::InvalidWorkspaceRoot {
                path: root,
                reason: "Workspace path is not a directory"@,
            },
        )
    } else {
        match pr.root_canonical {
            Err(e) => Err(
                ValidationErrorView::InvalidWorkspaceRoot {
                    path: root,
                    reason: "Cannot canonicalize workspace: "@ + e,
                },
            ),
            Ok(root_c) => match resolve_target(requested, pr) {
                Err(err) => Err(err),
                Ok(target_c) => {
                    if is_within_root(target_c, root_c) {
                        Ok(target_c)
                    } else {
                        Err(
                            ValidationErrorView::PathOutsideWorkspace {
                                requested: requested,
                                workspace: root,
                            },
                        )
                    }
                },
            },
        }
    }
}

fn resolve_target_exec(requested: &str, probe: &PathProbe) -> (r: Result<String, ValidationError>)
    ensures
        result_view(r) == resolve_target(requested@, probe@),
{
    if probe.target_exists {
        match &probe.target_canonical {
            Ok(c) => Ok(str_copy(c.as_str())),
            Err(e) => Err(
                ValidationError::PathResolutionFailed {
                    path: str_copy(requested),
                    reason: String::from_str("Cannot resolve path: ").concat(e.as_str()),
                },
            ),
        }
    } else {
        match split_parent(requested) {
            None => Err(
                ValidationError::PathResolutionFailed {
                    path: str_copy(requested),
                    reason: String::from_str("Path has no parent directory"),
                },
            ),
            Some(pn) => {
                if !probe.parent_exists {
                    Err(
                        ValidationError::PathResolutionFailed {
                            path: str_copy(requested),
                            reason: String::from_str("Parent directory does not exist"),
                        },
                    )
                } else {
                    match &probe.parent_canonical {
                        Ok(pc) => Ok(join_path(pc.as_str(), pn.1.as_str())),
                        Err(e) => Err(
                            ValidationError::PathResolutionFailed {
                                path: str_copy(requested),
                                reason: String::from_str("Cannot resolve parent directory: ")
                                    .concat(e.as_str()),
                            },
                        ),
                    }
                }
            },
        }
    }
}

/// Decides validation from the path strings and one filesystem probe: the
/// verified core. The result is exactly `decision` of its arguments, for
/// every probe value.
pub fn evaluate_probe(requested: &str, root: &str, probe: &PathProbe) -> (r: Result<
    String,
    ValidationError,
>)
    ensures
        result_view(r) == decision(requested@, root@, probe@),
{
    if contains_traversal_pattern(requested) {
        return Err(
            ValidationError::InvalidPathPattern {
                path: str_copy(requested),
                reason: String::from_str("Path contains directory traversal patterns"),
            },
        );
    }
    if !probe.root_exists {
        return Err(
            ValidationError::InvalidWorkspaceRoot {
                path: str_copy(root),
                reason: String::from_str("Workspace directory does not exist"),
            },
        );
    }
    if !probe.root_is_dir {
        return Err(
            ValidationError::InvalidWorkspaceRoot {
                path: str_copy(root),
                reason: String::from_str("Workspace path is not a directory"),
            },
        );
    }
    let root_canonical = match &probe.root_canonical {
        Ok(s) => str_copy(s.as_str()),
        Err(e) => {
            return Err(
                ValidationError::InvalidWorkspaceRoot {
                    path: str_copy(root),
                    reason: String::from_str("Cannot canonicalize workspace: ").concat(e.as_str()),
                },
            );
        },
    };
    let target_canonical = match resolve_target_exec(requested, probe) {
        Ok(c) => c,
        Err(e) => {
            return Err(e);
        },
    };
    if path_is_within_root(target_canonical.as_str(), root_canonical.as_str()) {
        Ok(target_canonical)
    } else {
        Err(
            ValidationError::PathOutsideWorkspace {
                requested: str_copy(requested),
                workspace: str_copy(root),
            },
        )
    }
}

/// Collects one look at the filesystem for the root, the requested path,
/// and its parent. Every field is whatever the disk said at call time.
fn probe_filesystem(requested: &str, root: &str) -> (r: PathProbe) {
    let parent_probe: (bool, Result<String, String>) = match split_parent(requested) {
        Some(pn) => (path_exists(pn.0.as_str()), canonicalize_path(pn.0.as_str())),
        None => (false, Err(String::new())),
    };
    PathProbe {
        root_exists: path_exists(root),
        root_is_dir: path_is_dir(root),
        root_canonical: canonicalize_path(root),
        target_exists: path_exists(requested),
        target_canonical: canonicalize_path(requested),
        parent_exists: parent_probe.0,
        parent_canonical: parent_probe.1,
    }
}

fn validate_core(requested: &str, root: &str) -> (res: (PathProbe, Result<String, ValidationError>))
    ensures
        result_view(res.1) == decision(requested@, root@, res.0@),
{
    let probe = probe_filesystem(requested, root);
    let r = evaluate_probe(requested, root, &probe);
    (probe, r)
}

/// Law: the traversal pre-check alone decides the InvalidPathPattern
/// outcome. A path holding a traversal pattern is rejected with exactly
/// this error whatever the filesystem probe said, and no other input ever
/// receives an InvalidPathPattern from plain validation.
pub proof fn lemma_pattern_error_iff(requested: Seq<char>, root: Seq<char>, pr: ProbeView)
    ensures
        is_traversal_pattern(requested) ==> decision(requested, root, pr) == Err::<
            Seq<char>,
            ValidationErrorView,
        >(
            ValidationErrorView::InvalidPathPattern {
                path: requested,
                reason: "Path contains directory traversal patterns"@,
            },
        ),
        !is_traversal_pattern(requested) ==> (decision(requested, root, pr) matches Err(e) ==> !(e
            is InvalidPathPattern)),
{
}

/// Law: when the probe shows a healthy root and an existing requested
/// path whose canonical form lies inside the canonical root, validation
/// succeeds and returns exactly that canonical form.
pub proof fn lemma_descendant_accepted(requested: Seq<char>, root: Seq<char>, pr: ProbeView)
    requires
        !is_traversal_pattern(requested),
        pr.root_exists,
        pr.root_is_dir,
        pr.root_canonical is Ok,
        pr.target_exists,
        pr.target_canonical is Ok,
        is_within_root(pr.target_canonical->Ok_0, pr.root_canonical->Ok_0),
    ensures
        decision(requested, root, pr) == Ok::<Seq<char>, ValidationErrorView>(
            pr.target_canonical->Ok_0,
        ),
{
}

/// Law: a requested path that does not exist yet is resolved through its
/// parent. With a healthy root and an existing, resolvable parent whose
/// canonical form joined with the final component lies inside the root,
/// validation succeeds and returns that joined form.
pub proof fn lemma_new_file_accepted(requested: Seq<char>, root: Seq<char>, pr: ProbeView)
    requires
        !is_traversal_pattern(requested),
        pr.root_exists,
        pr.root_is_dir,
        pr.root_canonical is Ok,
        !pr.target_exists,
        split_parent_spec(requested) is Some,
        pr.parent_exists,
        pr.parent_canonical is Ok,
        is_within_root(
            join_path_spec(pr.parent_canonical->Ok_0, (split_parent_spec(requested)->0).1),
            pr.root_canonical->Ok_0,
        ),
    ensures
        decision(requested, root, pr) == Ok::<Seq<char>, ValidationErrorView>(
            join_path_spec(pr.parent_canonical->Ok_0, (split_parent_spec(requested)->0).1),
        ),
{
}

/// Law: whenever the requested path resolves, directly or through its
/// parent, to a canonical form that is not inside the canonical root,
/// validation fails with PathOutsideWorkspace, carrying the requested
/// path and the root as given.
pub proof fn lemma_outside_rejected(requested: Seq<char>, root: Seq<char>, pr: ProbeView)
    requires
        !is_traversal_pattern(requested),
        pr.root_exists,
        pr.root_is_dir,
        pr.root_canonical is Ok,
        resolve_target(requested, pr) is Ok,
        !is_within_root(resolve_target(requested, pr)->Ok_0, pr.root_canonical->Ok_0),
    ensures
        decision(requested, root, pr) == Err::<Seq<char>, ValidationErrorView>(
            ValidationErrorView::PathOutsideWorkspace { requested: requested, workspace: root },
        ),
{
}

/// Validates that a requested path is within the workspace root. The
/// traversal pre-check runs before any filesystem access; the rest of the
/// outcome is `decision` of the strings and one filesystem probe.
pub fn validate_path_within_workspace(requested_path: &str, workspace_root: &str) -> (r:
    ValidationResult<String>)
    ensures
        exists|pr: ProbeView|
            result_view(r) == decision(requested_path@, workspace_root@, pr),
        (r matches Err(e) && e@ is InvalidPathPattern) <==> is_traversal_pattern(requested_path@),
        is_traversal_pattern(requested_path@) ==> (r matches Err(e) && e@
            == (ValidationErrorView::InvalidPathPattern {
            path: requested_path@,
            reason: "Path contains directory traversal patterns"@,
        })),
        r is Ok ==> !is_traversal_pattern(requested_path@),
{
    let pair = validate_core(requested_path, workspace_root);
    proof {
        let pv = pair.0@;
        assert(result_view(pair.1) == decision(requested_path@, workspace_root@, pv));
        lemma_pattern_error_iff(requested_path@, workspace_root@, pv);
    }
    pair.1
}

/// Whether the path's extension passes the allow-list: with an extension,
/// some allowed entry must match it ASCII-case-insensitively; without
/// one, the list must be empty.
pub open spec fn extension_allowed(p: Seq<char>, allowed: Seq<Seq<char>>) -> bool {
    match extension_of(p) {
        Some(e) => exists|i: int|
            0 <= i < allowed.len() && seq_ascii_case_eq(#[trigger] allowed[i], e),
        None => allowed.len() == 0,
    }
}

/// The validation outcome with the extension requirement added after the
/// containment test.
pub open spec fn decision_with_ext(
    requested: Seq<char>,
    root: Seq<char>,
    allowed: Seq<Seq<char>>,
    pr: ProbeView,
) -> Result<Seq<char>, ValidationErrorView> {
    match decision(requested, root, pr) {
        Err(e) => Err(e),
        Ok(p) => match extension_of(p) {
            Some(e) => {
                if exists|i: int|
                    0 <= i < allowed.len() && seq_ascii_case_eq(#[trigger] allowed[i], e) {
                    Ok(p)
                } else {
                    Err(
                        ValidationErrorView::InvalidPathPattern {
                            path: requested,
                            reason: "File extension '"@ + e + "' is not allowed"@,
                        },
                    )
                }
            },
            None => {
                if allowed.len() == 0 {
                    Ok(p)
                } else {
                    Err(
                        ValidationErrorView::InvalidPathPattern {
                            path: requested,
                            reason: "File must have an allowed extension"@,
                        },
                    )
                }
            },
        },
    }
}

/// Law: the extension requirement accepts exactly the
/// ASCII-case-insensitive matches against the allow-list. A path with an
/// extension is accepted when and only when some allowed entry matches
/// it, a path without one when and only when the list is empty, and an
/// accepted path comes back unchanged.
pub proof fn lemma_extension_rule(
    requested: Seq<char>,
    root: Seq<char>,
    allowed: Seq<Seq<char>>,
    pr: ProbeView,
)
    ensures
        decision_with_ext(requested, root, allowed, pr) is Ok <==> (decision(requested, root, pr)
            is Ok && extension_allowed(decision(requested, root, pr)->Ok_0, allowed)),
        decision_with_ext(requested, root, allowed, pr) is Ok ==> decision_with_ext(
            requested,
            root,
            allowed,
            pr,
        ) == decision(requested, root, pr),
{
}

fn extension_in_list(allowed: &Vec<&str>, ext: &str) -> (r: bool)
    ensures
        r == exists|i: int|
            0 <= i < allowed.deep_view().len() && seq_ascii_case_eq(
                #[trigger] allowed.deep_view()[i],
                ext@,
            ),
{
    let n = allowed.len();
    let mut i: usize = 0;
    while i < n
        invariant
            n == allowed@.len(),
            i <= n,
            forall|j: int|
                0 <= j < i ==> !seq_ascii_case_eq(#[trigger] allowed.deep_view()[j], ext@),
        decreases n - i,
    {
        let candidate: &str = allowed[i];
        let hit = str_eq_ci(candidate, ext);
        proof {
            assert(allowed.deep_view()[i as int] == allowed@[i as int]@);
        }
        if hit {
            return true;
        }
        i = i + 1;
    }
    false
}

/// Validates a file path and requires its extension, compared without
/// regard to ASCII case, to be in the allow-list; with a non-empty list a
/// path without an extension is rejected.
pub fn validate_file_path(
    requested_path: &str,
    workspace_root: &str,
    allowed_extensions: &Vec<&str>,
) -> (r: ValidationResult<String>)
    ensures
        exists|pr: ProbeView|
            result_view(r) == decision_with_ext(
                requested_path@,
                workspace_root@,
                allowed_extensions.deep_view(),
                pr,
            ),
        r is Ok ==> !is_traversal_pattern(requested_path@),
{
    let pair = validate_core(requested_path, workspace_root);
    let ghost pv = pair.0@;
    let base = pair.1;
    proof {
        lemma_pattern_error_iff(requested_path@, workspace_root@, pv);
    }
    match base {
        Err(e) => {
            proof {
                assert(result_view(Err::<String, ValidationError>(e)) == decision_with_ext(
                    requested_path@,
                    workspace_root@,
                    allowed_extensions.deep_view(),
                    pv,
                ));
            }
            Err(e)
        },
        Ok(p) => {
            match extension_of_path(p.as_str()) {
                Some(ext) => {
                    if extension_in_list(allowed_extensions, ext.as_str()) {
                        proof {
                            assert(result_view(Ok::<String, ValidationError>(p))
                                == decision_with_ext(
                                requested_path@,
                                workspace_root@,
                                allowed_extensions.deep_view(),
                                pv,
                            ));
                        }
                        Ok(p)
                    } else {
                        let err = ValidationError::InvalidPathPattern {
                            path: str_copy(requested_path),
                            reason: String::from_str("File extension '").concat(
                                ext.as_str(),
                            ).concat("' is not allowed"),
                        };
                        proof {
                            assert(result_view(Err::<String, ValidationError>(err))
                                == decision_with_ext(
                                requested_path@,
                                workspace_root@,
                                allowed_extensions.deep_view(),
                                pv,
                            ));
                        }
                        Err(err)
                    }
                },
                None => {
                    if allowed_extensions.len() == 0 {
                        proof {
                            assert(result_view(Ok::<String, ValidationError>(p))
                                == decision_with_ext(
                                requested_path@,
                                workspace_root@,
                                allowed_extensions.deep_view(),
                                pv,
                            ));
                        }
                        Ok(p)
                    } else {
                        let err = ValidationError::InvalidPathPattern {
                            path: str_copy(requested_path),
                            reason: String::from_str("File must have an allowed extension"),
                        };
                        proof {
                            assert(result_view(Err::<String, ValidationError>(err))
                                == decision_with_ext(
                                requested_path@,
                                workspace_root@,
                                allowed_extensions.deep_view(),
                                pv,
                            ));
                        }
                        Err(err)
                    }
                },
            }
        },
    }
}

/// The validation outcome with the directory requirement added: when
/// `must_exist` is set, the resolved path must currently be a directory.
pub open spec fn decision_for_directory(
    requested: Seq<char>,
    root: Seq<char>,
    must_exist: bool,
    pr: ProbeView,
    dir_ok: bool,
) -> Result<Seq<char>, ValidationErrorView> {
    match decision(requested, root, pr) {
        Err(e) => Err(e),
        Ok(p) => {
            if must_exist && !dir_ok {
                Err(
                    ValidationErrorView::PathResolutionFailed {
                        path: requested,
                        reason: "Path is not a directory or does not exist"@,
                    },
                )
            } else {
                Ok(p)
            }
        },
    }
}

/// Validates a directory path within the workspace; when `must_exist` is
/// set, the resolved path must currently be a directory on disk.
pub fn validate_directory_path(
    requested_path: &str,
    workspace_root: &str,
    must_exist: bool,
) -> (r: ValidationResult<String>)
    ensures
        exists|pr: ProbeView, dir_ok: bool|
            result_view(r) == decision_for_directory(
                requested_path@,
                workspace_root@,
                must_exist,
                pr,
                dir_ok,
            ),
        r is Ok ==> !is_traversal_pattern(requested_path@),
{
    let pair = validate_core(requested_path, workspace_root);
    let ghost pv = pair.0@;
    let base = pair.1;
    proof {
        lemma_pattern_error_iff(requested_path@, workspace_root@, pv);
    }
    match base {
        Err(e) => {
            proof {
                assert(result_view(Err::<String, ValidationError>(e)) == decision_for_directory(
                    requested_path@,
                    workspace_root@,
                    must_exist,
                    pv,
                    true,
                ));
            }
            Err(e)
        },
        Ok(p) => {
            if must_exist {
                let dir_ok = path_is_dir(p.as_str());
                if dir_ok {
                    proof {
                        assert(result_view(Ok::<String, ValidationError>(p))
                            == decision_for_directory(
                            requested_path@,
                            workspace_root@,
                            must_exist,
                            pv,
                            true,
                        ));
                    }
                    Ok(p)
                } else {
                    let err = ValidationError::PathResolutionFailed {
                        path: str_copy(requested_path),
                        reason: String::from_str("Path is not a directory or does not exist"),
                    };
                    proof {
                        assert(result_view(Err::<String, ValidationError>(err))
                            == decision_for_directory(
                            requested_path@,
                            workspace_root@,
                            must_exist,
                            pv,
                            false,
                        ));
                    }
                    Err(err)
                }
            } else {
                proof {
                    assert(result_view(Ok::<String, ValidationError>(p)) == decision_for_directory(
                        requested_path@,
                        workspace_root@,
                        must_exist,
                        pv,
                        true,
                    ));
                }
                Ok(p)
            }
        },
    }
}

} // verus!
