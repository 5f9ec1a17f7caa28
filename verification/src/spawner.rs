//! Building the OS process-creation request for one resolved spec.
//!
//! The request carries everything the embedding needs to start the child:
//! the executable path, the working directory (the path's parent
//! directory), the split argument vector, and whether the platform's
//! no-window flag is to be applied. The OS call itself happens outside
//! this library; a typed [`SpawnError`] distinguishes a path without a
//! parent directory from a creation failure the OS reported.

use vstd::prelude::*;

use crate::args::{spec_split_args, split_args};
use crate::process_spec::{ProcessSpec, ProcessSpecView};

verus! {

/// Why no child process came out of a spawn attempt.
#[derive(Debug)]
pub enum SpawnError {
    /// The executable path has no parent directory to run the child in.
    InvalidPath,
    /// The OS refused to create the process; carries its message.
    SpawnFailed(String),
}

impl SpawnError {
    /// The human-readable cause, for the log.
    pub fn message(&self) -> (r: String)
        ensures
            self is InvalidPath ==> r@ == "Couldn't get the directory to run the process in."@,
            self matches SpawnError::SpawnFailed(m) ==> r@ == m@,
    {
        match self {
            SpawnError::InvalidPath => "Couldn't get the directory to run the process in.".to_owned(),
            SpawnError::SpawnFailed(m) => m.clone(),
        }
    }
}

/// One process-creation request, ready for the OS.
#[derive(Debug)]
pub struct SpawnRequest {
    /// Executable to start.
    pub path: String,
    /// Directory the child runs in: the parent directory of `path`.
    pub working_dir: String,
    /// Argument vector, split from the spec's argument string.
    pub argv: Vec<String>,
    /// Whether the platform's no-window creation flag applies.
    pub no_window: bool,
}

/// The request `req` is faithful to the resolved spec it came from,
/// running the child in `dir`.
pub open spec fn request_matches(req: SpawnRequest, p: ProcessSpecView, dir: Seq<char>) -> bool {
    &&& req.path@ == p.path
    &&& req.working_dir@ == dir
    &&& req.argv@.map_values(|t: String| t@) == spec_split_args(p.args)
    &&& req.no_window == p.hide
}

/// The parent directory component of a path, as the platform's path
/// semantics give it: `None` when the path is empty or consists only
/// of a root or prefix. A function of the path alone on any one build.
pub uninterp spec fn parent_of(path: Seq<char>) -> Option<Seq<char>>;

/// The path has a non-empty parent directory component to run the
/// child in.
pub open spec fn has_usable_parent(path: Seq<char>) -> bool {
    parent_of(path) matches Option::Some(d) && d.len() > 0
}

/// Relies on std::path::Path::parent: the path without its final
/// component, `None` when the path is empty or consists only of a root
/// or prefix. Its result, a function of the path alone, is named
/// [`parent_of`].
#[verifier::external_body]
fn parent_dir(path: &str) -> (r: Option<String>)
    ensures
        r matches Option::Some(d) ==> parent_of(path@) == Option::Some(d@),
        r is None ==> parent_of(path@) is None,
        path@.len() == 0 ==> r is None,
{
    match std::path::Path::new(path).parent() {
        Option::Some(p) => Option::Some(p.to_string_lossy().into_owned()),
        Option::None => Option::None,
    }
}

/// Build the creation request for `p`, given the parent directory its
/// path resolved to: no parent directory, or an empty one, means the
/// path is invalid.
pub fn build_request_with_dir(p: &ProcessSpec, parent: Option<String>) -> (r: Result<
    SpawnRequest,
    SpawnError,
>)
    ensures
        parent matches Option::Some(dir) ==> {
            &&& dir@.len() > 0 ==> (r matches Result::Ok(req) && request_matches(req, p@, dir@))
            &&& dir@.len() == 0 ==> (r matches Result::Err(e) && e is InvalidPath)
        },
        parent is None ==> (r matches Result::Err(e) && e is InvalidPath),
{
    match parent {
        Option::Some(dir) => {
            if dir.as_str().is_empty() {
                Result::Err(SpawnError::InvalidPath)
            } else {
                let argv = split_args(p.args.as_str());
                Result::Ok(
                    SpawnRequest {
                        path: p.path.clone(),
                        working_dir: dir,
                        argv,
                        no_window: p.hide,
                    },
                )
            }
        },
        Option::None => Result::Err(SpawnError::InvalidPath),
    }
}

/// Resolve the working directory of `p` and build its creation request:
/// the request is built, rooted in the path's parent directory, exactly
/// when that parent exists and is non-empty; otherwise the path is
/// rejected as invalid. This function itself never reports an OS
/// failure.
pub fn build_request(p: &ProcessSpec) -> (r: Result<SpawnRequest, SpawnError>)
    ensures
        r is Ok <==> has_usable_parent(p.path@),
        r matches Result::Ok(req) ==> (parent_of(p.path@) matches Option::Some(d)
            && request_matches(req, p@, d)),
        r matches Result::Err(e) ==> e is InvalidPath,
{
    let parent = parent_dir(p.path.as_str());
    build_request_with_dir(p, parent)
}

} // verus!
