//! Sets the modification time of each file in a git working directory to
//! the time of the most recent commit that changed it.
//!
//! A run selects candidate files ([`repo::select_touchables`]), walks the
//! first-parent history once to attribute each to the newest commit whose
//! diff introduced its current content at its current path
//! ([`repo::process_touchables`]), and decides which modification times to
//! rewrite ([`sync::plan_resets`]).

pub mod correlate;
pub mod error;
pub mod fileset;
pub mod git;
pub mod options;
pub mod paths;
pub mod repo;
pub mod select;
pub mod sync;

pub use crate::error::Error;
pub use crate::fileset::FileSet;
pub use crate::options::Options;
pub use crate::paths::resolve_repo_path;
pub use crate::repo::{get_repo, process_touchables, select_touchables, walk_history};
