//! Deterministic, structural hashing of workspace packages, together with the
//! pure rules of a build-and-publish tool for multi-package workspaces.

pub mod aws_lambda;
pub mod codec;
pub mod context;
pub mod decimal;
pub mod dependency;
pub mod digest;
pub mod docker;
pub mod errors;
pub mod graph;
pub mod hash;
pub mod injective;
pub mod lines;
pub mod metadata;
pub mod order;
pub mod package;
pub mod paths;
pub mod planner;
pub mod prefix;
pub mod resolve;
pub mod rust;
pub mod selection;
pub mod sources;
pub mod tags;
pub mod term;
pub mod text;

pub use context::{ContextBuilder, Mode, Options};
pub use dependency::{Dependencies, Dependency};
pub use errors::{Error, ErrorContext};
pub use graph::PackageGraph;
pub use hash::{HashItem, Hashable};
pub use metadata::CopyCommand;
pub use package::Workspace;
pub use sources::Sources;
