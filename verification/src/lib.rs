//! Client-side logic for reading build, evaluation and jobset reports off
//! Hydra's web interface: locating the expected result tables in a fetched
//! document, classifying their rows, and normalising heterogeneous cell
//! content into status records with a fixed success/failure/queued/cancelled
//! taxonomy.
//!
//! Network fetching, terminal rendering and command-line parsing live in the
//! surrounding binary; this crate owns the data model, the row classifier and
//! the report assembly, all specified and verified.

pub mod args;
pub mod builds;
pub mod constants;
pub mod eval;
pub mod fetch_stable;
pub mod icons;
pub mod jobset;
pub mod jsonfmt;
pub mod report;
pub mod rows;
pub mod soup;
pub mod strutil;

pub use args::Args;
pub use args::ResolvedArgs;
pub use builds::BuildStatus;
pub use builds::PackageStatus;
pub use eval::EvalDetails;
pub use eval::Evaluation;
pub use fetch_stable::NixpkgsChannelVersion;
pub use icons::StatusIcon;
pub use jobset::EvalStatus;
pub use jobset::JobsetStatus;
