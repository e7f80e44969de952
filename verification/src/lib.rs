//! Declarative install operations for personal configuration files.
//!
//! A repository holds features: named groups of files and commands, each
//! described by a manifest. This library holds what is decided about them:
//!
//! - [`path`] and [`roots`]: paths as sequences of parts, and the portable
//!   namespace over the three roots of a machine;
//! - [`operation`]: the operations of a feature and the run of an
//!   installation;
//! - [`executor`]: the steps that carry one operation out;
//! - [`tracker`] and [`reconcile`]: the registry of the features of a
//!   machine, and how it follows the repository;
//! - [`yaml`], [`parser`] and [`registry`]: manifests and the registry file
//!   as YAML;
//! - [`driver`]: what the commands bind, rebind, enable and show.
//!
//! Nothing here touches the file system or starts a process. Where a
//! decision depends on the machine, the caller says what it found and is
//! told what to do next.

pub mod seqs;
pub mod path;
pub mod roots;
pub mod operation;
pub mod executor;
pub mod tracker;
pub mod reconcile;
pub mod yaml;
pub mod parser;
pub mod registry;
pub mod driver;
