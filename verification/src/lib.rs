//! Matching of filesystem paths against `.gitignore`-style exclusion rules.
//!
//! The crate needs no version-control tool: given the text lines of ignore
//! files and a candidate path (with a directory flag), it decides whether the
//! path is excluded. A single file's rules are held in a [`ruleset::RuleSet`];
//! a whole tree of ignore files is resolved by a [`repo::Repo`], where the
//! ignore file nearest the queried path wins.
//!
//! Paths are `/`-separated strings; reading ignore files and walking
//! directories is the caller's business.

pub mod error;
pub mod globs;
pub mod ignore_file;
pub mod repo;
pub mod rule;
pub mod ruleset;
pub mod text;
