//! Verified core of Rivet's backend logic: naming, addressing and
//! configuration rules, the text of the scripts and queries that the
//! services run, and the decisions that drive their side effects.

pub mod text;

pub mod servers;
pub mod cargo_cli;
pub mod db_conn;
pub mod query;
pub mod job_log;
pub mod build_get;
pub mod cdn;
pub mod user_search;
pub mod default_builds;
pub mod models;
pub mod admin;
pub mod status;
