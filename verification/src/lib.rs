//! Scheduling of proof-generation jobs and sizing of the worker fleet
//! that runs them, with the node's smaller helpers.
//!
//! The job queue (`fri_prover_dal`) is a table of rows; each operation on
//! it is one atomic step, so that concurrent workers see the operations
//! in some order. `queue_model` says what each operation makes of the
//! table, `selection` which job a claim takes, `queue_stats` what the
//! backlog is, and `queue_laws` what holds of the queue whatever the
//! callers do.
//!
//! The fleet scaler (`fleet_scaler`, with `fleet_model` and `fleet_laws`)
//! turns the demand that the `queuer` reads from the backlog, and the
//! pictures that each cluster's watcher (`cluster_watcher`) keeps, into
//! one target for every pool in every cluster; a cluster's scaler
//! (`cluster_scaler`) turns a command into a patch.
//!
//! Every function carries a contract that Verus proves. What is taken on
//! trust is marked where it stands: the random draw of the forced price
//! client and the ABI encoding of the Avail client's proofs.

pub mod basic_types;
pub mod job_row;
pub mod seq_steps;
pub mod selection;
pub mod queue_model;
pub mod queue_stats;
pub mod fri_prover_dal;
pub mod queue_laws;

pub mod queuer;
pub mod scaling_rules;
pub mod cluster_watcher;
pub mod fleet_model;
pub mod fleet_scaler;
pub mod fleet_laws;
pub mod cluster_scaler;

pub mod prover_job;
pub mod fees;
pub mod forced_price_client;
pub mod validate_chain_ids_task;
pub mod da_client;
pub mod debug;
pub mod avail_client;
