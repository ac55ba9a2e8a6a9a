//! Data-driven flows: a plan of stages and steps, run once for each row of a
//! table, with every step's result checked and every outcome reported.
//!
//! The library holds the rules and is verified; it does no work of the
//! outside itself. Waiting, sending and running at the same time are left to
//! whoever drives it:
//!
//! - [`runner::TaskRunner`] is told what happened and says what is to be done
//!   next: make actions, pull rows, run a batch of cases, report it, rewind.
//!   [`runner::task_step`] is its whole behaviour, and [`laws`] proves what
//!   follows from it.
//! - [`case::CaseRun`] takes a case through its steps, one invocation of an
//!   action after the other; [`step::run`] makes the record of a step from
//!   what came of the invocation.
//! - [`render`] evaluates templates against the namespace of a case;
//!   [`value`] and [`codec`] hold documents and their text.
//! - [`flow`] and [`document`] hold the plan and read it from a document;
//!   [`load`], [`report`], [`conf`] and [`action`] hold what the data source,
//!   the report sink, the configuration and the built-in actions compute.

pub mod action;
pub mod case;
pub mod codec;
pub mod conf;
pub mod document;
pub mod error;
pub mod flow;
pub mod id;
pub mod laws;
pub mod load;
pub mod render;
pub mod report;
pub mod runner;
pub mod step;
pub mod task;
pub mod text;
pub mod value;
pub mod web;
