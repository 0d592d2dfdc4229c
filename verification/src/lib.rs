//! A verified core for a libzip-compatible archive interface.
//!
//! The library holds what the interface decides and computes, over plain values:
//!
//! - *Sources*: byte streams that take commands. [`memory`] is a buffer with
//!   write sessions, [`source`] the tree of buffers, user functions and layers
//!   and the dispatch of commands over it, [`compress_layer`] a layer that
//!   encodes what it reads, [`source_api`] and [`write_session`] the operations
//!   on a source, [`source_new`] its constructors, and [`command`], [`stat`] and
//!   [`checksum`] what they share.
//! - *Archives*: [`archive`] is an open archive with the edits that wait for it
//!   ([`pending`], [`extra`], [`keyed`]). [`open`] decides how one is opened,
//!   [`handle`] looks things up, [`edit`] and [`metadata`] record edits,
//!   [`revert`] takes them back, [`entry`] reads entries, and [`plan`] says what
//!   closing an archive writes. [`registration`] holds the state of callbacks
//!   and [`errors`] the error objects and their messages.
//! - *Tools*: [`corpus`] builds archives byte by byte ([`le`]) and drives the
//!   writing of those that [`corpus_specs`] lists, [`reading`] reads entries to
//!   their end, [`harness`] compares what two readers found, [`bench`] generates
//!   workloads, measures and checks, [`bench_archive`] writes and reads their
//!   archives, and [`bench_run`] runs the benchmark ([`clock`], [`text`]).
//!
//! [`laws`] and [`edit_laws`] state what holds across these functions. Other laws
//! speak of calls, of what was handed in and what came back: of sources
//! ([`source_laws`], [`maker_laws`], [`layer_laws`], [`answer_laws`]), of opening an
//! archive and its entries ([`open_laws`], [`entry_laws`]), of its edits and its
//! extra fields ([`change_laws`], [`field_laws`]), of what is written in the end
//! ([`save_laws`], [`saved_laws`]), and of the tools ([`tool_laws`], [`run_laws`],
//! [`stage_laws`], [`corpus_laws`], [`number_laws`]).
//!
//! The engine that decodes and encodes archives and the file system stay
//! outside: a function either takes what they gave as an argument, or takes a
//! function that asks them, and its contract speaks of that function's own.
//! What is asked again and again and may change meanwhile, such as an open entry
//! or a user's callback, is a trait without a promise; contracts fix in which
//! order it is asked, what it is handed and what becomes of its answers.
#![allow(non_camel_case_types)]

pub mod answer_laws;
pub mod archive;
pub mod bench;
pub mod bench_archive;
pub mod bench_run;
pub mod change_laws;
pub mod checksum;
pub mod clock;
pub mod command;
pub mod compress_layer;
pub mod consts;
pub mod corpus;
pub mod corpus_laws;
pub mod corpus_specs;
pub mod edit;
pub mod edit_laws;
pub mod entry;
pub mod entry_laws;
pub mod errors;
pub mod extra;
pub mod field_laws;
pub mod handle;
pub mod harness;
pub mod keyed;
pub mod laws;
pub mod layer_laws;
pub mod le;
pub mod maker_laws;
pub mod memory;
pub mod metadata;
pub mod number_laws;
pub mod open;
pub mod open_laws;
pub mod pending;
pub mod plan;
pub mod reading;
pub mod registration;
pub mod revert;
pub mod run_laws;
pub mod save_laws;
pub mod saved_laws;
pub mod source;
pub mod source_api;
pub mod source_laws;
pub mod source_new;
pub mod stage_laws;
pub mod stat;
pub mod text;
pub mod tool_laws;
pub mod write_session;
