//! The snapshot service of a blockchain client: it takes snapshots of the client's state, and
//! restores the client from them.
//!
//! The service decides what is to be done; a host does it. An operation, such as
//! [`service::Service::take_snapshot`] or [`service::Service::feed_state_chunk`], is a run of steps
//! (see [`host`]): each step names an action for the host, and the host's reply leads to the next.
//!
//! - [`service`] holds the state of the service, [`restoration`] that of a restoration.
//! - [`startup`], [`restore`], [`feed`] and [`snapshot`] are the operations, each with the step
//!   that follows on each reply.
//! - [`runs`] puts the steps of an operation together. [`outcomes`] proves what comes of it, and
//!   [`actions`] what it has asked for when it succeeds.
//! - [`laws`] and [`traces`] prove what holds of all operations, [`calls`], [`recovery`] and
//!   [`failures`] what holds of a restoration from its beginning to its end.
//! - [`scripts`] proves what each operation does by the first refusal of the host, [`full`] spells it
//!   out, and [`promises`] proves what a user may count on. [`facts`] is about the values of the
//!   service and the calls that need no host.
//! - [`steps`] proves what holds of single steps whatever happens between them, and of the service
//!   while an operation goes on.
//! - [`interleaving`] proves what holds whatever the order in which operations go on side by side,
//!   [`overlap`] what comes of a snapshot and a restoration that do.
//!
//! A snapshot and a restoration may go on side by side. Operations on the restoration may not: while
//! one holds it ([`service::Service::held`]), a feeding, the beginning or the calling off of a
//! restoration and the providing of canonical hashes have to wait. So does who wants to read the
//! current snapshot while it is being replaced ([`service::Service::swapping`]).

pub mod actions;
pub mod calls;
pub mod chunk_set;
pub mod error;
pub mod facts;
pub mod failures;
pub mod feed;
pub mod full;
pub mod guard;
pub mod hash;
pub mod host;
pub mod interleaving;
pub mod laws;
pub mod manifest;
pub mod outcomes;
pub mod overlap;
pub mod path;
pub mod promises;
pub mod recovery;
pub mod restoration;
pub mod restore;
pub mod runs;
pub mod scripts;
pub mod service;
pub mod snapshot;
pub mod startup;
pub mod status;
pub mod steps;
pub mod traces;
