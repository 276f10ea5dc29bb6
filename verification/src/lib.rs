//! Metadata core of an S3-backed network filesystem.
//!
//! The inode catalog lives in a replicated key-value store. Every filesystem
//! request is a handler that reads inode records through a [`txn::MetaTxn`],
//! stages its writes there, and leaves the side effects that must follow a
//! successful commit in the transaction's effect list. A handler is a function
//! of what the transaction has read: it never blocks, and asks for a record it
//! has not seen by returning [`txn::Step::Need`].
//!
//! The modules, from the leaves up:
//!
//! - [`error`], [`attr`], [`name`]: errors, attributes and access rules, the
//!   order of names;
//! - [`dir`], [`node`], [`serial`]: directories, inode records, and their
//!   serial form;
//! - [`txn`], [`retry`], [`inum`]: the transaction image, the retry rule, and
//!   the inode number allocator;
//! - [`meta`], [`access`], [`create`], [`remove`], [`rename`], [`data`]: the
//!   metadata layer and its handlers;
//! - [`catalog`], [`volume`], [`laws`], [`frame`]: the invariants of the
//!   catalog and the laws of the handlers, with their proofs.

mod arith;
pub mod error;
pub mod attr;
pub mod name;
pub mod dir;
pub mod node;
pub mod serial;
pub mod txn;
pub mod inum;
pub mod meta;
pub mod access;
pub mod create;
pub mod remove;
pub mod rename;
pub mod data;
pub mod retry;
pub mod catalog;
pub mod volume;
pub mod laws;
pub mod frame;
