//! Building blocks for desktop apps: secrets in the credential store, crash-safe file writes, and
//! helper processes.
//!
//! The library decides and computes; the app around it talks to the operating system. A sequence
//! of system calls is either a plan that is carried out step by step ([`files`]) or a machine that
//! asks for one action at a time and is told what came of it ([`readiness`], [`lines`],
//! [`shutdown`], [`spawn`]).

pub mod credentials;
pub mod disk;
pub mod files;
pub mod keyring;
pub mod lines;
pub mod output;
pub mod readiness;
pub mod shutdown;
pub mod spawn;
pub mod sweep;
pub mod timing;
pub mod tree;
