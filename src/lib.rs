//! Discovery of top-level application windows and the protocol that brings
//! one of them to the foreground.
//!
//! The library holds the policy: which windows count as taskbar-level
//! application windows, how titles and executable names are read out of the
//! environment's UTF-16 buffers, how an enumeration is collected without
//! duplicate handles, and the decisions taken while activating a window.
//! Querying the windowing environment itself is left to the caller.

pub mod activation;
pub mod enumeration;
pub mod filter;
pub mod text;
