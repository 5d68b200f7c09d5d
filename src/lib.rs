//! Static alignment of side-channel trace sets.
//!
//! A trace is a sequence of samples; within one trace set all traces share the
//! same sample indices.  A static alignment takes a reference window of one
//! trace and slides a same-length window over every other trace, reporting
//! the positions at which the two correlate well enough.
//!
//! - [`window`] validates a request and lays out the candidate windows;
//! - [`search`] turns the per-candidate threshold outcomes into the ordered
//!   result, and states the laws that result obeys;
//! - [`realign`] rotates the x-values of a trace by a shift;
//! - [`view`] holds the rules of the trace viewer.
pub mod realign;
pub mod search;
pub mod view;
pub mod window;
