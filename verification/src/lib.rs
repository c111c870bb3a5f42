//! The client's side of sliding sync.
//!
//! A client that uses sliding sync does not fetch all of its rooms. It has views, each a sorted
//! and filtered list of rooms of which the server sends ranges: the whole list batch by batch, or
//! just the windows that are shown. This crate holds what decides in such a client: which request
//! comes next, what a response does to the views, when a stream of requests ends.
//!
//! - [`types`]: the values that requests and responses are made of, and the errors
//! - [`view_builder`] and [`view`]: views and the generators of their requests
//! - [`sync`] and [`stream`]: the views of a client together, and the stream that syncs them
//! - [`model`]: what all of these compute, over mathematical values
//! - [`laws`] and [`sync_laws`]: what holds of them as a whole
//! - [`response_laws`], [`request_laws`], [`stream_laws`] and [`value_laws`]: what each operation
//!   does, told by what goes in and what comes out
//! - [`outside`]: what is taken from other crates, and trusted
//!
//! Nothing here sends or receives. A stream is told what happened and answers with what to do.
pub mod laws;
pub mod model;
pub mod outside;
pub mod request_laws;
pub mod response_laws;
pub mod stream;
pub mod stream_laws;
pub mod sync;
pub mod sync_laws;
pub mod types;
pub mod value_laws;
pub mod view;
pub mod view_builder;

pub use stream::{SlidingSyncStream, StreamAction, StreamEvent};
pub use sync::{Client, SlidingSync, SlidingSyncBuilder, SlidingSyncBuilderError};
pub use types::{
    Request, Response, RoomIdError, SlidingOp, SlidingSyncMode, SlidingSyncRoom, SlidingSyncState,
    SyncError, SyncOp, SyncRequestList, UInt,
};
pub use view::{SharedView, SlidingSyncView, SlidingSyncViewRequestGenerator};
pub use view_builder::{SlidingSyncViewBuilder, SlidingSyncViewBuilderError};
