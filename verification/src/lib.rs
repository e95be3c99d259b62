//! Lifecycle and dynamic-linking protocol of a live media-processing graph.
//!
//! A source feeds a demultiplexer whose output ports are known only once
//! the graph runs; a fixed fan-out subgraph then has to be attached to the
//! port that was discovered, while the graph may be played, stopped or
//! loaded with another source at any time.
//!
//! The crate holds the decisions of the manager of such a graph as
//! verified code over a plain-data model of the graph. A driver performs
//! the commands that the manager issues on the real media framework and
//! reports back what the framework answered.
//!
//! - [`unit`]: processing units, their ports and options
//! - [`graph`], [`subgraph`], [`pipeline`]: the containers and their rules
//! - [`fanout`]: the builder of the fan-out subgraph
//! - [`manager`]: the manager, its run state and its dynamic region
//! - [`attach`]: the callback that attaches the subgraph to a new port
//! - [`command`]: the steps handed to the driver
//! - [`stage`]: what the commands do to a graph that follows the rules
//! - [`laws`]: what holds whatever the calls and their order

pub mod attach;
pub mod command;
pub mod fanout;
pub mod graph;
pub mod laws;
pub mod manager;
pub mod pipeline;
pub mod stage;
pub mod subgraph;
pub mod unit;

pub use attach::AttachCallback;
pub use manager::GstManager;
