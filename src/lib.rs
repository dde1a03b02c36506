//! Building blocks for running a command inside the root filesystem of a
//! registry image: reference parsing, registry request construction, the
//! acquisition sequence, archive path confinement, the layer overlay model
//! and the isolation bootstrap sequence. All filesystem, network and process
//! work is left to the caller, which performs the actions these state
//! machines hand out and reports how each went.
pub mod acquire;
pub mod bootstrap;
pub mod command;
pub mod error;
pub mod overlay;
pub mod paths;
pub mod reference;
pub mod registry;
