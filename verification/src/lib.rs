//! The logic of a dprint plugin that runs golangci-lint on Go files: its
//! configuration, the golangci-lint command lines, the issue reports, the
//! release and cache names of the installer, and the decisions of the
//! plugin and of its stand-alone line protocol.
pub mod configuration;
pub mod golangci;
pub mod handler;
pub mod installer;
pub mod server;
pub mod text;
