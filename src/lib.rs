//! Hardware catalog and driver-installation workflows.
//!
//! The catalog is read from JSON text, decoded into [`catalog::Catalog`], and
//! each command of the installer is computed as a sequence of
//! [`workflow::Output`] actions that a front end performs in order.

pub mod catalog;
pub mod command;
pub mod json;
pub mod text;
pub mod workflow;
