//! Protocol client library for configuring and monitoring TinyMesh
//! radio-frequency serial modules.
//!
//! The crate is organised leaf-first:
//! * [`strutil`] — verified text scanning and number parsing helpers;
//! * [`module_description_parser`] — section-oriented parser for module
//!   description resources;
//! * [`mk_module_description`] — typed extraction of cells, modes and
//!   address sets from a parsed description;
//! * [`device_config_parser`] / [`device_calibration_parser`] — binary
//!   decoding of device responses into typed configuration data;
//! * [`framer`] — terminator-delimited reply framing with bounded retries;
//! * [`tinymesh_comm`] — write diffs, command plans and their runner, the
//!   device session with its cached configuration, and the cancellable
//!   background-loop state machines.
//!
//! The crate holds decision logic only: a surrounding runtime owns the
//! serial transport, performs the transport actions these state machines
//! ask for, and feeds the outcomes back.

#![verifier::loop_isolation(false)]

pub mod device_calibration_parser;
pub mod device_config_parser;
pub mod mk_module_description;
pub mod module_description_parser;
pub mod framer;
pub mod strutil;
pub mod tinymesh_comm;
