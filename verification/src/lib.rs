//! The Cute language tool chain: what it decides, without what it touches.
//!
//! Parsed modules come in as [`ast`] trees, and facts of the host as plain
//! values. Out come lowered modules, C++ names, meta-object code, CMake projects,
//! bindings, reports and plans. Reading, writing and running is left to the
//! caller.
//!
//! - [`text`] and [`dict`] hold the models of strings and maps that the
//!   contracts speak of.
//! - [`ast`], [`ast_copy`], [`project`], [`sources`] and [`frontend`] lead from
//!   files to one lowered module.
//! - [`desugar_suite`], [`desugar_store`], [`desugar_state`], [`style`] and
//!   [`mangle`] rewrite modules.
//! - [`ty`], [`naming`], [`qss`] and [`meta`] write C++.
//! - [`manifest`], [`modes`], [`cmake`], [`bundle`], [`library_qpi`] and [`plan`]
//!   plan builds; [`probe`], [`packages`] and [`doctor`] examine the host.
//! - [`typesystem`], [`type_table`], [`cpp`], [`methods`], [`scrape`],
//!   [`collect`], [`qpi_types`] and [`qpi_emit`] make bindings of C++ classes;
//!   [`binding`] loads them.
//! - [`entry`], [`install`], [`scaffold`] and [`watch`] serve the command line.
//!
//! Beside these stand modules of laws, which say what holds of the results:
//!
//! - of trees: [`copy_laws`], [`project_laws`], [`desugar_laws`], [`state_laws`],
//!   [`lift_laws`], [`style_laws`], [`mangle_laws`] and [`mangle_refs`];
//! - of generated text: [`qss_laws`], [`meta_laws`], [`build_laws`], [`plan_laws`],
//!   [`library_laws`] and [`qpi_laws`];
//! - of bindings and of the host: [`scan_laws`], [`binding_laws`], [`doctor_laws`],
//!   [`host_laws`] and [`tools_laws`].

pub mod ast;
pub mod ast_copy;
pub mod binding;
pub mod binding_laws;
pub mod build_laws;
pub mod bundle;
pub mod cmake;
pub mod collect;
pub mod copy_laws;
pub mod cpp;
pub mod desugar_laws;
pub mod desugar_state;
pub mod desugar_store;
pub mod desugar_suite;
pub mod dict;
pub mod doctor;
pub mod doctor_laws;
pub mod entry;
pub mod frontend;
pub mod host_laws;
pub mod install;
pub mod library_laws;
pub mod library_qpi;
pub mod lift_laws;
pub mod mangle;
pub mod mangle_laws;
pub mod mangle_refs;
pub mod manifest;
pub mod meta;
pub mod meta_laws;
pub mod methods;
pub mod modes;
pub mod naming;
pub mod packages;
pub mod plan;
pub mod plan_laws;
pub mod probe;
pub mod project;
pub mod project_laws;
pub mod qpi_emit;
pub mod qpi_laws;
pub mod qpi_types;
pub mod qss;
pub mod qss_laws;
pub mod scaffold;
pub mod scan_laws;
pub mod scrape;
pub mod sources;
pub mod state_laws;
pub mod style;
pub mod style_laws;
pub mod text;
pub mod tools_laws;
pub mod ty;
pub mod type_table;
pub mod typesystem;
pub mod watch;
