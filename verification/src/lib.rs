//! The execution core of a runtime that hosts modules: tables of records,
//! reducers that act on them under an access policy, and the cooperative
//! scheduler that drives the reducers' tasks.
//!
//! Each type comes with a mathematical value, its view, and each operation
//! says what it does to that value. The laws that hold across operations,
//! such as that ids are never reused, are proved beside the values they
//! speak of.

pub mod keys;
pub mod module;
pub mod reducer;
pub mod spacetime_core;
pub mod table;
pub mod task;
pub mod timer;
