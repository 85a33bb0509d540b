//! Decodes a JVM class file into a typed, symbolically resolved model.
//!
//! The crate is organised bottom-up:
//!
//! - [`buffer`]: a bounds-checked cursor that reads big-endian numbers and
//!   modified UTF-8 text;
//! - [`constant_pool`]: the constants of a class, addressed from one, with
//!   the unusable second slot of every eight-byte constant;
//! - [`types`] and [`descriptor`]: the grammars of field and method
//!   descriptors;
//! - [`exception_table`] and [`line_number_table`]: the tables of a method
//!   that are asked by address;
//! - [`instruction`]: the decoder of bytecode;
//! - [`class_parser`]: the grammar of the whole file, which puts a
//!   [`class::ClassFile`] together.
//!
//! Every executable function carries a contract stated over sequences and
//! integers and is proved against it. The decoders take any bytes and any
//! pool, and report what is wrong as a value; no function panics on an
//! input that its contract admits. The few calls into other crates stand in
//! small functions whose contracts are taken on trust, each marked as such
//! where it is defined.

pub mod attribute;
pub mod buffer;
pub mod class;
pub mod class_field;
pub mod class_method;
pub mod class_parser;
pub mod constant_pool;
pub mod descriptor;
pub mod error;
pub mod exception_table;
pub mod flags;
pub mod instruction;
pub mod line_number_table;
pub mod log;
pub mod pc;
pub mod text;
pub mod types;
pub mod version;

pub use crate::class_parser::read_buffer;
