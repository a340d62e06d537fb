//! The runtime core of a small shell-oriented scripting language: its
//! values, compiled chunks, integer arithmetic with promotion to integers
//! of any size, IP objects, a stack machine and its generators.
//!
//! - `bignum`: integers of any size, computed by num-bigint.
//! - `text`, `hex`: decimal and hexadecimal text of integers.
//! - `value`: the value model, its view, truthiness, deep copies, sets and
//!   hashes.
//! - `ip`: IPv4 and IPv6 networks and ranges, their text and parsing.
//! - `vm`: the value stack and its operations.
//! - `arith`: the promotion ladder for arithmetic and comparison.
//! - `chunk`, `opcode`: compiled code, its constants and source points.
//! - `command`: line splitting of a running command's output.
//! - `exec`: running code and advancing generators.

pub mod bignum;
pub mod text;
pub mod hex;
pub mod value;
pub mod ip;
pub mod vm;
pub mod arith;
pub mod chunk;
pub mod opcode;
pub mod command;
pub mod exec;
