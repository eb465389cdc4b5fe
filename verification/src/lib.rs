#![allow(non_snake_case)]
#![allow(non_camel_case_types)]

pub mod text;
pub mod names;
pub mod order;
pub mod ast;
pub mod lexer;
pub mod render;
pub mod parser;
pub mod elaboration;
pub mod command_parser;

use vstd::prelude::*;
verus! {
} // verus!
