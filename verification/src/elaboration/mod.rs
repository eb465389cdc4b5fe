//! Elaboration: turns the parsed layer tree into a checked, optimizable
//! program, in five layers — names, types, refinements, solving and
//! optimization — run in order by `pipeline::RunAll`.

pub mod context;
pub mod layer1_semantics;
pub mod layer2_types;
pub mod layer3_refinements;
pub mod layer4_smt;
pub mod layer5_optimize;
pub mod pipeline;
