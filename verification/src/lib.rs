use vstd::prelude::*;

pub mod text;
pub mod shell;
pub mod glob;
pub mod harness;
pub mod order;
pub mod turn;
pub mod executor;
pub mod budget;
pub mod lines;
pub mod json;
pub mod events;
pub mod coerce;
pub mod invocations;
pub mod status;
pub mod tools;
pub mod access;
pub mod governance;
pub mod host_policy;
pub mod selection;
pub mod edits;
pub mod sse;
pub mod prompt;
pub mod errors;
pub mod engine;
pub mod gov;
pub mod fixture;
pub mod native;
pub mod durable;
pub mod files;
pub mod laws;
pub mod projection;
pub mod exec;
pub mod owned;
pub mod policy_json;
pub mod commit;
pub mod builtins;
pub mod grep;
pub mod todos;
pub mod cases;
pub mod statechart;
pub mod expr;
pub mod interp;

verus! {

/// The implementation stage the scaffold crates report.
pub const IMPLEMENTATION_STAGE: &'static str = "stage-0-skeleton";

/// The stage of the source parser scaffold.
pub fn parser_stage() -> (stage: &'static str)
    ensures
        stage@ == IMPLEMENTATION_STAGE@,
{
    IMPLEMENTATION_STAGE
}

/// The stage of the durable store scaffold.
pub fn store_stage() -> (stage: &'static str)
    ensures
        stage@ == IMPLEMENTATION_STAGE@,
{
    IMPLEMENTATION_STAGE
}

/// The stage of the runtime kernel scaffold, which is the store's.
pub fn kernel_stage() -> (stage: &'static str)
    ensures
        stage@ == IMPLEMENTATION_STAGE@,
{
    store_stage()
}

} // verus!
