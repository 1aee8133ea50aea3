//! Routing of fatal-error reports to a caller-supplied text sink, with a
//! single process-wide registration slot and no heap-allocated dispatch.
mod fault;
mod handler;
mod sink;
mod slot;

pub use fault::{
    decimal, digit_char, handle_fault, location_text, report_text, write_decimal, write_report,
    FaultInfo, Halted, Location,
};
pub use handler::{
    lemma_pass_through, lemma_round_trip, lemma_single_active, lemma_stale_clear_keeps_later,
    PanicHandler,
};
pub use sink::{lemma_wrote_stop, lemma_wrote_then, wrote, BufferSink, Sink, WriteError};
pub use slot::{lemma_after_clear, lemma_after_install, lemma_empty_slot_dispatches_nowhere, HookSlot};
