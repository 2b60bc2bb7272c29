//! Persistence core for a bounded "plot" of simulated world state: the
//! in-memory snapshot of one plot, its fixed on-disk binary layout with a
//! magic-header compatibility gate, and the procedurally generated default
//! template used when no saved plot exists.

pub mod codec;
pub mod snapshot;
pub mod tick;
