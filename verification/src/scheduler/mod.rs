//! Rescheduling: due-date specifiers, the per-card recomputation and the
//! operations that apply it to a collection.

pub mod answering;
pub mod due_dates;
pub mod ease_cache;
pub mod reviews;
