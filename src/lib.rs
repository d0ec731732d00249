//! Fine-grained shared state.
//!
//! A [`Link`] is a reactive cell: a value and a registry of subscribers, each with a
//! reference count and a callback. A [`Shared`] handle on a cell carries a capability
//! ([`Access`]): a read-write handle is subscribed and notified of every tracked write, a
//! write handle is not. A record is a row of cells; an action says, field by field, what a
//! view of the record needs, and the capability lattice decides how actions combine and
//! when one view may stand in for another.
pub mod flag;
mod fxmap;
pub mod shared;
pub mod action;
pub mod record;
pub mod arcmap;
pub mod assoc_type;

pub use flag::{Access, RW, W};
pub use record::RecordView;
pub use shared::{Link, Shared};
