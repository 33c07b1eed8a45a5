//! Incremental ledger synchronisation: determine the last recorded day of an
//! append-only price ledger, compute the fetch window for the market-data
//! provider, parse the provider's delta rows into records, and decide how they
//! are appended.

pub mod date;
pub mod errors;
pub mod parser;
pub mod record;
pub mod sync;
pub mod text;
pub mod window;

pub use date::Date;
pub use errors::MyErrors;
pub use record::Record;
pub use record::RecordView;
pub use sync::AppendOutcome;
pub use sync::FetchOutcome;
pub use sync::LedgerTail;
pub use sync::SyncAction;
pub use window::SyncWindow;
