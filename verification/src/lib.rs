//! Synchronization and triage engine for a personal remote media-tracking
//! list: cache staleness policy, paginated full-list retrieval, set-based
//! reconciliation between the fresh list and past decisions, and the
//! interactive per-item triage state machine.

pub mod codec;
pub mod error;
pub mod item;
pub mod json;
pub mod manga;
pub mod options;
pub mod reconcile;
pub mod store;
pub mod triage;

pub use crate::item::HandledHow;
pub use crate::item::HandledItem;
pub use crate::item::Item;
pub use crate::item::ItemMediaType;
pub use crate::item::ItemV;
pub use crate::item::ListType;
pub use crate::item::Sort;
pub use crate::error::Error;
pub use crate::options::InputOptions;
pub use crate::options::Options;
pub use crate::manga::fetch_all;
pub use crate::manga::parse_page;
pub use crate::manga::Manga;
pub use crate::manga::MangaType;
pub use crate::manga::StrNum;
pub use crate::codec::read_handled_items;
pub use crate::codec::write_handled_items;
pub use crate::reconcile::reconcile;
pub use crate::triage::Command;
pub use crate::triage::Notice;
pub use crate::triage::StepResult;
pub use crate::triage::TriageState;
pub use crate::triage::TriageV;
pub use crate::triage::classify;
pub use crate::triage::triage_auto;
pub use crate::triage::triage_run;
pub use crate::triage::triage_step;
pub use crate::store::Cache;
pub use crate::store::CacheV;
pub use crate::store::Config;
pub use crate::store::Timestamp;
pub use crate::store::MAX_CACHE_AGE;
pub use crate::store::should_fetch;
