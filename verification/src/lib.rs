//! Settings logic of the mochiOS settings application: configuration files,
//! autosave decisions, account service replies, application metadata and dates.
pub mod accounts;
pub mod applications;
pub mod autosave;
pub mod config_write;
pub mod datetime;
pub mod grants;
pub mod pages;
pub mod preferences;
pub mod sections;
pub mod stored;
pub mod text;
pub mod values;
