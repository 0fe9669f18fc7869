//! Lifecycle and consistency rules for short-lived identity credentials:
//! device-authorization codes, magic links, an event router with live
//! subscribers and leader-gated maintenance, over a state backend held in
//! memory.
pub mod error;
pub mod text;
pub mod sys;
pub mod usage;
pub mod event;
pub mod device;
pub mod device_entity;
pub mod magic_link;
pub mod store;
pub mod router;
pub mod scheduler;
pub mod decision;
pub mod legacy;
pub mod font;
pub mod util;
pub mod volume;
pub mod i18n;
