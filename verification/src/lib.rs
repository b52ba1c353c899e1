//! Core pieces of a retained-mode UI framework: pixel units and layout constrains, widget
//! lists with deferred edit requests, keyboard state, command handles and metadata, property
//! override rules, shaped text line and segment queries, timers, UI tasks, config status
//! tracking, the image cache, localization state, and app bookkeeping (extensions, shutdown,
//! view-process ids, app instance names and per-app values).
pub mod units;
pub mod ui_list;
pub mod window;
pub mod command;
pub mod event;
pub mod keyboard;
pub mod property;
pub mod shaping;
pub mod timer;
pub mod task;
pub mod config;
pub mod image;
pub mod l10n;
pub mod app;
pub mod app_scope;
