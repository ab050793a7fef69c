//! Request/response messaging over a publish/subscribe broker: envelope
//! codec, path matching, route tables, call correlation and topic dispatch,
//! and the notification rules of the service built on them.

pub mod call;
pub mod config;
pub mod correlation;
pub mod dispatch;
pub mod envelope;
pub mod http;
pub mod json;
pub mod listeners;
pub mod matcher;
pub mod notification;
pub mod params;
pub mod router;
pub mod schedule;
pub mod status;
pub mod text;
pub mod user;
