//! A verified core for an IEEE 2030.5 (Smart Energy Profile 2.0) client.
pub mod poll;
pub mod response;
pub mod security;
pub mod time;
pub mod time_order;
pub mod types;
pub mod cert;
pub mod event;
pub mod schedule;
pub mod test_routes;
