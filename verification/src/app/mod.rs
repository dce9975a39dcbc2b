//! The application: start-up settings and the steps of the event loop.
pub mod config;
pub mod event_loop;
