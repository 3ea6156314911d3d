pub mod text;
pub mod decimal;
pub mod keys;
pub mod clock;
pub mod job;
pub mod codec;
pub mod store;
pub mod config;
pub mod service;
pub mod worker;
pub mod dequeue;
pub mod api;
pub mod model;
