//! Protocol logic for driving a G-code printer over a line-oriented serial link.
pub mod controller;
pub mod decimal;
pub mod engine;
pub mod health;
pub mod models;
pub mod presend;
pub mod queue;
pub mod response;
pub mod text;
