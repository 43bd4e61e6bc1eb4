//! A weekly order table: one row per named item with a quantity for each day
//! of the week, persisted as comma-separated text and shown as HTML fragments.

pub mod order;
pub mod repo;
pub mod decimal;
pub mod store;
pub mod render;
pub mod handlers;
