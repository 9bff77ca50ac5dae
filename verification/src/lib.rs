//! Air-raid alarm tracking for a fixed set of regions: what an upstream reply
//! means, which alerts count, which status each region gets, and what a
//! stored status answers to a query.

pub mod api_actions;
pub mod consistency;
pub mod data_actions;
pub mod fetch_data;
pub mod other_data;
pub mod processing;
