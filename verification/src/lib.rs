//! Verified core of an interactive data table: per-column filters, client-side
//! search, stable column sorting, pagination and the state changes the table's
//! controls trigger.
pub mod text;
pub mod filter;
pub mod rows;
pub mod sort;
pub mod paging;
pub mod state;
pub mod view;
