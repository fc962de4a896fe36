//! Orderable test cases and their steps: keys that keep a list in an order
//! that can be changed at will, the validation of steps against a catalog
//! of actions and assertions, the tree of the steps of a test case with the
//! shared steps that it refers to, and the store that keeps shared steps
//! and references consistent; with what the service around them needs of
//! users, reviews, notifications and lists.
pub mod auth;
pub mod catalog;
pub mod composer;
pub mod config;
pub mod definitions;
pub mod desktop;
pub mod filters;
pub mod ids;
pub mod notifications;
pub mod order;
pub mod paging;
pub mod params;
pub mod permissions;
pub mod prepare;
pub mod proxy;
pub mod rank;
pub mod record;
pub mod reviews;
pub mod step;
pub mod store;
pub mod summaries;
pub mod test_cases;
pub mod test_suites;
pub mod text;
pub mod time;
pub mod user_service;
pub mod users;
pub mod version;
pub mod websocket;
pub mod validator;
