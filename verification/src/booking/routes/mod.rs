//! What each route does.

pub mod booking;
pub mod health;
pub mod webhooks;
