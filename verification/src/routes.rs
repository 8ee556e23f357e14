//! The decisions of the three workflows: subscribe, confirm, publish.

pub mod newsletter;
pub mod subscriptions;
pub mod subscriptions_confirm;
