//! Core of a newsletter service: validated subscriber data, credential
//! checks, confirmation tokens, and the decisions of the subscribe, confirm
//! and publish workflows.
//!
//! The workflows work on plain values. Storage, HTTP and mail transport are
//! performed by the caller, which hands their outcomes back to the
//! transition functions of each workflow. [`storage`] holds the relational
//! state that those transitions are meant for, with its constraints, and the
//! laws that tie the workflows to it.

pub mod domain;
pub mod authentication;
pub mod decimal;
pub mod email_client;
pub mod routes;
pub mod secret;
pub mod startup;
pub mod storage;
