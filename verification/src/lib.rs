//! Trust-state evaluation and PKI environment management for end-to-end
//! identity in group conversations.
//!
//! The library decides, for the credentials of a conversation's members,
//! whether the conversation is verified, and it keeps the trust anchor, the
//! intermediate authorities and the revocation lists that the decision is
//! made against.
//!
//! * [`central`] owns the state: the store of durable entities and the
//!   validation context that is rebuilt from it after every registration.
//! * [`init_certificates`] registers trust anchors, intermediate certificates
//!   and revocation lists, and dumps the environment.
//! * [`conversation_state`] computes the verdict on a conversation, on a
//!   group that is about to be joined, or member by member.
//! * [`keystore`] and [`pki_env`] are the store and the validation context.
//! * [`x509`] decodes and encodes certificates and revocation lists.
//! * [`config`] and [`buffer_messages`] hold the conversation settings and
//!   the replay order of messages that arrived too early.
//!
//! Cryptographic validation is not done here. What a certificate validator
//! found out about a candidate or about a member's certificate comes in as
//! an argument, and so does the time. Every function is a function of its
//! arguments, and its contract says which.

pub mod error;
pub mod conversation_state;
pub mod x509;
pub mod keystore;
pub mod pki_env;
pub mod central;
pub mod init_certificates;
pub mod config;
pub mod restore;
pub mod buffer_messages;
