//! A content-addressed ledger of short posts with a deterministic
//! moderation rule.
//!
//! Participants publish posts under their own identity.  Every record is
//! stored under an address derived from its content, authored posts are
//! linked from a per-agent anchor record, and over-long posts are
//! quarantined and counted against their author.  An author with more than
//! three quarantined posts is banned for good.
//!
//! Every decision in this crate is a function of the data handed to it, so
//! that all participants who validate the same data reach the same verdict.

pub mod address;
pub mod laws;
pub mod ledger;
pub mod links;
pub mod lists;
pub mod moderation;
pub mod store;
pub mod types;
pub mod validation;
pub mod workflow;

pub use address::{address_of, anchor_of, Address};
pub use ledger::Ledger;
pub use links::{Link, LinkIndex, LinkMatch, LinkType};
pub use moderation::{banned, banned_in_index, count_violations, ChainRecord};
pub use store::EntryStore;
pub use types::{Agent, AgentAddress, Entry, InvalidPost, LedgerError, Operation, Post};
pub use validation::{
    init, needs_history, too_long, validate_agent, validate_entry, validate_entry_by_history,
    validate_invalid_post, validate_link, validate_post, validate_post_by_history,
};
pub use workflow::{
    create_post, delete_post, get_agent_id, hello_holo, linked_post, next_step, retrieve_posts,
    update_post, Reply, Step,
};
