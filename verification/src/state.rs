//! The mutable state of the running bot.
use crate::config::Config;
use std::sync::Arc;
use vstd::prelude::*;

verus! {

/// A second handle on the shared configuration, made by `Arc::clone`,
/// which std documents as a new pointer to the same allocation: the
/// handle therefore holds the very same configuration value.
#[verifier::external_body]
fn share_config(config: &Arc<Config>) -> (r: Arc<Config>)
    ensures
        *r == **config,
{
    Arc::clone(config)
}

/// Holds state of the dice bot, for anything requiring mutable
/// transitions.
pub struct DiceBotState {
    logged_skipped_old_messages: bool,
    config: Arc<Config>,
}

impl DiceBotState {
    /// Create initial dice bot state.
    pub fn new(config: &Arc<Config>) -> (r: DiceBotState)
        ensures
            !r.logged(),
            r.config() == **config,
    {
        DiceBotState { logged_skipped_old_messages: false, config: share_config(config) }
    }

    /// The configuration this state was created with.
    pub closed spec fn config(&self) -> Config {
        *self.config
    }

    /// Whether skipped old messages have been recorded.
    pub closed spec fn logged(&self) -> bool {
        self.logged_skipped_old_messages
    }

    /// Whether skipped old messages have been recorded.
    pub fn logged_skipped_old_messages(&self) -> (r: bool)
        ensures
            r == self.logged(),
    {
        self.logged_skipped_old_messages
    }

    /// Record that we have skipped some old messages. Whether this is the
    /// first time is reported, so that it is logged once, and then no-op
    /// from that point on.
    pub fn skipped_old_messages(&mut self) -> (first: bool)
        ensures
            final(self).logged(),
            first == !old(self).logged(),
    {
        let first = !self.logged_skipped_old_messages;
        self.logged_skipped_old_messages = true;
        first
    }
}

}
