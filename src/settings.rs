//! The persisted configuration of a provider.

use vstd::prelude::*;
use crate::manager::{ProviderConfig, DEFAULT_PRIORITY};

verus! {

/// The persisted settings of one provider: whether it is enabled, its
/// priority, and its credentials.
#[derive(Debug, Clone)]
pub struct ScraperConfig {
    pub enabled: bool,
    pub priority: u32,
    pub api_key: Option<String>,
    pub client_id: Option<String>,
    pub client_secret: Option<String>,
    pub username: Option<String>,
    pub password: Option<String>,
}

/// The priority of a provider that has no persisted priority.
pub fn default_priority() -> (r: u32)
    ensures
        r == DEFAULT_PRIORITY,
{
    DEFAULT_PRIORITY
}

impl ScraperConfig {
    /// Settings for a provider configured for the first time: enabled, with
    /// the default priority and no credentials.
    pub fn new() -> (r: Self)
        ensures
            r.enabled,
            r.priority == DEFAULT_PRIORITY,
            r.api_key is None && r.client_id is None && r.client_secret is None,
            r.username is None && r.password is None,
    {
        ScraperConfig {
            enabled: true,
            priority: default_priority(),
            api_key: None,
            client_id: None,
            client_secret: None,
            username: None,
            password: None,
        }
    }

    /// The in-memory configuration that these settings give.
    pub fn provider_config(&self) -> (r: ProviderConfig)
        ensures
            r.enabled == self.enabled,
            r.priority == self.priority,
    {
        ProviderConfig { enabled: self.enabled, priority: self.priority }
    }
}

/// The persisted settings after `set_enabled`: created where missing, with the
/// flag set.
pub fn saved_with_enabled(saved: Option<ScraperConfig>, enabled: bool) -> (r: ScraperConfig)
    ensures
        r.enabled == enabled,
        r.priority == match saved {
            Some(c) => c.priority,
            None => DEFAULT_PRIORITY,
        },
{
    let mut c = match saved {
        Some(c) => c,
        None => ScraperConfig::new(),
    };
    c.enabled = enabled;
    c
}

/// The persisted settings after `set_priority`: created where missing, with the
/// priority set.
pub fn saved_with_priority(saved: Option<ScraperConfig>, priority: u32) -> (r: ScraperConfig)
    ensures
        r.priority == priority,
        r.enabled == match saved {
            Some(c) => c.enabled,
            None => true,
        },
{
    let mut c = match saved {
        Some(c) => c,
        None => ScraperConfig::new(),
    };
    c.priority = priority;
    c
}

} // verus!
