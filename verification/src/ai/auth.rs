//! Resolution of the API key from the environment and the configuration.
use vstd::prelude::*;

verus! {

/// The API key chosen once, at start.
pub struct ChainedAuth {
    api_key: Option<String>,
}

impl ChainedAuth {
    /// The key held.
    pub closed spec fn key(&self) -> Option<Seq<char>> {
        match self.api_key {
            Some(k) => Some(k@),
            None => None,
        }
    }

    /// Chooses a non-empty key from the environment (`OPENAI_API_KEY`)
    /// before a non-empty key from the configuration.
    pub fn new(env_key: Option<String>, config_key: Option<String>) -> (r: Self)
        ensures
            r.key() == match env_key {
                Some(e) if e@.len() > 0 => Some(e@),
                _ => match config_key {
                    Some(c) if c@.len() > 0 => Some(c@),
                    _ => None,
                },
            },
    {
        let from_env = match env_key {
            Some(k) => if k.as_str().is_empty() {
                None
            } else {
                Some(k)
            },
            None => None,
        };
        let api_key = match from_env {
            Some(k) => Some(k),
            None => match config_key {
                Some(c) => if c.as_str().is_empty() {
                    None
                } else {
                    Some(c)
                },
                None => None,
            },
        };
        ChainedAuth { api_key }
    }

    /// The key, when there is one.
    pub fn get_api_key(&self) -> (r: Option<&str>)
        ensures
            match (r, self.key()) {
                (Some(a), Some(b)) => a@ == b,
                (None, None) => true,
                _ => false,
            },
    {
        match &self.api_key {
            Some(k) => Some(k.as_str()),
            None => None,
        }
    }
}

} // verus!
