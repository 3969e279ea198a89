//! Configuration resolution: explicit values take precedence over values
//! read from the process environment, and empty values are rejected.

use vstd::prelude::*;

verus! {

pub const NOTION_API_TOKEN: &'static str = "NOTION_API_TOKEN";

pub const NOTION_SOURCE_DATABASE_ID: &'static str = "NOTION_SOURCE_DATABASE_ID";

pub const NOTION_FEED_DATABASE_ID: &'static str = "NOTION_FEED_DATABASE_ID";

/// The settings the sync needs to reach the remote store.
#[derive(Debug)]
pub struct Config {
    pub notion_api_token: String,
    pub notion_source_database_id: String,
    pub notion_feed_database_id: String,
}

/// The value a setting resolves to: the explicit value when one is given
/// and non-empty, else the environment's value when non-empty, else nothing.
pub open spec fn spec_config_value(
    explicit: Option<String>,
    env_value: Option<String>,
) -> Option<String> {
    match explicit {
        Some(v) => if v@.len() > 0 {
            Some(v)
        } else {
            None
        },
        None => match env_value {
            Some(v) => if v@.len() > 0 {
                Some(v)
            } else {
                None
            },
            None => None,
        },
    }
}

/// Resolves one setting; the error names the environment variable.
pub fn get_config_value(explicit: Option<String>, env_name: &str, env_value: Option<String>) -> (r:
    Result<String, String>)
    ensures
        match r {
            Ok(v) => spec_config_value(explicit, env_value) == Some(v),
            Err(m) => spec_config_value(explicit, env_value) is None && m@
                == "invalid config variable: "@ + env_name@,
        },
{
    let err: String = String::from_str("invalid config variable: ").concat(env_name);
    match explicit {
        Some(v) => {
            if v.as_str().unicode_len() > 0 {
                Ok(v)
            } else {
                Err(err)
            }
        },
        None => match env_value {
            Some(v) => {
                if v.as_str().unicode_len() > 0 {
                    Ok(v)
                } else {
                    Err(err)
                }
            },
            None => Err(err),
        },
    }
}

impl Config {
    /// Resolves the whole configuration. Explicit values come first, the
    /// environment's values (handed in by the caller) second; the first
    /// setting that resolves to nothing decides the error.
    pub fn new(
        notion_api_token: Option<String>,
        notion_source_database_id: Option<String>,
        notion_feed_database_id: Option<String>,
        env_api_token: Option<String>,
        env_source_database_id: Option<String>,
        env_feed_database_id: Option<String>,
    ) -> (r: Result<Config, String>)
        ensures
            r is Ok <==> {
                &&& spec_config_value(notion_api_token, env_api_token) is Some
                &&& spec_config_value(notion_source_database_id, env_source_database_id) is Some
                &&& spec_config_value(notion_feed_database_id, env_feed_database_id) is Some
            },
            r matches Ok(c) ==> {
                &&& spec_config_value(notion_api_token, env_api_token) == Some(c.notion_api_token)
                &&& spec_config_value(notion_source_database_id, env_source_database_id) == Some(
                    c.notion_source_database_id,
                )
                &&& spec_config_value(notion_feed_database_id, env_feed_database_id) == Some(
                    c.notion_feed_database_id,
                )
            },
            r matches Err(m) ==> if spec_config_value(notion_api_token, env_api_token) is None {
                m@ == "invalid config variable: "@ + NOTION_API_TOKEN@
            } else if spec_config_value(notion_source_database_id, env_source_database_id)
                is None {
                m@ == "invalid config variable: "@ + NOTION_SOURCE_DATABASE_ID@
            } else {
                m@ == "invalid config variable: "@ + NOTION_FEED_DATABASE_ID@
            },
    {
        let notion_api_token = match get_config_value(
            notion_api_token,
            NOTION_API_TOKEN,
            env_api_token,
        ) {
            Ok(v) => v,
            Err(m) => {
                return Err(m);
            },
        };
        let notion_source_database_id = match get_config_value(
            notion_source_database_id,
            NOTION_SOURCE_DATABASE_ID,
            env_source_database_id,
        ) {
            Ok(v) => v,
            Err(m) => {
                return Err(m);
            },
        };
        let notion_feed_database_id = match get_config_value(
            notion_feed_database_id,
            NOTION_FEED_DATABASE_ID,
            env_feed_database_id,
        ) {
            Ok(v) => v,
            Err(m) => {
                return Err(m);
            },
        };
        Ok(Config { notion_api_token, notion_source_database_id, notion_feed_database_id })
    }
}

} // verus!
