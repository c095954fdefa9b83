//! Configuration: the CloudFlare credentials and the permanent user list,
//! resolved from the config file and the environment.

use vstd::prelude::*;
use crate::error::Error;

verus! {

/// Environment variable name for the CloudFlare account ID.
pub const ENV_CF_ACCOUNT_ID: &'static str = "CF_ACCOUNT_ID";

/// Environment variable name for the CloudFlare API token.
pub const ENV_CF_API_TOKEN: &'static str = "CF_API_TOKEN";

#[derive(Debug)]
pub struct Config {
    pub cloudflare: CloudFlareConfig,
    pub users: UsersConfig,
}

/// Raw config as read from the TOML file (credentials are optional).
#[derive(Debug)]
pub struct RawConfig {
    pub cloudflare: RawCloudFlareConfig,
    pub users: UsersConfig,
}

/// Credentials as written in the config file, each of them optional.
#[derive(Debug)]
pub struct RawCloudFlareConfig {
    pub account_id: Option<String>,
    pub api_token: Option<String>,
}

#[derive(Debug)]
pub struct CloudFlareConfig {
    pub account_id: String,
    pub api_token: String,
}

#[derive(Debug, Clone)]
pub struct UsersConfig {
    pub permanent: Vec<String>,
}

impl RawCloudFlareConfig {
    /// A config file section without credentials.
    pub fn empty() -> (r: Self)
        ensures
            r.account_id is None,
            r.api_token is None,
    {
        RawCloudFlareConfig { account_id: None, api_token: None }
    }
}

impl UsersConfig {
    /// The users section of a missing config file: no permanent users.
    pub fn empty() -> (r: Self)
        ensures
            r.permanent@.len() == 0,
    {
        UsersConfig { permanent: Vec::new() }
    }
}

/// A credential taken from the environment if set there, else from the
/// config file.
pub open spec fn preferred(env: Option<String>, file: Option<String>) -> Option<String> {
    match env {
        Some(v) => Some(v),
        None => file,
    }
}

/// The credentials resolved from the file and the environment, or the error
/// naming the first one (account id before API token) set in neither.
pub open spec fn resolved_credentials(
    raw: RawCloudFlareConfig,
    env_account_id: Option<String>,
    env_api_token: Option<String>,
) -> Result<(String, String), Seq<char>> {
    match (preferred(env_account_id, raw.account_id), preferred(env_api_token, raw.api_token)) {
        (Some(a), Some(t)) => Ok((a, t)),
        (None, _) => Err("account_id"@),
        (Some(_), None) => Err("api_token"@),
    }
}

/// The error a resolution gives, as the library's error.
pub open spec fn credentials_error_matches(r: Result<CloudFlareConfig, Error>, expected: Result<(String, String), Seq<char>>) -> bool {
    match expected {
        Ok((a, t)) => r == Ok::<CloudFlareConfig, Error>(CloudFlareConfig { account_id: a, api_token: t }),
        Err(name) => r matches Err(Error::MissingCredential(n)) && n@ == name,
    }
}

impl Config {
    /// Whether each credential is given both in the file and in the
    /// environment (account id, API token); the environment wins, and the
    /// clash deserves a warning.
    pub fn credential_clashes(
        raw: &RawCloudFlareConfig,
        env_account_id: &Option<String>,
        env_api_token: &Option<String>,
    ) -> (r: (bool, bool))
        ensures
            r.0 == (raw.account_id is Some && env_account_id is Some),
            r.1 == (raw.api_token is Some && env_api_token is Some),
    {
        (raw.account_id.is_some() && env_account_id.is_some(), raw.api_token.is_some() && env_api_token.is_some())
    }

    /// Resolves the CloudFlare credentials from the config file and the
    /// environment variables; the environment takes priority.
    pub fn resolve_cloudflare_config(
        raw: RawCloudFlareConfig,
        env_account_id: Option<String>,
        env_api_token: Option<String>,
    ) -> (r: Result<CloudFlareConfig, Error>)
        ensures
            credentials_error_matches(r, resolved_credentials(raw, env_account_id, env_api_token)),
    {
        let account_id = match env_account_id {
            Some(v) => v,
            None => match raw.account_id {
                Some(v) => v,
                None => {
                    proof {
                        reveal_strlit("account_id");
                    }
                    return Err(Error::MissingCredential(String::from_str("account_id")));
                },
            },
        };
        let api_token = match env_api_token {
            Some(v) => v,
            None => match raw.api_token {
                Some(v) => v,
                None => {
                    proof {
                        reveal_strlit("api_token");
                    }
                    return Err(Error::MissingCredential(String::from_str("api_token")));
                },
            },
        };
        Ok(CloudFlareConfig { account_id, api_token })
    }

    /// Assembles the configuration from what the config file held (`None`
    /// when there is no file) and the credential environment variables.
    /// Without a file the credentials come from the environment alone and
    /// the permanent user list is empty.
    pub fn from_sources(
        file: Option<RawConfig>,
        env_account_id: Option<String>,
        env_api_token: Option<String>,
    ) -> (r: Result<Self, Error>)
        ensures
            ({
                let raw = match file {
                    Some(f) => f.cloudflare,
                    None => RawCloudFlareConfig { account_id: None, api_token: None },
                };
                let expected = resolved_credentials(raw, env_account_id, env_api_token);
                &&& expected is Err ==> credentials_error_matches(
                    match r {
                        Ok(c) => Ok::<CloudFlareConfig, Error>(c.cloudflare),
                        Err(e) => Err::<CloudFlareConfig, Error>(e),
                    },
                    expected,
                )
                &&& expected matches Ok((a, t)) ==> (r matches Ok(c) && c.cloudflare.account_id == a
                    && c.cloudflare.api_token == t && match file {
                        Some(f) => c.users == f.users,
                        None => c.users.permanent@.len() == 0,
                    })
            }),
    {
        match file {
            None => {
                let cloudflare = match Self::resolve_cloudflare_config(
                    RawCloudFlareConfig::empty(),
                    env_account_id,
                    env_api_token,
                ) {
                    Ok(c) => c,
                    Err(e) => return Err(e),
                };
                Ok(Config { cloudflare, users: UsersConfig::empty() })
            },
            Some(raw) => {
                let cloudflare = match Self::resolve_cloudflare_config(raw.cloudflare, env_account_id, env_api_token) {
                    Ok(c) => c,
                    Err(e) => return Err(e),
                };
                Ok(Config { cloudflare, users: raw.users })
            },
        }
    }
}

/// Environment variables take precedence over config file values: a
/// credential set in the environment is the one used, whatever the file
/// says; one set in the file alone is used as written; resolution fails
/// only for a credential set in neither place.
pub proof fn lemma_environment_takes_precedence(
    raw: RawCloudFlareConfig,
    env_account_id: Option<String>,
    env_api_token: Option<String>,
)
    ensures
        ({
            let r = resolved_credentials(raw, env_account_id, env_api_token);
            &&& (env_account_id matches Some(a) ==> (r is Ok ==> r->Ok_0.0 == a))
            &&& (env_api_token matches Some(t) ==> (r is Ok ==> r->Ok_0.1 == t))
            &&& (env_account_id is None ==> (raw.account_id matches Some(a) ==> (r is Ok ==> r->Ok_0.0 == a)))
            &&& (env_api_token is None ==> (raw.api_token matches Some(t) ==> (r is Ok ==> r->Ok_0.1 == t)))
            &&& (r is Err <==> ((env_account_id is None && raw.account_id is None) || (env_api_token is None
                && raw.api_token is None)))
        }),
{
}

} // verus!
