use vstd::prelude::*;
use vstd::string::StringExecFns;

use crate::uri::{url_parse, Uri};

verus! {

pub fn default_listen_addr() -> (r: String)
    ensures
        r@ == "0.0.0.0:3000"@,
{
    String::from_str("0.0.0.0:3000")
}

pub fn default_database_host() -> (r: String)
    ensures
        r@ == "localhost"@,
{
    String::from_str("localhost")
}

pub fn default_database_port() -> (r: u16)
    ensures
        r == 5432,
{
    5432
}

pub fn default_database_user() -> (r: String)
    ensures
        r@ == "postgres"@,
{
    String::from_str("postgres")
}

pub fn default_database_password() -> (r: String)
    ensures
        r@ == "chamsae"@,
{
    String::from_str("chamsae")
}

pub fn default_database_database() -> (r: String)
    ensures
        r@ == "postgres"@,
{
    String::from_str("postgres")
}

/// The text of a URI on the node's own domain: `https://{domain}{path}`.
pub open spec fn own_uri_text(domain: Seq<char>, path: Seq<char>) -> Seq<char> {
    "https://"@ + domain + path
}

/// Builds `https://{domain}{path}`.
pub fn own_uri_string(domain: &String, path: &str) -> (r: String)
    ensures
        r@ == own_uri_text(domain@, path@),
{
    let mut s = String::from_str("https://");
    s.append(domain.as_str());
    s.append(path);
    s
}

/// The options as read from the environment, before defaults are applied.
pub struct EnvValues {
    pub domain: String,
    pub listen_addr: Option<String>,
    pub database_host: Option<String>,
    pub database_port: Option<u16>,
    pub database_user: Option<String>,
    pub database_password: Option<String>,
    pub database_database: Option<String>,
    pub user_handle: String,
    pub user_password_bcrypt: String,
    pub user_public_key_path: String,
    pub user_private_key_path: String,
}

/// The node's configuration.
pub struct Config {
    pub domain: String,
    pub listen_addr: String,
    pub database_host: String,
    pub database_port: u16,
    pub database_user: String,
    pub database_password: String,
    pub database_database: String,
    /// Handle of the owner of this instance
    pub user_handle: String,
    /// Password bcrypt hash of the owner user of this instance
    pub user_password_bcrypt: String,
    pub user_id: Option<Uri>,
    pub inbox_url: Option<Uri>,
    /// Public key PEM file path for the owner user of this instance
    pub user_public_key_path: String,
    /// Private key PEM file path for the owner user of this instance
    pub user_private_key_path: String,
    pub user_public_key: String,
    pub user_private_key: String,
}

/// Why a configuration could not be completed.
#[derive(Clone, Copy, Debug, PartialEq, Eq, Structural)]
pub enum ConfigError {
    /// `https://{domain}/ap/user` is no URL.
    IdUrl,
    /// `https://{domain}/ap/inbox` is no URL.
    InboxUrl,
}

/// The value of an optional text, or the default where it is absent.
pub open spec fn or_default(v: Option<String>, d: Seq<char>) -> Seq<char> {
    match v {
        Some(s) => s@,
        None => d,
    }
}

fn text_or(v: Option<String>, d: String) -> (r: String)
    ensures
        r@ == or_default(v, d@),
{
    match v {
        Some(s) => s,
        None => d,
    }
}

impl Config {
    /// The owner's id `https://{domain}/ap/user` and inbox
    /// `https://{domain}/ap/inbox`, or which of them is no URL.
    pub fn owner_uris(domain: &String) -> (r: Result<(Uri, Uri), ConfigError>)
        ensures
            r is Ok <==> (url_parse(own_uri_text(domain@, "/ap/user"@)) is Some && url_parse(
                own_uri_text(domain@, "/ap/inbox"@),
            ) is Some),
            r == Err::<(Uri, Uri), ConfigError>(ConfigError::IdUrl) <==> url_parse(
                own_uri_text(domain@, "/ap/user"@),
            ) is None,
            r == Err::<(Uri, Uri), ConfigError>(ConfigError::InboxUrl) <==> (url_parse(
                own_uri_text(domain@, "/ap/user"@),
            ) is Some && url_parse(own_uri_text(domain@, "/ap/inbox"@)) is None),
            r matches Ok((id, inbox)) ==> url_parse(own_uri_text(domain@, "/ap/user"@)) == Some(
                id@,
            ) && url_parse(own_uri_text(domain@, "/ap/inbox"@)) == Some(inbox@),
    {
        let id_text = own_uri_string(domain, "/ap/user");
        let user_id = match Uri::parse(id_text.as_str()) {
            Ok(u) => u,
            Err(_) => return Err(ConfigError::IdUrl),
        };
        let inbox_text = own_uri_string(domain, "/ap/inbox");
        let inbox_url = match Uri::parse(inbox_text.as_str()) {
            Ok(u) => u,
            Err(_) => return Err(ConfigError::InboxUrl),
        };
        Ok((user_id, inbox_url))
    }

    /// Completes the configuration from the environment's values and the two
    /// key files' contents: absent options take their defaults, and the owner's
    /// id and inbox are built on the domain.
    pub fn from_values(env: EnvValues, user_public_key: String, user_private_key: String) -> (r:
        Result<Config, ConfigError>)
        ensures
            r is Ok <==> (url_parse(own_uri_text(env.domain@, "/ap/user"@)) is Some && url_parse(
                own_uri_text(env.domain@, "/ap/inbox"@),
            ) is Some),
            r == Err::<Config, ConfigError>(ConfigError::IdUrl) <==> url_parse(
                own_uri_text(env.domain@, "/ap/user"@),
            ) is None,
            r == Err::<Config, ConfigError>(ConfigError::InboxUrl) <==> (url_parse(
                own_uri_text(env.domain@, "/ap/user"@),
            ) is Some && url_parse(own_uri_text(env.domain@, "/ap/inbox"@)) is None),
            r matches Ok(c) ==> {
                &&& c.domain@ == env.domain@
                &&& c.listen_addr@ == or_default(env.listen_addr, "0.0.0.0:3000"@)
                &&& c.database_host@ == or_default(env.database_host, "localhost"@)
                &&& c.database_port == (match env.database_port {
                    Some(p) => p,
                    None => 5432u16,
                })
                &&& c.database_user@ == or_default(env.database_user, "postgres"@)
                &&& c.database_password@ == or_default(env.database_password, "chamsae"@)
                &&& c.database_database@ == or_default(env.database_database, "postgres"@)
                &&& c.user_handle@ == env.user_handle@
                &&& c.user_password_bcrypt@ == env.user_password_bcrypt@
                &&& c.user_public_key_path@ == env.user_public_key_path@
                &&& c.user_private_key_path@ == env.user_private_key_path@
                &&& c.user_public_key@ == user_public_key@
                &&& c.user_private_key@ == user_private_key@
                &&& c.user_id matches Some(u) && url_parse(own_uri_text(env.domain@, "/ap/user"@))
                    == Some(u@)
                &&& c.inbox_url matches Some(u) && url_parse(
                    own_uri_text(env.domain@, "/ap/inbox"@),
                ) == Some(u@)
            },
    {
        let (user_id, inbox_url) = match Config::owner_uris(&env.domain) {
            Ok(p) => p,
            Err(e) => return Err(e),
        };
        let database_port = match env.database_port {
            Some(p) => p,
            None => default_database_port(),
        };
        Ok(
            Config {
                domain: env.domain,
                listen_addr: text_or(env.listen_addr, default_listen_addr()),
                database_host: text_or(env.database_host, default_database_host()),
                database_port,
                database_user: text_or(env.database_user, default_database_user()),
                database_password: text_or(env.database_password, default_database_password()),
                database_database: text_or(env.database_database, default_database_database()),
                user_handle: env.user_handle,
                user_password_bcrypt: env.user_password_bcrypt,
                user_id: Some(user_id),
                inbox_url: Some(inbox_url),
                user_public_key_path: env.user_public_key_path,
                user_private_key_path: env.user_private_key_path,
                user_public_key,
                user_private_key,
            },
        )
    }
}

} // verus!
