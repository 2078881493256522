//! Service configuration and the request / response models of the
//! database-instance API.
use vstd::prelude::*;

verus! {

use vstd::string::StringExecFns;
use vstd::string::StrSliceExecFns;
use crate::text::{all_digits, dec_value, parse_usize};

/// Static service configuration, read once at process start.
pub struct Config {
    pub ingress_domain: String,
    pub resource_ttl: usize,
    pub api_key: String,
}

/// Why a configuration could not be built.
#[derive(PartialEq, Eq, Structural, Debug)]
pub enum ConfigError {
    /// The API key is absent or empty; this is a fatal startup condition.
    MissingApiKey,
    /// The resource TTL is not a decimal number that fits the platform.
    InvalidTtl,
}

/// A request to provision one database instance.
pub struct CreateDatabaseRequestModel {
    /// Caller-supplied instance identifier.
    pub name: String,
    /// Requested size in gigabytes; always clamped to `[1, 5]`, never rejected.
    pub size: usize,
}

/// One database instance as reported to callers.
pub struct DatabaseInstanceModel {
    pub planetscale_api_url: String,
    pub database_username: String,
    pub database_password: String,
    pub database_name: String,
}

/// The abstract contents of a `DatabaseInstanceModel`.
pub ghost struct DatabaseInstanceView {
    pub planetscale_api_url: Seq<char>,
    pub database_username: Seq<char>,
    pub database_password: Seq<char>,
    pub database_name: Seq<char>,
}

impl View for DatabaseInstanceModel {
    type V = DatabaseInstanceView;

    open spec fn view(&self) -> DatabaseInstanceView {
        DatabaseInstanceView {
            planetscale_api_url: self.planetscale_api_url@,
            database_username: self.database_username@,
            database_password: self.database_password@,
            database_name: self.database_name@,
        }
    }
}

/// The ingress domain used when none is configured.
pub open spec fn default_domain() -> Seq<char> {
    "example.com"@
}

/// The resource TTL in seconds used when none is configured.
pub open spec fn default_ttl() -> int {
    3600
}

/// Build the service configuration from the raw setting values.
///
/// An absent or empty API key is rejected; the ingress domain falls back to
/// a default; an absent TTL falls back to a default and a present one must
/// be a decimal number of seconds.
pub fn build_config(api_key: Option<&str>, ingress_domain: Option<&str>, resource_ttl: Option<
    &str,
>) -> (r: Result<Config, ConfigError>)
    ensures
        match r {
            Ok(c) => {
                &&& api_key matches Some(k) && k@ == c.api_key@ && k@.len() > 0
                &&& c.ingress_domain@ == match ingress_domain {
                    Some(d) => d@,
                    None => default_domain(),
                }
                &&& match resource_ttl {
                    Some(t) => all_digits(t@) && c.resource_ttl as int == dec_value(t@),
                    None => c.resource_ttl as int == default_ttl(),
                }
            },
            Err(ConfigError::MissingApiKey) => api_key is None || (api_key matches Some(k)
                && k@.len() == 0),
            Err(ConfigError::InvalidTtl) => (api_key matches Some(k) && k@.len() > 0) && (
            resource_ttl matches Some(t) && (!all_digits(t@) || dec_value(t@)
                > usize::MAX as int)),
        },
{
    let key = match api_key {
        None => {
            return Err(ConfigError::MissingApiKey);
        },
        Some(k) => k,
    };
    if key.unicode_len() == 0 {
        return Err(ConfigError::MissingApiKey);
    }
    let ttl: usize = match resource_ttl {
        None => 3600,
        Some(t) => match parse_usize(t) {
            Some(v) => v,
            None => {
                return Err(ConfigError::InvalidTtl);
            },
        },
    };
    let domain: String = match ingress_domain {
        Some(d) => d.to_owned(),
        None => "example.com".to_owned(),
    };
    Ok(Config { ingress_domain: domain, resource_ttl: ttl, api_key: key.to_owned() })
}

/// Clamp a requested storage size (in gigabytes) into the allowed range.
///
/// Requested sizes are never rejected: anything below the minimum becomes
/// the minimum, anything above the maximum becomes the maximum.
pub fn clamp_size(size: usize) -> (r: usize)
    ensures
        r == clamped_size(size as int),
{
    if size < 1 {
        1
    } else if size > 5 {
        5
    } else {
        size
    }
}

/// The allowed storage size for a requested size: clamped into `[1, 5]`.
pub open spec fn clamped_size(size: int) -> int {
    if size < 1 {
        1
    } else if size > 5 {
        5
    } else {
        size
    }
}

/// The username every instance is provisioned with.
pub open spec fn root_username() -> Seq<char> {
    "root"@
}

/// The URL reported by a create call for a given instance name and domain.
pub open spec fn create_url(name: Seq<char>, domain: Seq<char>) -> Seq<char> {
    "https://moonscale-instance-"@ + name + "."@ + domain
}

/// The response a successful create call reports.
///
/// It is assembled from the request and the drawn password alone, not from
/// verified cluster state: a create reports success once rendering and
/// discovery succeeded, even if individual documents failed to apply.
pub fn create_response(name: &str, password: &str, domain: &str) -> (r: DatabaseInstanceModel)
    ensures
        r@.planetscale_api_url == create_url(name@, domain@),
        r@.database_username == root_username(),
        r@.database_password == password@,
        r@.database_name == name@,
{
    let mut url: String = "https://moonscale-instance-".to_owned();
    url.append(name);
    url.append(".");
    url.append(domain);
    proof {
        assert(url@ =~= create_url(name@, domain@));
    }
    DatabaseInstanceModel {
        planetscale_api_url: url,
        database_username: "root".to_owned(),
        database_password: password.to_owned(),
        database_name: name.to_owned(),
    }
}

} // verus!
