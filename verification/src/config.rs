//! Settings from the environment, with their defaults.
//!
//! Reading the environment is the caller's work; the library takes what was
//! found there and decides what the settings are.
use vstd::prelude::*;
use vstd::string::*;

use crate::decimal::{parse_i64, parse_u64, parsed_i64, parsed_u64};
use crate::errors::AppError;
use crate::models::AppConfig;

verus! {

pub const DEFAULT_NASA_URL: &'static str =
    "https://visualization.osdr.nasa.gov/biodata/api/v2/datasets/?format=json";

pub const DEFAULT_ISS_URL: &'static str = "https://api.wheretheiss.at/v1/satellites/25544";

pub const DEFAULT_REDIS_URL: &'static str = "redis://127.0.0.1:6379";

pub const DEFAULT_EVERY_OSDR: u64 = 600;

pub const DEFAULT_EVERY_ISS: u64 = 120;

pub const DEFAULT_EVERY_APOD: u64 = 43200;

pub const DEFAULT_EVERY_NEO: u64 = 7200;

pub const DEFAULT_EVERY_DONKI: u64 = 3600;

pub const DEFAULT_EVERY_SPACEX: u64 = 3600;

pub const DEFAULT_LIST_LIMIT: i64 = 20;

/// What the environment holds under each name the service reads; `None`
/// where a variable is not set.
#[derive(Clone, Debug)]
pub struct Environment {
    pub nasa_api_url: Option<String>,
    pub nasa_api_key: Option<String>,
    pub where_iss_url: Option<String>,
    pub redis_url: Option<String>,
    pub fetch_every_seconds: Option<String>,
    pub iss_every_seconds: Option<String>,
    pub apod_every_seconds: Option<String>,
    pub neo_every_seconds: Option<String>,
    pub donki_every_seconds: Option<String>,
    pub spacex_every_seconds: Option<String>,
}

/// A text setting: what is set, else the default.
pub open spec fn text_or(value: Option<String>, default: Seq<char>) -> Seq<char> {
    match value {
        Some(s) => s@,
        None => default,
    }
}

/// A number setting: what is set where it reads as a number, else the
/// default.
pub open spec fn number_or(value: Option<String>, default: u64) -> u64 {
    match value {
        Some(s) => match parsed_u64(s@) {
            Some(n) => n,
            None => default,
        },
        None => default,
    }
}

/// The settings that an environment gives.
pub open spec fn is_config_of(c: AppConfig, env: Environment) -> bool {
    &&& c.nasa_url@ == text_or(env.nasa_api_url, DEFAULT_NASA_URL@)
    &&& c.nasa_key@ == text_or(env.nasa_api_key, ""@)
    &&& c.fallback_iss_url@ == text_or(env.where_iss_url, DEFAULT_ISS_URL@)
    &&& c.redis_url@ == text_or(env.redis_url, DEFAULT_REDIS_URL@)
    &&& c.every_osdr == number_or(env.fetch_every_seconds, DEFAULT_EVERY_OSDR)
    &&& c.every_iss == number_or(env.iss_every_seconds, DEFAULT_EVERY_ISS)
    &&& c.every_apod == number_or(env.apod_every_seconds, DEFAULT_EVERY_APOD)
    &&& c.every_neo == number_or(env.neo_every_seconds, DEFAULT_EVERY_NEO)
    &&& c.every_donki == number_or(env.donki_every_seconds, DEFAULT_EVERY_DONKI)
    &&& c.every_spacex == number_or(env.spacex_every_seconds, DEFAULT_EVERY_SPACEX)
}

/// A number setting: what is set where it reads as a number, else the
/// default.
pub fn env_u64(value: &Option<String>, default: u64) -> (r: u64)
    ensures
        r == number_or(*value, default),
{
    match value {
        Some(s) => match parse_u64(s.as_str()) {
            Some(n) => n,
            None => default,
        },
        None => default,
    }
}

/// A text setting: what is set, else the default.
pub fn env_text(value: &Option<String>, default: &str) -> (r: String)
    ensures
        r@ == text_or(*value, default@),
{
    match value {
        Some(s) => s.clone(),
        None => String::from_str(default),
    }
}

/// A setting that must be there, such as the address of the database.
/// `name` is the variable's name, for the complaint.
pub fn required(value: &Option<String>, name: &str) -> (r: Result<String, AppError>)
    ensures
        match *value {
            Some(s) => r matches Ok(t) && t@ == s@,
            None => r matches Err(AppError::ConfigError(m)) && m@ == name@ + " is required"@,
        },
{
    match value {
        Some(s) => Ok(s.clone()),
        None => {
            let mut m = String::from_str(name);
            m.append(" is required");
            Err(AppError::ConfigError(m))
        },
    }
}

/// The settings that an environment gives. Every setting has a default, so
/// there are always settings: a text that is not set, and a number that is
/// not set or does not read as one, is replaced by its default.
pub fn load_config(env: &Environment) -> (r: Result<AppConfig, AppError>)
    ensures
        r matches Ok(c) && is_config_of(c, *env),
{
    Ok(
        AppConfig {
            nasa_url: env_text(&env.nasa_api_url, DEFAULT_NASA_URL),
            nasa_key: env_text(&env.nasa_api_key, ""),
            fallback_iss_url: env_text(&env.where_iss_url, DEFAULT_ISS_URL),
            redis_url: env_text(&env.redis_url, DEFAULT_REDIS_URL),
            every_osdr: env_u64(&env.fetch_every_seconds, DEFAULT_EVERY_OSDR),
            every_iss: env_u64(&env.iss_every_seconds, DEFAULT_EVERY_ISS),
            every_apod: env_u64(&env.apod_every_seconds, DEFAULT_EVERY_APOD),
            every_neo: env_u64(&env.neo_every_seconds, DEFAULT_EVERY_NEO),
            every_donki: env_u64(&env.donki_every_seconds, DEFAULT_EVERY_DONKI),
            every_spacex: env_u64(&env.spacex_every_seconds, DEFAULT_EVERY_SPACEX),
        },
    )
}

/// The limit of a catalog listing: what is set where it reads as a number,
/// else the default.
pub fn osdr_list_limit(value: &Option<String>) -> (r: i64)
    ensures
        r == match *value {
            Some(s) => match parsed_i64(s@) {
                Some(n) => n,
                None => DEFAULT_LIST_LIMIT,
            },
            None => DEFAULT_LIST_LIMIT,
        },
{
    match value {
        Some(s) => match parse_i64(s.as_str()) {
            Some(n) => n,
            None => DEFAULT_LIST_LIMIT,
        },
        None => DEFAULT_LIST_LIMIT,
    }
}

} // verus!
