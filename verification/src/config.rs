//! The API's configuration and its defaults. Reading the file is the
//! binary's business; the shape and every default value live here.

use vstd::prelude::*;

use crate::cipher::TokenEncConfig;

verus! {

#[derive(Debug)]
pub struct Config {
    pub server: ServerConfig,
    pub database_url: String,
    /// The role that runs migrations at start-up; runtime queries use
    /// `database_url`, which row-level security applies to.
    pub admin_database_url: String,
    pub eve_sso: EveSsoConfig,
    pub esi: EsiConfig,
    /// Legacy single key (base64, 32 bytes), loaded as key id `v1`.
    pub token_enc_key: Option<String>,
    /// Keys by id and the primary id; wins over `token_enc_key`.
    pub token_enc: Option<TokenEncConfig>,
    pub rate_limit: RateLimitConfig,
    pub limits: AbuseLimits,
    pub turnstile: TurnstileConfig,
}

/// Per-IP token buckets: `burst` requests, refilled one per period.
#[derive(Debug, Clone, Copy)]
pub struct RateLimitConfig {
    pub disabled: bool,
    pub per_ip_burst: u32,
    /// Seconds per refilled token.
    pub per_ip_period_secs: u64,
    /// The stricter bucket of the SSO endpoints.
    pub auth_burst: u32,
    pub auth_period_secs: u64,
}

pub fn default_per_ip_burst() -> (r: u32)
    ensures
        r == 30,
{
    30
}

pub fn default_per_ip_period_secs() -> (r: u64)
    ensures
        r == 1,
{
    1
}

pub fn default_auth_burst() -> (r: u32)
    ensures
        r == 5,
{
    5
}

pub fn default_auth_period_secs() -> (r: u64)
    ensures
        r == 10,
{
    10
}

impl Default for RateLimitConfig {
    fn default() -> (r: Self)
        ensures
            !r.disabled,
            r.per_ip_burst == 30,
            r.per_ip_period_secs == 1,
            r.auth_burst == 5,
            r.auth_period_secs == 10,
    {
        RateLimitConfig {
            disabled: false,
            per_ip_burst: default_per_ip_burst(),
            per_ip_period_secs: default_per_ip_period_secs(),
            auth_burst: default_auth_burst(),
            auth_period_secs: default_auth_period_secs(),
        }
    }
}

/// Size caps per tenant, enforced in the handlers.
#[derive(Debug, Clone, Copy)]
pub struct AbuseLimits {
    pub groups_per_user: i64,
    pub lists_per_group: i64,
    pub items_per_list: i64,
    pub characters_per_user: i64,
}

pub fn default_groups_per_user() -> (r: i64)
    ensures
        r == 10,
{
    10
}

pub fn default_lists_per_group() -> (r: i64)
    ensures
        r == 200,
{
    200
}

pub fn default_items_per_list() -> (r: i64)
    ensures
        r == 500,
{
    500
}

pub fn default_characters_per_user() -> (r: i64)
    ensures
        r == 12,
{
    12
}

impl Default for AbuseLimits {
    fn default() -> (r: Self)
        ensures
            r.groups_per_user == 10,
            r.lists_per_group == 200,
            r.items_per_list == 500,
            r.characters_per_user == 12,
    {
        AbuseLimits {
            groups_per_user: default_groups_per_user(),
            lists_per_group: default_lists_per_group(),
            items_per_list: default_items_per_list(),
            characters_per_user: default_characters_per_user(),
        }
    }
}

/// Cloudflare Turnstile: gates new users unless disabled.
#[derive(Debug, Clone)]
pub struct TurnstileConfig {
    pub disabled: bool,
    pub site_key: String,
    pub secret_key: String,
}

impl Default for TurnstileConfig {
    fn default() -> (r: Self)
        ensures
            !r.disabled,
            r.site_key@ == Seq::<char>::empty(),
            r.secret_key@ == Seq::<char>::empty(),
    {
        TurnstileConfig { disabled: false, site_key: String::new(), secret_key: String::new() }
    }
}

#[derive(Debug)]
pub struct ServerConfig {
    pub bind: String,
    /// The session cookie's `Secure` flag.
    pub cookie_secure: bool,
}

pub fn default_cookie_secure() -> (r: bool)
    ensures
        r,
{
    true
}

#[derive(Debug)]
pub struct EveSsoConfig {
    pub client_id: String,
    pub client_secret: String,
    pub callback_url: String,
    /// Scopes asked for at the first login.
    pub login_scopes: Vec<String>,
    /// Scopes an upgrade may additionally ask for.
    pub upgrade_scopes: Vec<String>,
}

pub fn default_login_scopes() -> (r: Vec<String>)
    ensures
        r@.len() == 1,
        r@[0]@ == "publicData"@,
{
    let mut v: Vec<String> = Vec::new();
    v.push(String::from_str("publicData"));
    v
}

#[derive(Debug)]
pub struct EsiConfig {
    pub user_agent: String,
    pub poll_intervals_secs: PollIntervals,
}

/// The ESI fields the API and the worker share.
#[derive(Debug, Clone)]
pub struct EsiCommonCfg {
    pub user_agent: String,
}

/// Worker polling periods, in seconds.
#[derive(Debug, Clone, Copy)]
pub struct PollIntervals {
    pub market_prices: u64,
    pub contracts: u64,
    pub wallet_transactions: u64,
    pub citadel_discovery: u64,
    pub citadel_details: u64,
    pub citadel_orders: u64,
    pub structure_access_backoff: u64,
}

pub fn default_market_prices_secs() -> (r: u64)
    ensures
        r == 300,
{
    300
}

pub fn default_contracts_secs() -> (r: u64)
    ensures
        r == 300,
{
    300
}

pub fn default_wallet_transactions_secs() -> (r: u64)
    ensures
        r == 3600,
{
    3600
}

pub fn default_citadel_discovery_secs() -> (r: u64)
    ensures
        r == 3600,
{
    3600
}

pub fn default_citadel_details_secs() -> (r: u64)
    ensures
        r == 86400,
{
    86400
}

pub fn default_citadel_orders_secs() -> (r: u64)
    ensures
        r == 600,
{
    600
}

pub fn default_structure_access_backoff_secs() -> (r: u64)
    ensures
        r == 86400,
{
    86400
}

impl Default for PollIntervals {
    fn default() -> (r: Self)
        ensures
            r.market_prices == 300,
            r.contracts == 300,
            r.wallet_transactions == 3600,
            r.citadel_discovery == 3600,
            r.citadel_details == 86400,
            r.citadel_orders == 600,
            r.structure_access_backoff == 86400,
    {
        PollIntervals {
            market_prices: default_market_prices_secs(),
            contracts: default_contracts_secs(),
            wallet_transactions: default_wallet_transactions_secs(),
            citadel_discovery: default_citadel_discovery_secs(),
            citadel_details: default_citadel_details_secs(),
            citadel_orders: default_citadel_orders_secs(),
            structure_access_backoff: default_structure_access_backoff_secs(),
        }
    }
}

} // verus!
