//! Configuration of the rate limiter and the root context that holds it.

use crate::http::RateLimitingHttp;
use crate::usage::Limits;
use crate::window::PerWindow;
use vstd::prelude::*;
use vstd::string::StringExecFns;

verus! {

/// Limit of a window that the configuration does not mention.
pub fn default_negative_1() -> (limit: i32)
    ensures
        limit == -1,
{
    -1
}

pub fn default_empty() -> (text: String)
    ensures
        text@ == ""@,
{
    String::from_str("")
}

/// Identities are taken from the source address unless configured
/// otherwise.
pub fn default_limit_by() -> (text: String)
    ensures
        text@ == "ip"@,
{
    String::from_str("ip")
}

pub fn default_policy() -> (text: String)
    ensures
        text@ == "local"@,
{
    String::from_str("local")
}

pub fn default_true() -> (flag: bool)
    ensures
        flag,
{
    true
}

pub fn default_false() -> (flag: bool)
    ensures
        !flag,
{
    false
}

/// Status of the response to a blocked request.
pub fn default_429() -> (status: u32)
    ensures
        status == 429,
{
    429
}

/// Body of the response to a blocked request.
pub fn default_msg() -> (text: String)
    ensures
        text@ == "Rust informs: API rate limit exceeded!"@,
{
    String::from_str("Rust informs: API rate limit exceeded!")
}

/// The settings of one rate limiter.
#[derive(Debug)]
pub struct Config {
    pub second: i32,
    pub minute: i32,
    pub hour: i32,
    pub day: i32,
    pub month: i32,
    pub year: i32,
    /// How a request is identified: `header`, `path`, or anything else
    /// for the source address.
    pub limit_by: String,
    pub header_name: String,
    pub path: String,
    pub policy: String,
    /// Whether a failing counter store lets requests through.
    pub fault_tolerant: bool,
    pub hide_client_headers: bool,
    pub error_code: u32,
    pub error_message: String,
}

impl Config {
    /// The limits of the six windows.
    pub open spec fn spec_limits(&self) -> Limits {
        PerWindow {
            second: self.second,
            minute: self.minute,
            hour: self.hour,
            day: self.day,
            month: self.month,
            year: self.year,
        }
    }

    /// Only the local policy, which counts in the host's own store, is
    /// supported.
    pub open spec fn spec_supported(&self) -> bool {
        self.policy@ == "local"@
    }

    pub fn limits(&self) -> (limits: Limits)
        ensures
            limits == self.spec_limits(),
    {
        PerWindow {
            second: self.second,
            minute: self.minute,
            hour: self.hour,
            day: self.day,
            month: self.month,
            year: self.year,
        }
    }

    pub fn supported(&self) -> (ok: bool)
        ensures
            ok == self.spec_supported(),
    {
        let local = String::from_str("local");
        self.policy == local
    }
}

impl Default for Config {
    fn default() -> (config: Config)
        ensures
            config.second == -1,
            config.minute == -1,
            config.hour == -1,
            config.day == -1,
            config.month == -1,
            config.year == -1,
            config.limit_by@ == "ip"@,
            config.header_name@ == ""@,
            config.path@ == ""@,
            config.policy@ == "local"@,
            config.fault_tolerant,
            !config.hide_client_headers,
            config.error_code == 429,
            config.error_message@ == "Rust informs: API rate limit exceeded!"@,
    {
        Config {
            second: default_negative_1(),
            minute: default_negative_1(),
            hour: default_negative_1(),
            day: default_negative_1(),
            month: default_negative_1(),
            year: default_negative_1(),
            limit_by: default_limit_by(),
            header_name: default_empty(),
            path: default_empty(),
            policy: default_policy(),
            fault_tolerant: default_true(),
            hide_client_headers: default_false(),
            error_code: default_429(),
            error_message: default_msg(),
        }
    }
}

impl Clone for Config {
    fn clone(&self) -> (copy: Config)
        ensures
            copy == *self,
    {
        Config {
            second: self.second,
            minute: self.minute,
            hour: self.hour,
            day: self.day,
            month: self.month,
            year: self.year,
            limit_by: self.limit_by.clone(),
            header_name: self.header_name.clone(),
            path: self.path.clone(),
            policy: self.policy.clone(),
            fault_tolerant: self.fault_tolerant,
            hide_client_headers: self.hide_client_headers,
            error_code: self.error_code,
            error_message: self.error_message.clone(),
        }
    }
}

/// The root context: it takes in the configuration once and makes the
/// context of each request from it.
#[derive(Debug)]
pub struct RateLimitingRoot {
    pub config: Option<Config>,
}

impl RateLimitingRoot {
    /// A root context that is not configured yet.
    pub fn new() -> (root: RateLimitingRoot)
        ensures
            root.config is None,
    {
        RateLimitingRoot { config: None }
    }

    /// Takes in the configuration as it was loaded, `None` where none
    /// was found or it could not be read. It is accepted, and kept,
    /// exactly when it is there and its policy is supported; otherwise
    /// the root context stays as it was.
    pub fn on_configure(&mut self, loaded: Option<Config>) -> (accepted: bool)
        ensures
            accepted == (loaded matches Some(config) && config.spec_supported()),
            final(self).config == if accepted {
                loaded
            } else {
                old(self).config
            },
    {
        match loaded {
            Some(config) => {
                if !config.supported() {
                    return false;
                }
                self.config = Some(config);
                true
            },
            None => false,
        }
    }

    /// The context for one request, with the limits of the six windows
    /// taken from the configuration. None before a configuration was
    /// accepted.
    pub fn create_http_context(&self, context_id: u32) -> (context: Option<RateLimitingHttp>)
        ensures
            context is Some <==> self.config is Some,
            context matches Some(http) ==> {
                &&& http.context_id == context_id
                &&& Some(http.config) == self.config
                &&& http.limits == http.config.spec_limits()
                &&& http.headers is None
            },
    {
        match &self.config {
            Some(config) => {
                let limits = config.limits();
                Some(
                    RateLimitingHttp {
                        context_id,
                        config: config.clone(),
                        limits,
                        headers: None,
                    },
                )
            },
            None => None,
        }
    }
}

} // verus!
