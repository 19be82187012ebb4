//! The service configuration, resolved once at startup from the raw
//! values the process environment supplied.
use crate::numfmt::parse_uint_spec;
use crate::numfmt::parse_u16_chars;
use crate::strutil::chars_of_str;
use vstd::string::StringExecFns;
use vstd::prelude::*;

verus! {

/// The connection string for the document store, assembled from its
/// four parts.
pub fn mongo_uri(username: &str, password: &str, host: &str, port: &str) -> (r: String)
    ensures
        r@ == "mongodb://"@ + username@ + ":"@ + password@ + "@"@ + host@ + ":"@ + port@,
{
    let mut r = String::from_str("mongodb://");
    r.append(username);
    r.append(":");
    r.append(password);
    r.append("@");
    r.append(host);
    r.append(":");
    r.append(port);
    r
}

/// The resolved configuration.
pub struct Env {
    pub port: u16,
    pub host: String,
    pub jwt_secret: String,
    pub cookie_domain: String,
}

/// The port used when none is given or the text does not parse.
pub const DEFAULT_PORT: u16 = 8080;

impl Env {
    /// Resolves the configuration from the raw environment values. The
    /// secret is required: without it there is no configuration, and
    /// the process must fail fast. The port falls back to the default
    /// when absent or unreadable; host and cookie domain have fixed
    /// fallbacks.
    pub fn from_values(
        port: Option<String>,
        host: Option<String>,
        jwt_secret: Option<String>,
        cookie_domain: Option<String>,
    ) -> (r: Option<Env>)
        ensures
            r is Some <==> jwt_secret is Some,
            r matches Some(e) ==> {
                &&& e.jwt_secret@ == jwt_secret->Some_0@
                &&& e.port as nat == match port {
                    Some(p) => match parse_uint_spec(p@, u16::MAX as nat) {
                        Some(v) => v,
                        None => DEFAULT_PORT as nat,
                    },
                    None => DEFAULT_PORT as nat,
                }
                &&& e.host@ == match host {
                    Some(h) => h@,
                    None => "http://localhost/"@,
                }
                &&& e.cookie_domain@ == match cookie_domain {
                    Some(d) => d@,
                    None => "localhost"@,
                }
            },
    {
        let secret = match jwt_secret {
            Some(s) => s,
            None => {
                return None;
            },
        };
        let port_value: u16 = match &port {
            Some(p) => {
                let chars = chars_of_str(p.as_str());
                match parse_u16_chars(&chars) {
                    Some(v) => v,
                    None => DEFAULT_PORT,
                }
            },
            None => DEFAULT_PORT,
        };
        let host_value = match host {
            Some(h) => h,
            None => String::from_str("http://localhost/"),
        };
        let domain_value = match cookie_domain {
            Some(d) => d,
            None => String::from_str("localhost"),
        };
        Some(
            Env {
                port: port_value,
                host: host_value,
                jwt_secret: secret,
                cookie_domain: domain_value,
            },
        )
    }
}

} // verus!
