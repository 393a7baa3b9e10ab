use vstd::prelude::*;

verus! {

/// Settings the service starts with.
pub struct AppConfig {
    pub database_url: String,
    pub presenter_password_hash: String,
    pub rocket_port: u16,
}

/// The port in effect for an optional configured port.
pub open spec fn port_or_default(p: Option<u16>) -> u16 {
    match p {
        Some(p) => p,
        None => 8000,
    }
}

/// The port served on when none is configured.
pub fn default_rocket_port() -> (r: u16)
    ensures
        r == 8000,
{
    8000
}

impl AppConfig {
    /// Assembles the configuration from the values found in the environment or
    /// configuration files: the database URL and the password hash are
    /// required, the port falls back to its default.
    pub fn load(database_url: String, presenter_password_hash: String, rocket_port: Option<u16>) -> (r:
        AppConfig)
        ensures
            r.database_url == database_url,
            r.presenter_password_hash == presenter_password_hash,
            r.rocket_port == port_or_default(rocket_port),
    {
        let rocket_port = match rocket_port {
            Some(p) => p,
            None => default_rocket_port(),
        };
        AppConfig { database_url, presenter_password_hash, rocket_port }
    }
}

} // verus!
