//! Connection settings for the relational store.

use vstd::prelude::*;

use crate::numfmt::{dec_rep, u64_to_string};

verus! {

/// Where and as whom to connect.
pub struct DatabaseConfig {
    /// Host name or address of the server.
    pub host: String,
    /// TCP port of the server.
    pub port: u16,
    /// Name of the database to open.
    pub database: String,
    /// Role to authenticate as.
    pub username: String,
    /// Password for the role.
    pub password: String,
}

/// The connection string `connection_string` builds from a configuration.
pub open spec fn connection_string_spec(c: DatabaseConfig) -> Seq<char> {
    "postgres://"@ + c.username@ + ":"@ + c.password@ + "@"@ + c.host@ + ":"@ + dec_rep(
        c.port as nat,
    ) + "/"@ + c.database@
}

impl DatabaseConfig {
    /// The URL-shaped connection string for these settings.
    pub fn connection_string(&self) -> (r: String)
        ensures
            r@ == connection_string_spec(*self),
    {
        proof {
            reveal_strlit("postgres://");
            reveal_strlit(":");
            reveal_strlit("@");
            reveal_strlit("/");
        }
        let mut r = String::from_str("postgres://");
        r.append(self.username.as_str());
        r.append(":");
        r.append(self.password.as_str());
        r.append("@");
        r.append(self.host.as_str());
        r.append(":");
        let port = u64_to_string(self.port as u64);
        r.append(port.as_str());
        r.append("/");
        r.append(self.database.as_str());
        r
    }
}

} // verus!
