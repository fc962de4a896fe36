//! The settings of a server, with what holds where a setting is not made.
use crate::step::text_view;
use crate::users::or_else;
use vstd::prelude::*;

verus! {

/// The settings of a server.
#[derive(Debug, PartialEq, Eq)]
pub struct Config {
    pub database_url: String,
    pub server_addr: String,
    pub jwt_secret: String,
    pub admin_email: String,
    pub admin_password: String,
    pub admin_name: String,
}

/// The settings as they are made: the address of the store and the secret
/// of the tokens have to be given, the others may be left out.
#[derive(Debug)]
pub struct ConfigValues {
    pub database_url: String,
    pub server_addr: Option<String>,
    pub jwt_secret: String,
    pub admin_email: Option<String>,
    pub admin_password: Option<String>,
    pub admin_name: Option<String>,
}

/// `wanted` where it is present, else `fallback`.
fn text_or(wanted: Option<String>, fallback: &str) -> (text: String)
    ensures
        text@ == or_else(text_view(wanted), fallback@),
{
    match wanted {
        Some(text) => text,
        None => fallback.to_owned(),
    }
}

impl Config {
    /// The settings of a server, with the usual value in the place of each
    /// setting that was left out.
    pub fn from_values(values: ConfigValues) -> (config: Config)
        ensures
            config.database_url@ == values.database_url@,
            config.jwt_secret@ == values.jwt_secret@,
            config.server_addr@ == or_else(text_view(values.server_addr), "0.0.0.0:3000"@),
            config.admin_email@ == or_else(
                text_view(values.admin_email),
                "admin@testspectra.com"@,
            ),
            config.admin_password@ == or_else(text_view(values.admin_password), "Admin123!"@),
            config.admin_name@ == or_else(text_view(values.admin_name), "Admin User"@),
    {
        Config {
            database_url: values.database_url,
            server_addr: text_or(values.server_addr, "0.0.0.0:3000"),
            jwt_secret: values.jwt_secret,
            admin_email: text_or(values.admin_email, "admin@testspectra.com"),
            admin_password: text_or(values.admin_password, "Admin123!"),
            admin_name: text_or(values.admin_name, "Admin User"),
        }
    }
}

} // verus!
