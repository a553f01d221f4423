use vstd::prelude::*;

verus! {

/// Settings read once at startup and passed to every part that needs them.
pub struct AppConfiguration {
    pub token: String,
    pub cookies: String,
    pub form_payload: Vec<(String, String)>,
    pub blacklist: Vec<String>,
    pub postgres_login: String,
}

/// Key under which the shared configuration is stored in the host's context.
pub struct ConfigKey;

} // verus!
