//! Read-only process-wide configuration, established at startup and
//! never mutated.
use vstd::prelude::*;

verus! {

/// The environment-level settings the boundary hands in: optional
/// CAPTCHA keys and the optional base URL of the external media
/// service. An empty string means the feature is switched off.
#[derive(Debug)]
pub struct Config {
    pub hcaptcha_site_key: String,
    pub hcaptcha_secret: String,
    pub pictrs_url: String,
}

} // verus!
