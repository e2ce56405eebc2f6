//! Application configuration: the WebDAV distribution channel the updater
//! talks to, and the rule for choosing between an environment-supplied and
//! a file-supplied configuration.
//!
//! Reading environment variables and the configuration file is the
//! caller's business; the choice between the two sources is decided here.

use vstd::prelude::*;
use vstd::string::StringExecFns;

verus! {

/// Where the distribution channel lives and how to authenticate to it.
#[derive(Clone, Debug)]
pub struct WebDAVConfig {
    pub url: String,
    pub username: String,
    pub password: String,
    pub remote_path: String,
    pub base_url: String,
}

/// The whole persisted application configuration.
#[derive(Clone, Debug)]
pub struct AppConfig {
    pub webdav: WebDAVConfig,
}

impl Default for WebDAVConfig {
    /// The placeholder configuration written on first use.
    fn default() -> (c: Self)
        ensures
            c.url@ == "https://your-server.com/webdav"@,
            c.username@ == "your-username"@,
            c.password@ == "your-password"@,
            c.remote_path@ == "/releases"@,
            c.base_url@ == "https://your-server.com/releases"@,
    {
        WebDAVConfig {
            url: String::from_str("https://your-server.com/webdav"),
            username: String::from_str("your-username"),
            password: String::from_str("your-password"),
            remote_path: String::from_str("/releases"),
            base_url: String::from_str("https://your-server.com/releases"),
        }
    }
}

impl Default for AppConfig {
    fn default() -> (c: Self)
        ensures
            c.webdav.url@ == "https://your-server.com/webdav"@,
            c.webdav.username@ == "your-username"@,
            c.webdav.password@ == "your-password"@,
            c.webdav.remote_path@ == "/releases"@,
            c.webdav.base_url@ == "https://your-server.com/releases"@,
    {
        AppConfig { webdav: WebDAVConfig::default() }
    }
}

/// The effective WebDAV configuration: the environment wins over the
/// configuration file whenever it supplied one.
pub fn get_webdav_config(env_config: Option<WebDAVConfig>, file_config: AppConfig) -> (c:
    WebDAVConfig)
    ensures
        match env_config {
            Some(e) => c == e,
            None => c == file_config.webdav,
        },
{
    match env_config {
        Some(e) => e,
        None => file_config.webdav,
    }
}

} // verus!
