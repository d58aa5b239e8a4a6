//! Plain-value settings for the application and its database connection,
//! and the running environment the configuration files are chosen by.
use vstd::prelude::*;

verus! {

/// Where the HTTP server binds.
pub struct ApplicationSettings {
    pub port: u16,
    pub host: String,
}

/// Connection parameters for the subscription store.
pub struct DatabaseSettings {
    pub database_name: String,
    pub host: String,
    pub username: String,
    pub password: String,
    pub port: u16,
    pub require_ssl: bool,
}

/// Everything loaded once at process start.
pub struct Settings {
    pub application: ApplicationSettings,
    pub database: DatabaseSettings,
}

/// Transport-layer security demanded of the store connection.
#[derive(Clone, Copy, Debug, PartialEq, Eq, Structural)]
pub enum SslMode {
    Require,
    Prefer,
}

impl DatabaseSettings {
    /// TLS is required exactly when the settings ask for it; otherwise it is
    /// attempted but not demanded.
    pub fn ssl_mode(&self) -> (m: SslMode)
        ensures
            m == (if self.require_ssl { SslMode::Require } else { SslMode::Prefer }),
    {
        if self.require_ssl {
            SslMode::Require
        } else {
            SslMode::Prefer
        }
    }
}

/// The running environment, selecting which configuration file is read.
#[derive(Clone, Copy, Debug, PartialEq, Eq, Structural)]
pub enum Environment {
    Local,
    Production,
}

impl Environment {
    /// The canonical name of the environment.
    pub fn as_str(&self) -> (s: &str)
        ensures
            s@ == (match *self {
                Environment::Local => "local"@,
                Environment::Production => "production"@,
            }),
    {
        match *self {
            Environment::Local => "local",
            Environment::Production => "production",
        }
    }

    /// The name of the configuration file this environment is read from.
    pub fn config_file_name(&self) -> (s: String)
        ensures
            s@ == (match *self {
                Environment::Local => "local.yml"@,
                Environment::Production => "production.yml"@,
            }),
    {
        match *self {
            Environment::Local => "local.yml".to_owned(),
            Environment::Production => "production.yml".to_owned(),
        }
    }

    /// The environment named `s`, if any.
    pub fn from_name(s: &str) -> (r: Option<Environment>)
        ensures
            r == (if s@ == "local"@ {
                Some(Environment::Local)
            } else if s@ == "production"@ {
                Some(Environment::Production)
            } else {
                None::<Environment>
            }),
    {
        let owned = s.to_owned();
        if owned == "local".to_owned() {
            Some(Environment::Local)
        } else if owned == "production".to_owned() {
            Some(Environment::Production)
        } else {
            None
        }
    }
}

} // verus!
