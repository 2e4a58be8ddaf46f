//! Application settings: database connection and service metadata.

use vstd::prelude::*;

verus! {

/// Where the database is and how to log in.
pub struct Database {
    pub enabled: bool,
    pub url: String,
    pub username: String,
    pub password: String,
    pub port: u16,
}

/// Static service metadata, embedded into every log record.
#[derive(Clone, Debug)]
pub struct LoggingMeta {
    pub build_time: String,
    pub name: String,
    pub version: String,
}

/// All settings of the service.
pub struct Settings {
    pub database: Database,
    pub log_file: Option<String>,
    pub service: LoggingMeta,
}

impl LoggingMeta {
    /// A field-by-field copy.
    pub fn duplicate(&self) -> (r: LoggingMeta)
        ensures
            r == *self,
    {
        LoggingMeta {
            build_time: self.build_time.clone(),
            name: self.name.clone(),
            version: self.version.clone(),
        }
    }
}

} // verus!
