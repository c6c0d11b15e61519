use vstd::prelude::*;
use vstd::string::*;

verus! {

/// Resolved addressing and authentication data for one target node,
/// immutable once resolved for a polling session.
#[derive(Debug, Clone)]
pub struct ConnectionParameters {
    pub host: String,
    pub port: u16,
    pub user: String,
    pub identity_file: String,
}

impl ConnectionParameters {
    /// A target is pollable only when its host and identity file are known
    /// and non-empty.
    pub open spec fn well_formed(self) -> bool {
        self.host@.len() > 0 && self.identity_file@.len() > 0
    }
}

/// A configuration error that makes a target unpollable; detected once per
/// target, before polling begins for that target.
#[derive(Clone, Copy, Debug, PartialEq, Eq, Structural)]
pub enum ConfigError {
    MissingHost,
    MissingIdentityFile,
}

/// Resolves the raw host-configuration fields of a target into connection
/// parameters: the port defaults to 22, the user to "root", and the first
/// configured identity file is used. A missing or empty host name or
/// identity file is a configuration error, never a runtime one.
pub fn resolve(
    host_name: Option<String>,
    port: Option<u16>,
    user: Option<String>,
    identity_files: Option<Vec<String>>,
) -> (r: Result<ConnectionParameters, ConfigError>)
    ensures
        match r {
            Ok(p) => {
                &&& host_name matches Some(h) && p.host == h && h@.len() > 0
                &&& match port {
                    Some(pt) => p.port == pt,
                    None => p.port == 22,
                }
                &&& match user {
                    Some(u) => p.user == u,
                    None => p.user@ == "root"@,
                }
                &&& identity_files matches Some(fs) && fs@.len() > 0 && p.identity_file == fs@[0]
                    && fs@[0]@.len() > 0
                &&& p.well_formed()
            },
            Err(e) => match e {
                ConfigError::MissingHost => match host_name {
                    None => true,
                    Some(h) => h@.len() == 0,
                },
                ConfigError::MissingIdentityFile => {
                    &&& host_name matches Some(h) && h@.len() > 0
                    &&& match identity_files {
                        None => true,
                        Some(fs) => fs@.len() == 0 || fs@[0]@.len() == 0,
                    }
                },
            },
        },
{
    let host = match host_name {
        None => {
            return Err(ConfigError::MissingHost);
        },
        Some(h) => h,
    };
    if host.unicode_len() == 0 {
        return Err(ConfigError::MissingHost);
    }
    let files = match identity_files {
        None => {
            return Err(ConfigError::MissingIdentityFile);
        },
        Some(fs) => fs,
    };
    if files.len() == 0 {
        return Err(ConfigError::MissingIdentityFile);
    }
    let identity_file = files[0].clone();
    if identity_file.unicode_len() == 0 {
        return Err(ConfigError::MissingIdentityFile);
    }
    let user = match user {
        None => String::from_str("root"),
        Some(u) => u,
    };
    let port = match port {
        None => 22,
        Some(p) => p,
    };
    Ok(ConnectionParameters { host, port, user, identity_file })
}

} // verus!
