use vstd::prelude::*;

use crate::map::ConfigMap;
use crate::services::ServiceScheme;

verus! {

/// Represents an FTP server config. All fields are required.
#[derive(Debug, PartialEq, Eq, Hash)]
pub struct FtpConfig {
    /// The IP address of the server. Example: `192.168.1.149:21`
    pub endpoint: String,
    /// The starting path to treat as `root` (`/`). No data will
    /// be visible outside of this directory, similar to an OpenSSH jail.
    pub root: String,
    /// The username to the FTP server.
    pub username: String,
    /// The password to the FTP server.
    pub password: String,
}

/// The storage-layer options of an FTP config: each field under its option
/// name (the user name goes under `user`).
pub open spec fn ftp_options(c: FtpConfig) -> Map<Seq<char>, Seq<char>> {
    Map::empty()
        .insert("endpoint"@, c.endpoint@)
        .insert("root"@, c.root@)
        .insert("user"@, c.username@)
        .insert("password"@, c.password@)
}

impl FtpConfig {
    /// The options that configure an FTP service.
    pub fn to_map(self) -> (m: ConfigMap)
        ensures
            m.as_map() == ftp_options(self),
    {
        let mut map = ConfigMap::new();
        map.insert(String::from_str("endpoint"), self.endpoint);
        map.insert(String::from_str("root"), self.root);
        map.insert(String::from_str("user"), self.username);
        map.insert(String::from_str("password"), self.password);
        map
    }

    /// The storage service this config is for.
    pub fn scheme(&self) -> (s: ServiceScheme)
        ensures
            s == ServiceScheme::Ftp,
    {
        ServiceScheme::Ftp
    }
}

impl Clone for FtpConfig {
    /// A copy with the same text in every field.
    fn clone(&self) -> (r: Self)
        ensures
            r == *self,
    {
        FtpConfig {
            endpoint: self.endpoint.clone(),
            root: self.root.clone(),
            username: self.username.clone(),
            password: self.password.clone(),
        }
    }
}

} // verus!
