use vstd::prelude::*;

use crate::map::ConfigMap;
use crate::services::ServiceScheme;

verus! {

/// Represents a OneDrive config. All fields are required.
#[derive(Debug, PartialEq, Eq, Hash)]
pub struct OneDriveConfig {
    /// The starting path to treat as `root` (`/`). No data will
    /// be visible outside of this directory, similar to an OpenSSH jail.
    pub root: String,
    /// The OAuth2 Refresh Token for the API.
    pub refresh_token: String,
    /// The OAuth2 Client ID for the API.
    pub client_id: String,
    /// The OAuth2 Client Secret for the API.
    pub client_secret: String,
}

/// The storage-layer options of a OneDrive config: each field under its
/// option name.
pub open spec fn onedrive_options(c: OneDriveConfig) -> Map<Seq<char>, Seq<char>> {
    Map::empty()
        .insert("refresh_token"@, c.refresh_token@)
        .insert("client_id"@, c.client_id@)
        .insert("client_secret"@, c.client_secret@)
        .insert("root"@, c.root@)
}

impl OneDriveConfig {
    /// The options that configure a OneDrive service.
    pub fn to_map(self) -> (m: ConfigMap)
        ensures
            m.as_map() == onedrive_options(self),
    {
        let mut map = ConfigMap::new();
        map.insert(String::from_str("refresh_token"), self.refresh_token);
        map.insert(String::from_str("client_id"), self.client_id);
        map.insert(String::from_str("client_secret"), self.client_secret);
        map.insert(String::from_str("root"), self.root);
        map
    }

    /// The storage service this config is for.
    pub fn scheme(&self) -> (s: ServiceScheme)
        ensures
            s == ServiceScheme::Onedrive,
    {
        ServiceScheme::Onedrive
    }
}

impl Clone for OneDriveConfig {
    /// A copy with the same text in every field.
    fn clone(&self) -> (r: Self)
        ensures
            r == *self,
    {
        OneDriveConfig {
            root: self.root.clone(),
            refresh_token: self.refresh_token.clone(),
            client_id: self.client_id.clone(),
            client_secret: self.client_secret.clone(),
        }
    }
}

} // verus!
