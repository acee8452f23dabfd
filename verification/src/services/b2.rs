use vstd::prelude::*;

use crate::map::ConfigMap;
use crate::services::ServiceScheme;

verus! {

/// Represents a BackBlaze B2 config. All fields are required.
#[derive(Debug, PartialEq, Eq, Hash)]
pub struct B2Config {
    /// The starting path to treat as `root` (`/`). No data will
    /// be visible outside of this directory, similar to an OpenSSH jail.
    pub root: String,
    /// The Application Key for the BackBlaze API.
    pub application_key: String,
    /// The Application Key (ID) for the BackBlaze API.
    pub application_key_id: String,
    /// The Bucket *Name* for the BackBlaze API.
    pub bucket: String,
    /// The Bucket *ID* for the BackBlaze API.
    pub bucket_id: String,
}

/// The storage-layer options of a B2 config: each field under its option name.
pub open spec fn b2_options(c: B2Config) -> Map<Seq<char>, Seq<char>> {
    Map::empty()
        .insert("root"@, c.root@)
        .insert("application_key"@, c.application_key@)
        .insert("application_key_id"@, c.application_key_id@)
        .insert("bucket"@, c.bucket@)
        .insert("bucket_id"@, c.bucket_id@)
}

impl B2Config {
    /// The options that configure a B2 service.
    pub fn to_map(self) -> (m: ConfigMap)
        ensures
            m.as_map() == b2_options(self),
    {
        let mut map = ConfigMap::new();
        map.insert(String::from_str("root"), self.root);
        map.insert(String::from_str("application_key"), self.application_key);
        map.insert(String::from_str("application_key_id"), self.application_key_id);
        map.insert(String::from_str("bucket"), self.bucket);
        map.insert(String::from_str("bucket_id"), self.bucket_id);
        map
    }

    /// The storage service this config is for.
    pub fn scheme(&self) -> (s: ServiceScheme)
        ensures
            s == ServiceScheme::B2,
    {
        ServiceScheme::B2
    }
}

impl Clone for B2Config {
    /// A copy with the same text in every field.
    fn clone(&self) -> (r: Self)
        ensures
            r == *self,
    {
        B2Config {
            root: self.root.clone(),
            application_key: self.application_key.clone(),
            application_key_id: self.application_key_id.clone(),
            bucket: self.bucket.clone(),
            bucket_id: self.bucket_id.clone(),
        }
    }
}

} // verus!
