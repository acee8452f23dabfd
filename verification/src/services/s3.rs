use vstd::prelude::*;

use crate::map::ConfigMap;
use crate::services::ServiceScheme;

verus! {

/// Represents an Amazon S3 server config. All fields are required.
#[derive(Debug, PartialEq, Eq, Hash)]
pub struct S3Config {
    /// The starting path to treat as `root` (`/`). No data will
    /// be visible outside of this directory, similar to an OpenSSH jail.
    pub root: String,
    /// The bucket to use for the server.
    pub bucket: String,
    /// The endpoint to use for the server.
    pub endpoint: String,
    /// The region to use for the server.
    pub region: String,
    /// The access key ID for the server.
    pub access_key_id: String,
    /// The access key for the server.
    pub secret_access_key: String,
}

/// The storage-layer options of an S3 config: each field under its option
/// name.
pub open spec fn s3_options(c: S3Config) -> Map<Seq<char>, Seq<char>> {
    Map::empty()
        .insert("root"@, c.root@)
        .insert("bucket"@, c.bucket@)
        .insert("endpoint"@, c.endpoint@)
        .insert("region"@, c.region@)
        .insert("access_key_id"@, c.access_key_id@)
        .insert("secret_access_key"@, c.secret_access_key@)
}

impl S3Config {
    /// The options that configure an S3 service.
    pub fn to_map(self) -> (m: ConfigMap)
        ensures
            m.as_map() == s3_options(self),
    {
        let mut map = ConfigMap::new();
        map.insert(String::from_str("root"), self.root);
        map.insert(String::from_str("bucket"), self.bucket);
        map.insert(String::from_str("endpoint"), self.endpoint);
        map.insert(String::from_str("region"), self.region);
        map.insert(String::from_str("access_key_id"), self.access_key_id);
        map.insert(String::from_str("secret_access_key"), self.secret_access_key);
        map
    }

    /// The storage service this config is for.
    pub fn scheme(&self) -> (s: ServiceScheme)
        ensures
            s == ServiceScheme::S3,
    {
        ServiceScheme::S3
    }
}

impl Clone for S3Config {
    /// A copy with the same text in every field.
    fn clone(&self) -> (r: Self)
        ensures
            r == *self,
    {
        S3Config {
            root: self.root.clone(),
            bucket: self.bucket.clone(),
            endpoint: self.endpoint.clone(),
            region: self.region.clone(),
            access_key_id: self.access_key_id.clone(),
            secret_access_key: self.secret_access_key.clone(),
        }
    }
}

} // verus!
