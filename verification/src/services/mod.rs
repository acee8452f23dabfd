//! The remote services a backend can be configured for.
use vstd::prelude::*;

use crate::map::ConfigMap;

pub mod b2;
pub mod ftp;
pub mod onedrive;
pub mod s3;

pub use b2::{b2_options, B2Config};
pub use ftp::{ftp_options, FtpConfig};
pub use onedrive::{onedrive_options, OneDriveConfig};
pub use s3::{s3_options, S3Config};

verus! {

/// The kind of storage service behind a [`RemoteSource`]; each names one
/// service of the storage layer.
#[derive(Clone, Copy, Debug, PartialEq, Eq, Structural, Hash)]
pub enum ServiceScheme {
    /// BackBlaze B2.
    B2,
    /// FTP.
    Ftp,
    /// Microsoft OneDrive.
    Onedrive,
    /// Amazon S3.
    S3,
}

/// Represents a remote source. Its options are fed into the storage layer,
/// and it can be saved with all options.
#[derive(Debug, PartialEq, Eq, Hash)]
#[non_exhaustive]
pub enum RemoteSource {
    /// A BackBlaze B2 store with a [`B2Config`].
    B2(B2Config),
    /// An FTP store with an [`FtpConfig`].
    FTP(FtpConfig),
    /// A OneDrive store with a [`OneDriveConfig`].
    OneDrive(OneDriveConfig),
    /// An Amazon S3 store with a [`S3Config`].
    S3(S3Config),
}

impl Clone for RemoteSource {
    /// A copy holding a copy of the same config.
    fn clone(&self) -> (r: Self)
        ensures
            r == *self,
    {
        match self {
            RemoteSource::B2(x) => RemoteSource::B2(x.clone()),
            RemoteSource::FTP(x) => RemoteSource::FTP(x.clone()),
            RemoteSource::OneDrive(x) => RemoteSource::OneDrive(x.clone()),
            RemoteSource::S3(x) => RemoteSource::S3(x.clone()),
        }
    }
}

/// The options of a source: those of the config it holds.
pub open spec fn source_options(s: RemoteSource) -> Map<Seq<char>, Seq<char>> {
    match s {
        RemoteSource::B2(c) => b2_options(c),
        RemoteSource::FTP(c) => ftp_options(c),
        RemoteSource::OneDrive(c) => onedrive_options(c),
        RemoteSource::S3(c) => s3_options(c),
    }
}

/// The service of a source: the one its variant names.
pub open spec fn source_scheme(s: RemoteSource) -> ServiceScheme {
    match s {
        RemoteSource::B2(_) => ServiceScheme::B2,
        RemoteSource::FTP(_) => ServiceScheme::Ftp,
        RemoteSource::OneDrive(_) => ServiceScheme::Onedrive,
        RemoteSource::S3(_) => ServiceScheme::S3,
    }
}

/// Two sources of the same service whose fields hold the same text.
pub open spec fn same_settings(a: RemoteSource, b: RemoteSource) -> bool {
    match (a, b) {
        (RemoteSource::B2(x), RemoteSource::B2(y)) => {
            &&& x.root@ == y.root@
            &&& x.application_key@ == y.application_key@
            &&& x.application_key_id@ == y.application_key_id@
            &&& x.bucket@ == y.bucket@
            &&& x.bucket_id@ == y.bucket_id@
        },
        (RemoteSource::FTP(x), RemoteSource::FTP(y)) => {
            &&& x.endpoint@ == y.endpoint@
            &&& x.root@ == y.root@
            &&& x.username@ == y.username@
            &&& x.password@ == y.password@
        },
        (RemoteSource::OneDrive(x), RemoteSource::OneDrive(y)) => {
            &&& x.root@ == y.root@
            &&& x.refresh_token@ == y.refresh_token@
            &&& x.client_id@ == y.client_id@
            &&& x.client_secret@ == y.client_secret@
        },
        (RemoteSource::S3(x), RemoteSource::S3(y)) => {
            &&& x.root@ == y.root@
            &&& x.bucket@ == y.bucket@
            &&& x.endpoint@ == y.endpoint@
            &&& x.region@ == y.region@
            &&& x.access_key_id@ == y.access_key_id@
            &&& x.secret_access_key@ == y.secret_access_key@
        },
        _ => false,
    }
}

/// The option names, spelled out: their lengths, and a first character
/// where two of one length meet in a service.
proof fn lemma_option_keys()
    ensures
        "root"@.len() == 4,
        "application_key"@.len() == 15,
        "application_key_id"@.len() == 18,
        "bucket"@.len() == 6,
        "bucket_id"@.len() == 9,
        "endpoint"@.len() == 8,
        "user"@.len() == 4,
        "password"@.len() == 8,
        "refresh_token"@.len() == 13,
        "client_id"@.len() == 9,
        "client_secret"@.len() == 13,
        "region"@.len() == 6,
        "access_key_id"@.len() == 13,
        "secret_access_key"@.len() == 17,
        "endpoint"@[0] != "password"@[0],
        "root"@[0] != "user"@[0],
        "bucket"@[0] != "region"@[0],
        "refresh_token"@[0] != "client_secret"@[0],
        "refresh_token"@[0] != "access_key_id"@[0],
{
    reveal_strlit("root");
    reveal_strlit("application_key");
    reveal_strlit("application_key_id");
    reveal_strlit("bucket");
    reveal_strlit("bucket_id");
    reveal_strlit("endpoint");
    reveal_strlit("user");
    reveal_strlit("password");
    reveal_strlit("refresh_token");
    reveal_strlit("client_id");
    reveal_strlit("client_secret");
    reveal_strlit("region");
    reveal_strlit("access_key_id");
    reveal_strlit("secret_access_key");
}

/// The options tell a source apart: two sources have the same options
/// exactly when they are for the same service and every field holds the
/// same text.  No field is lost and no two fields share a key, so a source
/// can be read back from its options.
pub proof fn lemma_options_determine_source(a: RemoteSource, b: RemoteSource)
    ensures
        source_options(a) == source_options(b) <==> same_settings(a, b),
{
    lemma_option_keys();
    let ma = source_options(a);
    let mb = source_options(b);
    if same_settings(a, b) {
        assert(ma =~= mb);
    }
    if ma == mb {
        match (a, b) {
            (RemoteSource::B2(x), RemoteSource::B2(y)) => {
                assert(ma["root"@] == x.root@);
                assert(mb["root"@] == y.root@);
                assert(ma["application_key"@] == x.application_key@);
                assert(mb["application_key"@] == y.application_key@);
                assert(ma["application_key_id"@] == x.application_key_id@);
                assert(mb["application_key_id"@] == y.application_key_id@);
                assert(ma["bucket"@] == x.bucket@);
                assert(mb["bucket"@] == y.bucket@);
                assert(ma["bucket_id"@] == x.bucket_id@);
                assert(mb["bucket_id"@] == y.bucket_id@);
            },
            (RemoteSource::FTP(x), RemoteSource::FTP(y)) => {
                assert(ma["endpoint"@] == x.endpoint@);
                assert(mb["endpoint"@] == y.endpoint@);
                assert(ma["root"@] == x.root@);
                assert(mb["root"@] == y.root@);
                assert(ma["user"@] == x.username@);
                assert(mb["user"@] == y.username@);
                assert(ma["password"@] == x.password@);
                assert(mb["password"@] == y.password@);
            },
            (RemoteSource::OneDrive(x), RemoteSource::OneDrive(y)) => {
                assert(ma["refresh_token"@] == x.refresh_token@);
                assert(mb["refresh_token"@] == y.refresh_token@);
                assert(ma["client_id"@] == x.client_id@);
                assert(mb["client_id"@] == y.client_id@);
                assert(ma["client_secret"@] == x.client_secret@);
                assert(mb["client_secret"@] == y.client_secret@);
                assert(ma["root"@] == x.root@);
                assert(mb["root"@] == y.root@);
            },
            (RemoteSource::S3(x), RemoteSource::S3(y)) => {
                assert(ma["root"@] == x.root@);
                assert(mb["root"@] == y.root@);
                assert(ma["bucket"@] == x.bucket@);
                assert(mb["bucket"@] == y.bucket@);
                assert(ma["endpoint"@] == x.endpoint@);
                assert(mb["endpoint"@] == y.endpoint@);
                assert(ma["region"@] == x.region@);
                assert(mb["region"@] == y.region@);
                assert(ma["access_key_id"@] == x.access_key_id@);
                assert(mb["access_key_id"@] == y.access_key_id@);
                assert(ma["secret_access_key"@] == x.secret_access_key@);
                assert(mb["secret_access_key"@] == y.secret_access_key@);
            },
            (RemoteSource::B2(_), _) => {
                assert(ma.contains_key("application_key"@));
                assert(!mb.contains_key("application_key"@));
            },
            (_, RemoteSource::B2(_)) => {
                assert(mb.contains_key("application_key"@));
                assert(!ma.contains_key("application_key"@));
            },
            (RemoteSource::FTP(_), _) => {
                assert(ma.contains_key("user"@));
                assert(!mb.contains_key("user"@));
            },
            (_, RemoteSource::FTP(_)) => {
                assert(mb.contains_key("user"@));
                assert(!ma.contains_key("user"@));
            },
            (RemoteSource::OneDrive(_), _) => {
                assert(ma.contains_key("refresh_token"@));
                assert(!mb.contains_key("refresh_token"@));
            },
            (_, RemoteSource::OneDrive(_)) => {
                assert(mb.contains_key("refresh_token"@));
                assert(!ma.contains_key("refresh_token"@));
            },
        }
    }
}

/// Each option holds the field of its own name, and a service's options
/// are exactly its fields: for every config, its map sends each option name
/// to the text of the field so named (the FTP user name under `user`), and
/// holds no other key.
pub proof fn lemma_options_hold_fields(s: RemoteSource)
    ensures
        match s {
            RemoteSource::B2(c) => {
                let m = source_options(s);
                &&& m.dom() =~= set!["root"@, "application_key"@, "application_key_id"@, "bucket"@, "bucket_id"@]
                &&& m["root"@] == c.root@
                &&& m["application_key"@] == c.application_key@
                &&& m["application_key_id"@] == c.application_key_id@
                &&& m["bucket"@] == c.bucket@
                &&& m["bucket_id"@] == c.bucket_id@
            },
            RemoteSource::FTP(c) => {
                let m = source_options(s);
                &&& m.dom() =~= set!["endpoint"@, "root"@, "user"@, "password"@]
                &&& m["endpoint"@] == c.endpoint@
                &&& m["root"@] == c.root@
                &&& m["user"@] == c.username@
                &&& m["password"@] == c.password@
            },
            RemoteSource::OneDrive(c) => {
                let m = source_options(s);
                &&& m.dom() =~= set!["root"@, "refresh_token"@, "client_id"@, "client_secret"@]
                &&& m["root"@] == c.root@
                &&& m["refresh_token"@] == c.refresh_token@
                &&& m["client_id"@] == c.client_id@
                &&& m["client_secret"@] == c.client_secret@
            },
            RemoteSource::S3(c) => {
                let m = source_options(s);
                &&& m.dom() =~= set!["root"@, "bucket"@, "endpoint"@, "region"@, "access_key_id"@, "secret_access_key"@]
                &&& m["root"@] == c.root@
                &&& m["bucket"@] == c.bucket@
                &&& m["endpoint"@] == c.endpoint@
                &&& m["region"@] == c.region@
                &&& m["access_key_id"@] == c.access_key_id@
                &&& m["secret_access_key"@] == c.secret_access_key@
            },
        },
{
    lemma_option_keys();
}

/// A source's service is the one its config is for, and it can be told from
/// the options alone: S3 options hold a `region`, B2 options an
/// `application_key`, FTP options a `user`, OneDrive options a
/// `refresh_token`, and no options hold two of these.
pub proof fn lemma_scheme_of_source(s: RemoteSource)
    ensures
        s is B2 <==> source_scheme(s) == ServiceScheme::B2,
        s is FTP <==> source_scheme(s) == ServiceScheme::Ftp,
        s is OneDrive <==> source_scheme(s) == ServiceScheme::Onedrive,
        s is S3 <==> source_scheme(s) == ServiceScheme::S3,
        source_scheme(s) == ServiceScheme::S3 <==> source_options(s).contains_key("region"@),
        source_scheme(s) == ServiceScheme::B2 <==> source_options(s).contains_key("application_key"@),
        source_scheme(s) == ServiceScheme::Ftp <==> source_options(s).contains_key("user"@),
        source_scheme(s) == ServiceScheme::Onedrive <==> source_options(s).contains_key("refresh_token"@),
{
    lemma_option_keys();
    lemma_options_hold_fields(s);
}

impl RemoteSource {
    /// Converts the source into its options, ready for the storage layer.
    pub fn to_map(self) -> (m: ConfigMap)
        ensures
            m.as_map() == source_options(self),
    {
        match self {
            RemoteSource::B2(x) => x.to_map(),
            RemoteSource::FTP(x) => x.to_map(),
            RemoteSource::OneDrive(x) => x.to_map(),
            RemoteSource::S3(x) => x.to_map(),
        }
    }

    /// The storage service of this source.
    pub fn scheme(&self) -> (s: ServiceScheme)
        ensures
            s == source_scheme(*self),
    {
        match self {
            RemoteSource::B2(x) => x.scheme(),
            RemoteSource::FTP(x) => x.scheme(),
            RemoteSource::OneDrive(x) => x.scheme(),
            RemoteSource::S3(x) => x.scheme(),
        }
    }
}

} // verus!
