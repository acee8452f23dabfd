use opendal_remote::services::{
    B2Config, FtpConfig, OneDriveConfig, RemoteSource, S3Config, ServiceScheme,
};

fn s(x: &str) -> String {
    x.to_string()
}

fn b2() -> B2Config {
    B2Config {
        root: s("/r"),
        application_key: s("key"),
        application_key_id: s("kid"),
        bucket: s("bk"),
        bucket_id: s("bid"),
    }
}

#[test]
fn b2_options() {
    let pairs = b2().to_map().into_pairs();
    assert_eq!(
        pairs,
        vec![
            (s("application_key"), s("key")),
            (s("application_key_id"), s("kid")),
            (s("bucket"), s("bk")),
            (s("bucket_id"), s("bid")),
            (s("root"), s("/r")),
        ]
    );
    assert_eq!(b2().scheme(), ServiceScheme::B2);
}

#[test]
fn ftp_options() {
    let c = FtpConfig {
        endpoint: s("192.168.1.149:21"),
        root: s("/"),
        username: s("me"),
        password: s("pw"),
    };
    assert_eq!(c.scheme(), ServiceScheme::Ftp);
    let pairs = c.to_map().into_pairs();
    assert_eq!(
        pairs,
        vec![
            (s("endpoint"), s("192.168.1.149:21")),
            (s("password"), s("pw")),
            (s("root"), s("/")),
            (s("user"), s("me")),
        ]
    );
}

#[test]
fn onedrive_options() {
    let c = OneDriveConfig {
        root: s("/od"),
        refresh_token: s("rt"),
        client_id: s("ci"),
        client_secret: s("cs"),
    };
    assert_eq!(c.scheme(), ServiceScheme::Onedrive);
    let m = c.to_map();
    assert_eq!(m.len(), 4);
    assert_eq!(m.get("refresh_token").map(|v| v.as_str()), Some("rt"));
    assert_eq!(m.get("client_id").map(|v| v.as_str()), Some("ci"));
    assert_eq!(m.get("client_secret").map(|v| v.as_str()), Some("cs"));
    assert_eq!(m.get("root").map(|v| v.as_str()), Some("/od"));
}

#[test]
fn s3_options() {
    let c = S3Config {
        root: s("/"),
        bucket: s("b"),
        endpoint: s("https://s3.example"),
        region: s("us-east-1"),
        access_key_id: s("AK"),
        secret_access_key: s("SK"),
    };
    assert_eq!(c.scheme(), ServiceScheme::S3);
    let m = c.to_map();
    assert_eq!(m.len(), 6);
    assert_eq!(m.get("region").map(|v| v.as_str()), Some("us-east-1"));
    assert_eq!(m.get("secret_access_key").map(|v| v.as_str()), Some("SK"));
    assert!(m.get("username").is_none());
}

#[test]
fn remote_source_uses_its_config() {
    let src = RemoteSource::B2(b2());
    assert_eq!(src.scheme(), ServiceScheme::B2);
    assert_eq!(src.to_map().into_pairs(), b2().to_map().into_pairs());
    let ftp = RemoteSource::FTP(FtpConfig {
        endpoint: s("e"),
        root: s("r"),
        username: s("u"),
        password: s("p"),
    });
    assert_eq!(ftp.scheme(), ServiceScheme::Ftp);
    assert_eq!(ftp.scheme().name(), "ftp");
    assert_eq!(ServiceScheme::B2.name(), "b2");
    assert_eq!(ServiceScheme::Onedrive.name(), "onedrive");
    assert_eq!(ServiceScheme::S3.name(), "s3");
}

#[test]
fn options_tell_sources_apart() {
    let a = RemoteSource::B2(b2());
    let mut other = b2();
    other.bucket_id = s("another");
    let b = RemoteSource::B2(other);
    assert_ne!(a.clone().to_map().into_pairs(), b.to_map().into_pairs());
    let ftp = RemoteSource::FTP(FtpConfig {
        endpoint: s("/r"),
        root: s("key"),
        username: s("kid"),
        password: s("bk"),
    });
    assert_ne!(a.to_map().into_pairs(), ftp.to_map().into_pairs());
}
