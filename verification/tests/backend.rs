use opendal_remote::backend::{
    service_operator, transfer_paths, truncate_target, write_target, BackendError, Layer,
    OpenDALBackend,
};
use opendal_remote::config::{RemoteConfig, Throttle};
use opendal_remote::services::{FtpConfig, RemoteSource};

fn ftp_config(bandwidth: Option<Throttle>, max_threads: Option<u8>) -> RemoteConfig {
    RemoteConfig {
        max_threads,
        bandwidth,
        src: RemoteSource::FTP(FtpConfig {
            endpoint: "127.0.0.1:21".to_string(),
            root: "/".to_string(),
            username: "user".to_string(),
            password: "pass".to_string(),
        }),
    }
}

#[test]
fn layers_for_full_config() {
    let c = ftp_config(Some(Throttle { bandwidth: 10, burst: 20 }), Some(4));
    assert_eq!(
        c.layers(),
        vec![
            Layer::Throttle { bandwidth: 10, burst: 20 },
            Layer::ConcurrentLimit(4),
            Layer::Logging
        ]
    );
}

#[test]
fn layers_for_bare_config() {
    assert_eq!(ftp_config(None, None).layers(), vec![Layer::Logging]);
    assert_eq!(
        ftp_config(None, Some(2)).layers(),
        vec![Layer::ConcurrentLimit(2), Layer::Logging]
    );
}

#[test]
fn transfer_paths_follow_kind() {
    match transfer_paths("a/b", "c", Some(true)) {
        Ok((src, dst)) => {
            assert_eq!(src, "/a/b/");
            assert_eq!(dst, "/c/");
        }
        Err(e) => panic!("unexpected {e:?}"),
    }
    match transfer_paths("/a/b/", "c/", Some(false)) {
        Ok((src, dst)) => {
            assert_eq!(src, "/a/b");
            assert_eq!(dst, "/c");
        }
        Err(e) => panic!("unexpected {e:?}"),
    }
    assert!(matches!(transfer_paths("a", "b", None), Err(BackendError::NotFound)));
}

#[test]
fn only_zero_length_is_supported() {
    assert!(matches!(truncate_target("f", 3), Err(BackendError::Unsupported)));
    assert_eq!(truncate_target("f", 0).unwrap(), "/f");
}

#[test]
fn writer_appends_unless_truncating() {
    assert_eq!(write_target("dir/f", true), ("/dir/f".to_string(), false));
    assert_eq!(write_target("dir/f", false), ("/dir/f".to_string(), true));
}

#[test]
fn new_backend_keeps_name_and_config() {
    let config = ftp_config(Some(Throttle { bandwidth: 100, burst: 200 }), Some(3));
    let backend = OpenDALBackend::new("remote", config.clone()).unwrap();
    assert_eq!(backend.name(), "remote");
    assert_eq!(backend.config(), &config);
    let other = OpenDALBackend::new("remote", config).unwrap();
    assert_ne!(backend.id(), other.id());
}

#[test]
fn new_backend_id_is_random_uuid() {
    let backend = OpenDALBackend::new("remote", ftp_config(None, None)).unwrap();
    let id = uuid::Uuid::from_u128(backend.id());
    assert_eq!(id.get_version(), Some(uuid::Version::Random));
    assert_eq!(id.get_variant(), uuid::Variant::RFC4122);
}

#[test]
fn clone_shares_identity() {
    let backend = OpenDALBackend::new("remote", ftp_config(None, Some(2))).unwrap();
    let copy = backend.clone();
    assert_eq!(copy.id(), backend.id());
    assert_eq!(copy.name(), backend.name());
    assert_eq!(copy.config(), backend.config());
}

#[test]
fn assemble_passes_build_errors_on() {
    let config = ftp_config(Some(Throttle { bandwidth: 0, burst: 0 }), None);
    let err = opendal::Error::new(opendal::ErrorKind::Unexpected, "no service");
    match OpenDALBackend::assemble("x", config, Err(err), 0) {
        Err(BackendError::Service(e)) => assert_eq!(e.kind(), opendal::ErrorKind::Unexpected),
        _ => panic!("expected the build error"),
    }
}

#[test]
fn assemble_keeps_identity() {
    let config = ftp_config(Some(Throttle { bandwidth: 1, burst: 1 }), Some(1));
    let built = service_operator(&config.src);
    let b = OpenDALBackend::assemble("mem", config.clone(), built, 42).unwrap();
    assert_eq!(b.id(), 42);
    assert_eq!(b.name(), "mem");
    assert_eq!(b.config(), &config);
}
