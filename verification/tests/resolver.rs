use object_store_rs::error::StoreError;
use object_store_rs::store::new;
use object_store_rs::store::Backend;
use object_store_rs::store::Resolution;
use object_store_rs::store::Store;

fn store_with_base(base: &str) -> Store {
    Store { backend: Backend::Local { root: String::from("/") }, base: String::from(base) }
}

#[test]
fn join_empty_base() {
    assert_eq!(store_with_base("").join_path("x"), "x");
}

#[test]
fn join_key_with_leading_slash() {
    assert_eq!(store_with_base("a").join_path("/x"), "a/x");
}

#[test]
fn join_base_with_trailing_slash() {
    assert_eq!(store_with_base("a/").join_path("x"), "a/x");
}

#[test]
fn join_plain() {
    assert_eq!(store_with_base("a").join_path("x"), "a/x");
}

#[test]
fn join_many_leading_slashes() {
    assert_eq!(store_with_base("a").join_path("///x"), "a/x");
}

#[test]
fn join_empty_base_and_slashed_key() {
    assert_eq!(store_with_base("").join_path("/x"), "x");
}

#[test]
fn resolve_file_url() {
    match new("file:///data/blocks") {
        Ok(Resolution::Store(st)) => {
            match st.backend {
                Backend::Local { root } => assert_eq!(root, "/data/blocks"),
                _ => panic!("a file URL must resolve to the local backend"),
            }
            assert_eq!(st.base, "");
        }
        _ => panic!("a file URL must resolve to a store handle"),
    }
}

#[test]
fn resolve_gs_url() {
    match new("gs://bucket/prefix/path") {
        Ok(Resolution::Store(st)) => {
            match st.backend {
                Backend::Gcs { bucket } => assert_eq!(bucket, "bucket"),
                _ => panic!("a gs URL must resolve to the cloud backend"),
            }
            assert_eq!(st.base, "prefix/path");
        }
        _ => panic!("a gs URL must resolve to a store handle"),
    }
}

#[test]
fn resolve_gs_url_without_prefix() {
    match new("gs://bucket") {
        Ok(Resolution::Store(st)) => {
            match st.backend {
                Backend::Gcs { bucket } => assert_eq!(bucket, "bucket"),
                _ => panic!("a gs URL must resolve to the cloud backend"),
            }
            assert_eq!(st.base, "");
        }
        _ => panic!("a gs URL must resolve to a store handle"),
    }
}

#[test]
fn resolve_bare_relative_path() {
    assert!(matches!(new("some/relative/dir"), Ok(Resolution::BarePath)));
}

#[test]
fn resolve_s3_is_unsupported_backend() {
    match new("s3://bucket/key") {
        Err(StoreError::UnsupportedBackend(m)) => assert_eq!(m, "s3://bucket/key"),
        Err(StoreError::UnsupportedScheme(_)) => {
            panic!("s3 must be reported as a known but unimplemented backend")
        }
        _ => panic!("s3 must be rejected"),
    }
}

#[test]
fn resolve_unknown_scheme() {
    match new("http://example.com/x") {
        Err(StoreError::UnsupportedScheme(s)) => assert_eq!(s, "http"),
        _ => panic!("an unrecognized scheme must be rejected with its name"),
    }
}

#[test]
fn resolve_invalid_url_is_configuration_error() {
    match new("http://[:::1]/x") {
        Err(StoreError::Configuration(m)) => assert_eq!(m, "http://[:::1]/x"),
        _ => panic!("an unparsable URL must be a configuration error"),
    }
}
