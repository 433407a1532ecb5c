use alexandrie_index::codec::{decode_lines, encode_lines};
use alexandrie_index::config::DatabaseConfig;
use alexandrie_index::error::{AlexError, Error, IndexError};
use alexandrie_index::index::{remote_url, CommandLineIndex, Index};
use alexandrie_index::layout::{record_path, shard_path};
use alexandrie_index::sync::{after_push, commit_message, Step, MAX_ATTEMPTS};
use alexandrie_index::version::Version;

fn lines(ls: &[&str]) -> Vec<Vec<u8>> {
    ls.iter().map(|l| l.as_bytes().to_vec()).collect()
}

#[test]
fn lines_round_trip() {
    let ls = lines(&["{\"name\":\"a\"}", "", "{\"name\":\"b\"}"]);
    let bytes = encode_lines(&ls);
    assert_eq!(bytes, b"{\"name\":\"a\"}\n\n{\"name\":\"b\"}\n".to_vec());
    assert_eq!(decode_lines(&bytes), ls);
}

#[test]
fn empty_file_has_no_lines() {
    assert_eq!(encode_lines(&vec![]), Vec::<u8>::new());
    assert_eq!(decode_lines(&vec![]), Vec::<Vec<u8>>::new());
}

#[test]
fn last_line_without_newline_counts() {
    assert_eq!(decode_lines(&b"x\ny".to_vec()), lines(&["x", "y"]));
}

#[test]
fn sharded_paths() {
    assert_eq!(shard_path("a").unwrap(), "1/a");
    assert_eq!(shard_path("ab").unwrap(), "2/ab");
    assert_eq!(shard_path("abc").unwrap(), "3/a/abc");
    assert_eq!(shard_path("serde").unwrap(), "se/rd/serde");
    assert_eq!(shard_path(""), None);
    assert_eq!(record_path("Serde_JSON").unwrap(), "se/rd/serde_json");
    assert_eq!(record_path("ABC").unwrap(), "3/a/abc");
    assert_eq!(record_path(""), None);
}

#[test]
fn index_record_path_under_root() {
    let idx = Index::CommandLine(CommandLineIndex { path: "/srv/index".to_string() });
    assert_eq!(idx.path(), "/srv/index");
    assert_eq!(idx.record_path("Tokio").unwrap(), "/srv/index/to/ki/tokio");
}

#[test]
fn remote_url_from_tool_output() {
    assert_eq!(remote_url("https://example.com/index.git\n").unwrap(), "https://example.com/index.git");
    assert_eq!(remote_url("git@host:index.git\r\n").unwrap(), "git@host:index.git");
    assert!(matches!(remote_url(""), Err(IndexError::ConfigurationError)));
    assert!(matches!(remote_url("\n"), Err(IndexError::ConfigurationError)));
    assert!(matches!(remote_url("two words\n"), Err(IndexError::ConfigurationError)));
}

#[test]
fn push_outcomes() {
    assert!(matches!(after_push(1, Ok(())), Step::Done));
    assert!(matches!(after_push(1, Err(IndexError::ConflictError)), Step::Retry { attempt: 2 }));
    assert!(matches!(
        after_push(MAX_ATTEMPTS, Err(IndexError::ConflictError)),
        Step::Fail(IndexError::SyncError)
    ));
    assert!(matches!(after_push(2, Err(IndexError::SyncError)), Step::Fail(IndexError::SyncError)));
    assert!(matches!(
        after_push(1, Err(IndexError::MalformedRecord { line: 3 })),
        Step::Fail(IndexError::MalformedRecord { line: 3 })
    ));
}

#[test]
fn commit_messages() {
    assert_eq!(commit_message("demo", "1.0.0"), "Updating crate `demo#1.0.0`");
}

#[test]
fn status_codes() {
    assert_eq!(AlexError::InvalidToken.get_http_status_code(), 401);
    assert_eq!(AlexError::CrateNotFound { name: "x".to_string() }.get_http_status_code(), 400);
    assert_eq!(
        AlexError::CrateNotOwned { name: "x".to_string(), author: "me".to_string() }.get_http_status_code(),
        400
    );
    let too_low = AlexError::VersionTooLow {
        krate: "x".to_string(),
        hosted: Version::parse("1.0.0").unwrap(),
        published: Version::parse("0.9.0").unwrap(),
    };
    assert_eq!(too_low.get_http_status_code(), 400);
    assert_eq!(
        AlexError::MissingQueryParams { missing_params: vec!["q".to_string()] }.get_http_status_code(),
        400
    );
    assert_eq!(Error::from(AlexError::InvalidToken).get_http_status_code(), 401);
    assert_eq!(Error::from(IndexError::CrateNotFound { name: "x".to_string() }).get_http_status_code(), 404);
    assert_eq!(Error::from(IndexError::ConflictError).get_http_status_code(), 500);
    assert_eq!(Error::Internal("disk".to_string()).get_http_status_code(), 500);
    assert!(!Error::Internal("disk".to_string()).is_user_facing());
    assert_eq!(Error::SemverError("1.x".to_string()).get_http_status_code(), 500);
    assert!(Error::from(AlexError::InvalidToken).is_user_facing());
    assert!(Error::from(IndexError::DuplicateVersion {
        name: "d".to_string(),
        version: Version::parse("1.0.0").unwrap(),
    })
    .is_user_facing());
    assert!(IndexError::ConflictError.is_retriable());
    assert!(!IndexError::SyncError.is_retriable());
}

#[test]
fn database_config_holds_url() {
    let c = DatabaseConfig { url: "postgres://localhost/db".to_string() };
    assert_eq!(c.clone(), c);
}

#[test]
fn error_unpacking() {
    assert!(matches!(
        Error::from(IndexError::SyncError).into_index_error(),
        Some(IndexError::SyncError)
    ));
    assert!(Error::from(IndexError::SyncError).into_alex_error().is_none());
    assert!(matches!(
        Error::from(AlexError::InvalidToken).into_alex_error(),
        Some(AlexError::InvalidToken)
    ));
    assert!(Error::SemverError("x".to_string()).into_index_error().is_none());
}
