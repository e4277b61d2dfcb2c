use std::str::FromStr;

use protobuf::ProtobufError;
use tikv_snap::cloud::error::{
    into_io_error, Error, ErrorCode, ErrorCodeExt, KmsError, OtherError, RetryError,
};
use tikv_snap::sst::SstCompressionType;

fn all_errors() -> Vec<(Error, ErrorCode, bool, &'static str)> {
    vec![
        (Error::Other("boom".to_string()), ErrorCode::Unknown, true, "Other error boom"),
        (
            Error::Io(std::io::Error::other("disk gone")),
            ErrorCode::Io,
            true,
            "IO error disk gone",
        ),
        (
            Error::Proto(ProtobufError::message_not_initialized("m")),
            ErrorCode::Proto,
            true,
            "Protobuf error not all message fields set",
        ),
        (
            Error::ApiTimeout("slow".to_string()),
            ErrorCode::Timeout,
            true,
            "API Timeout error: slow",
        ),
        (
            Error::ApiInternal("500".to_string()),
            ErrorCode::ApiInternal,
            true,
            "API internal error: 500",
        ),
        (
            Error::ApiNotFound("404".to_string()),
            ErrorCode::ApiNotFound,
            false,
            "API not found: 404",
        ),
        (
            Error::ApiAuthentication("denied".to_string()),
            ErrorCode::ApiAuthentication,
            false,
            "API auth: denied",
        ),
        (
            Error::KmsError(KmsError::WrongMasterKey("k".to_string())),
            ErrorCode::WrongMasterKey,
            false,
            "Key error: Wrong master key k",
        ),
        (
            Error::KmsError(KmsError::EmptyKey("data key".to_string())),
            ErrorCode::InvalidInput,
            false,
            "Key error: Empty key data key",
        ),
        (
            Error::KmsError(KmsError::Other(OtherError::from_box("odd".to_string()))),
            ErrorCode::Unknown,
            false,
            "Key error: Kms error odd",
        ),
    ]
}

#[test]
fn cloud_errors_have_codes_policies_and_texts() {
    for (e, code, retry, text) in all_errors() {
        assert_eq!(e.error_code(), code, "{}", text);
        assert_eq!(e.is_retryable(), retry, "{}", text);
        assert_eq!(e.to_string(), text);
    }
}

#[test]
fn render_takes_the_inner_text() {
    let e = Error::Io(std::io::Error::other("x"));
    assert_eq!(e.render("what the error says"), "IO error what the error says");
    let p = Error::Proto(ProtobufError::message_not_initialized("m"));
    assert_eq!(p.render("y"), "Protobuf error y");
    let o = Error::ApiTimeout("slow".to_string());
    assert_eq!(o.render("ignored"), "API Timeout error: slow");
}

#[test]
fn other_error_keeps_the_policy_of_its_source() {
    let boxed = OtherError::from_box("plain".to_string());
    assert!(!boxed.is_retryable());
    assert_eq!(boxed.to_string(), "plain");
    let from_retryable = OtherError::from_retry(&Error::ApiTimeout("t".to_string()), "t".to_string());
    assert!(from_retryable.is_retryable());
    let from_final = OtherError::from_retry(&Error::ApiNotFound("n".to_string()), "n".to_string());
    assert!(!from_final.is_retryable());
    let retried = OtherError::with_policy(true, "again".to_string());
    assert!(retried.is_retryable());
    assert_eq!(retried.to_string(), "again");
    assert!(!OtherError::with_policy(false, "never".to_string()).is_retryable());
    assert!(KmsError::Other(from_retryable).is_retryable());
    assert!(!KmsError::Other(from_final).is_retryable());
    assert_eq!(KmsError::EmptyKey("e".to_string()).to_string(), "Empty key e");
    assert_eq!(KmsError::WrongMasterKey("w".to_string()).error_code(), ErrorCode::WrongMasterKey);
}

#[test]
fn conversions() {
    let e: Error = KmsError::EmptyKey("e".to_string()).into();
    assert!(matches!(e, Error::KmsError(KmsError::EmptyKey(_))));
    let e: Error = std::io::Error::new(std::io::ErrorKind::NotFound, "nf").into();
    assert!(matches!(e, Error::Io(_)));
    let e: Error = ProtobufError::message_not_initialized("m").into();
    assert!(matches!(e, Error::Proto(_)));
    // an I/O error comes back as it went in
    let io = into_io_error(Error::Io(std::io::Error::new(std::io::ErrorKind::NotFound, "nf")));
    assert_eq!(io.kind(), std::io::ErrorKind::NotFound);
    assert_eq!(io.to_string(), "nf");
    let io: std::io::Error = Error::Io(std::io::Error::other("same")).into();
    assert_eq!(io.to_string(), "same");
    let io = std::io::Error::from(Error::KmsError(KmsError::EmptyKey("e".to_string())));
    assert_eq!(io.to_string(), "Key error: Empty key e");
    // any other error is carried as text
    let io = into_io_error(Error::ApiNotFound("404".to_string()));
    assert_eq!(io.kind(), std::io::ErrorKind::Other);
    assert_eq!(io.to_string(), "API not found: 404");
    let io = into_io_error(Error::KmsError(KmsError::EmptyKey("k".to_string())));
    assert_eq!(io.kind(), std::io::ErrorKind::Other);
    assert_eq!(io.to_string(), "Key error: Empty key k");
    // a protobuf error is carried with the text it gives of itself
    let io = into_io_error(Error::Proto(ProtobufError::message_not_initialized("m")));
    assert_eq!(io.kind(), std::io::ErrorKind::Other);
    assert_eq!(io.to_string(), "Protobuf error not all message fields set");
}

#[test]
fn every_error_but_io_is_carried_as_its_text() {
    for (error, _, _, text) in all_errors() {
        if matches!(error, Error::Io(_)) {
            continue;
        }
        assert_eq!(error.to_string(), text);
        let io = into_io_error(error);
        assert_eq!(io.kind(), std::io::ErrorKind::Other);
        assert_eq!(io.to_string(), text);
    }
}

#[test]
fn compression_type_from_str() {
    assert_eq!(SstCompressionType::from_str("lz4"), Ok(SstCompressionType::Lz4));
    assert_eq!(SstCompressionType::from_str("Snappy"), Ok(SstCompressionType::Snappy));
    assert_eq!(SstCompressionType::from_str("ZSTD"), Ok(SstCompressionType::Zstd));
    assert_eq!("zStD".parse::<SstCompressionType>(), Ok(SstCompressionType::Zstd));
    assert_eq!(
        SstCompressionType::from_str("GZip"),
        Err("gzip isn't a valid compression method".to_string())
    );
    assert_eq!(
        SstCompressionType::parse(""),
        Err(" isn't a valid compression method".to_string())
    );
    assert_eq!(
        SstCompressionType::parse(" lz4"),
        Err(" lz4 isn't a valid compression method".to_string())
    );
    // only ASCII letters are lowered
    assert_eq!(
        SstCompressionType::parse("LZ4\u{c9}"),
        Err("lz4\u{c9} isn't a valid compression method".to_string())
    );
}
