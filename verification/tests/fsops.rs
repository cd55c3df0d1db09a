use rquickjs_playground::fsops::{
    cp_plan, file_read_reply, io_error_code, mkdtemp_candidate, normalize_encoding,
    parse_fs_write_payload, rm_plan, split_millis, system_time_to_millis, CpPlan, FileData,
    FsErrorKind, RmPlan, MKDTEMP_ATTEMPTS, mkdtemp_next, MkdtempNext,
};
use rquickjs_playground::json::{JsonNumber, JsonValue};

fn num(n: u64) -> JsonValue {
    JsonValue::Number(JsonNumber { as_u64: Some(n), text: n.to_string() })
}

fn text(s: &str) -> JsonValue {
    JsonValue::String(s.to_string())
}

fn obj(fields: Vec<(&str, JsonValue)>) -> JsonValue {
    JsonValue::Object(fields.into_iter().map(|(k, v)| (k.to_string(), v)).collect())
}

#[test]
fn normalize_encoding_examples() {
    assert_eq!(normalize_encoding(None), "");
    assert_eq!(normalize_encoding(Some("  UTF_8\t".to_string())), "utf-8");
    assert_eq!(normalize_encoding(Some("\u{3000}Latin1 ".to_string())), "latin1");
    assert_eq!(normalize_encoding(Some("   ".to_string())), "");
    assert_eq!(normalize_encoding(Some("ÄB".to_string())), "Äb");
}

#[test]
fn normalize_encoding_matches_std() {
    for s in ["", " a ", "\n\rX_Y\u{85}", "\u{2000}é_Z\u{202f}", "abc", "A B_C"] {
        let expected = s.trim().to_ascii_lowercase().replace('_', "-");
        assert_eq!(normalize_encoding(Some(s.to_string())), expected);
    }
}

#[test]
fn io_error_codes() {
    assert_eq!(io_error_code(&FsErrorKind::NotFound), "ENOENT");
    assert_eq!(io_error_code(&FsErrorKind::PermissionDenied), "EACCES");
    assert_eq!(io_error_code(&FsErrorKind::AlreadyExists), "EEXIST");
    assert_eq!(io_error_code(&FsErrorKind::InvalidInput), "EINVAL");
    assert_eq!(io_error_code(&FsErrorKind::InvalidData), "EINVAL");
    assert_eq!(io_error_code(&FsErrorKind::TimedOut), "ETIMEDOUT");
    assert_eq!(io_error_code(&FsErrorKind::Interrupted), "EINTR");
    assert_eq!(io_error_code(&FsErrorKind::WouldBlock), "EWOULDBLOCK");
    assert_eq!(io_error_code(&FsErrorKind::Other), "EIO");
}

#[test]
fn read_reply_by_encoding() {
    match file_read_reply(vec![104, 105], None) {
        Ok(FileData::Bytes(b)) => assert_eq!(b, vec![104, 105]),
        _ => panic!("expected bytes"),
    }
    match file_read_reply("中文".as_bytes().to_vec(), Some("UTF8".to_string())) {
        Ok(FileData::Text(t)) => assert_eq!(t, "中文"),
        _ => panic!("expected text"),
    }
    match file_read_reply(vec![0xff], Some("utf-8".to_string())) {
        Err(f) => assert_eq!(f.code, "EINVAL"),
        _ => panic!("expected failure"),
    }
    match file_read_reply(vec![1], Some("gbk".to_string())) {
        Err(f) => {
            assert_eq!(f.code, "EINVAL");
            assert_eq!(f.message, "不支持的编码: gbk");
        }
        _ => panic!("expected failure"),
    }
}

#[test]
fn write_payload_kinds() {
    let bytes = obj(vec![("kind", text("bytes")), ("data", JsonValue::Array(vec![num(1), num(255)]))]);
    assert_eq!(parse_fs_write_payload(&bytes, None), Ok(vec![1, 255]));
    let text_payload = obj(vec![("kind", text("text")), ("data", text("é"))]);
    assert_eq!(parse_fs_write_payload(&text_payload, Some("utf-8".to_string())), Ok(vec![0xc3, 0xa9]));
    assert_eq!(parse_fs_write_payload(&text_payload, Some("latin1".to_string())), Err("不支持的编码: latin1".to_string()));
    assert_eq!(parse_fs_write_payload(&obj(vec![]), None), Err("缺少 kind 字段".to_string()));
    assert_eq!(parse_fs_write_payload(&obj(vec![("kind", text("blob"))]), None), Err("不支持的 kind: blob".to_string()));
    assert_eq!(
        parse_fs_write_payload(&obj(vec![("kind", text("bytes")), ("data", text("x"))]), None),
        Err("bytes 数据格式错误".to_string())
    );
    assert_eq!(
        parse_fs_write_payload(&obj(vec![("kind", text("bytes")), ("data", JsonValue::Array(vec![num(256)]))]), None),
        Err("bytes 数据必须在 0-255 范围内".to_string())
    );
    assert_eq!(
        parse_fs_write_payload(&obj(vec![("kind", text("bytes")), ("data", JsonValue::Array(vec![text("1")]))]), None),
        Err("bytes 数据必须是 0-255 的整数".to_string())
    );
    assert_eq!(
        parse_fs_write_payload(&obj(vec![("kind", text("text")), ("data", num(1))]), None),
        Err("text 数据格式错误".to_string())
    );
}

#[test]
fn rm_plans() {
    assert!(matches!(rm_plan(false, false, false, true), RmPlan::Nothing));
    assert!(matches!(rm_plan(false, false, false, false), RmPlan::Missing));
    assert!(matches!(rm_plan(true, true, true, false), RmPlan::RemoveDirAll));
    assert!(matches!(rm_plan(true, true, false, false), RmPlan::RemoveDir));
    assert!(matches!(rm_plan(true, false, true, true), RmPlan::RemoveFile));
}

#[test]
fn cp_plans() {
    assert!(matches!(cp_plan(false, true, true, true, true, true), CpPlan::SourceMissing));
    assert!(matches!(cp_plan(true, true, false, false, true, true), CpPlan::TargetExists));
    assert!(matches!(cp_plan(true, true, false, false, false, false), CpPlan::TargetExistsWithoutForce));
    assert!(matches!(cp_plan(true, true, true, false, true, false), CpPlan::DirectoryNeedsRecursive));
    assert!(matches!(cp_plan(true, false, true, true, false, false), CpPlan::CopyDir));
    assert!(matches!(cp_plan(true, false, false, false, false, false), CpPlan::CopyFile));
}

#[test]
fn split_millis_matches_euclid() {
    for ms in [0i64, 1, 999, 1000, 1234, -1, -999, -1000, -1001, i64::MAX, i64::MIN] {
        let (secs, nanos) = split_millis(ms);
        assert_eq!(secs, ms.div_euclid(1000));
        assert_eq!(nanos, (ms.rem_euclid(1000) * 1_000_000) as u32);
    }
    assert_eq!(split_millis(-1), (-1, 999_000_000));
}

#[test]
fn millis_conversion_truncates() {
    assert_eq!(system_time_to_millis(None), None);
    assert_eq!(system_time_to_millis(Some(1_700_000_000_000)), Some(1_700_000_000_000));
    assert_eq!(system_time_to_millis(Some(u128::MAX)), Some(u128::MAX as i64));
}

#[test]
fn mkdtemp_candidate_matches_format() {
    assert_eq!(MKDTEMP_ATTEMPTS, 32);
    for (ts, seq) in [(0u128, 0u64), (0x1234, 7), (u128::MAX, u64::MAX), (1_700_000_000_123_456_789, 65535)] {
        let expected = format!("tmp-{ts:016x}{seq:04x}");
        assert_eq!(mkdtemp_candidate("tmp-", ts, seq), expected);
    }
}

#[test]
fn mkdtemp_retries_only_taken_names() {
    assert!(matches!(mkdtemp_next(0, Ok(())), MkdtempNext::Created));
    assert!(matches!(mkdtemp_next(0, Err(FsErrorKind::AlreadyExists)), MkdtempNext::TryAgain));
    assert!(matches!(mkdtemp_next(MKDTEMP_ATTEMPTS - 1, Err(FsErrorKind::AlreadyExists)), MkdtempNext::GiveUp));
    assert!(matches!(mkdtemp_next(3, Err(FsErrorKind::PermissionDenied)), MkdtempNext::Failed));
}
