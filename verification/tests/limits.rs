use codeg::workspace::limits::{
    count_bytes, workspace_download_max_bytes, workspace_upload_max_bytes, zip_concurrency,
    WORKSPACE_DOWNLOAD_CONCURRENCY_ENV, WORKSPACE_DOWNLOAD_MAX_BYTES_ENV,
    WORKSPACE_UPLOAD_MAX_BYTES_ENV,
};

#[test]
fn limits_have_defaults() {
    for raw in [None, Some(""), Some("0"), Some("-1"), Some("many"), Some("1 000"), Some("18446744073709551616")] {
        assert_eq!(workspace_upload_max_bytes(raw), 524_288_000);
        assert_eq!(workspace_download_max_bytes(raw), 268_435_456);
        assert_eq!(zip_concurrency(raw), 2);
    }
}

#[test]
fn limits_can_be_set() {
    assert_eq!(workspace_upload_max_bytes(Some(" 1024\n")), 1024);
    assert_eq!(workspace_download_max_bytes(Some("+7")), 7);
    assert_eq!(zip_concurrency(Some("16")), 16);
    assert_eq!(workspace_upload_max_bytes(Some("18446744073709551615")), u64::MAX);
    assert_eq!(zip_concurrency(Some(&usize::MAX.to_string())), usize::MAX);
}

#[test]
fn variables_have_their_names() {
    assert_eq!(WORKSPACE_UPLOAD_MAX_BYTES_ENV, "CODEG_WORKSPACE_UPLOAD_MAX_BYTES");
    assert_eq!(WORKSPACE_DOWNLOAD_MAX_BYTES_ENV, "CODEG_WORKSPACE_DOWNLOAD_MAX_BYTES");
    assert_eq!(WORKSPACE_DOWNLOAD_CONCURRENCY_ENV, "CODEG_WORKSPACE_DOWNLOAD_MAX_CONCURRENCY");
}

#[test]
fn counting_stops_at_the_limit() {
    assert_eq!(count_bytes(3, 4, 7), Ok(7));
    assert_eq!(count_bytes(3, 5, 7), Err(8));
    assert_eq!(count_bytes(u64::MAX, 5, 7), Err(u64::MAX));
    assert_eq!(count_bytes(u64::MAX - 1, 5, u64::MAX), Ok(u64::MAX));
    let count = |lens: &[u64], limit: u64| {
        lens.iter().try_fold(0u64, |total, len| count_bytes(total, *len, limit))
    };
    assert_eq!(count(&[1, 2, 3], 6), Ok(6));
    assert_eq!(count(&[1, 2, 3, 0], 5), Err(6));
    assert_eq!(count(&[], 0), Ok(0));
}
