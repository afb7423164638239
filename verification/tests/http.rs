use downloader::http::{classify_status, parse_content_length, DownloadError};

#[test]
fn success_statuses_pass() {
    assert!(classify_status(200).is_ok());
    assert!(classify_status(204).is_ok());
    assert!(classify_status(299).is_ok());
}

#[test]
fn not_found_is_typed() {
    assert_eq!(classify_status(404), Err(DownloadError::NotFound));
}

#[test]
fn other_statuses_carry_the_code() {
    assert_eq!(classify_status(500), Err(DownloadError::BadStatus(500)));
    assert_eq!(classify_status(302), Err(DownloadError::BadStatus(302)));
    assert_eq!(classify_status(199), Err(DownloadError::BadStatus(199)));
    assert_eq!(classify_status(300), Err(DownloadError::BadStatus(300)));
}

#[test]
fn content_length_parses_digits() {
    assert_eq!(parse_content_length("3072"), Some(3072));
    assert_eq!(parse_content_length("0"), Some(0));
    assert_eq!(parse_content_length("007"), Some(7));
}

#[test]
fn printed_lengths_parse_back() {
    for &n in &[0u128, 7, 10, 1024, 3072, 999_999_999_999] {
        let printed = downloader::units::dec_string(n);
        assert_eq!(parse_content_length(&printed), Some(n as usize));
    }
}

#[test]
fn content_length_rejects_junk() {
    assert_eq!(parse_content_length(""), None);
    assert_eq!(parse_content_length("12a"), None);
    assert_eq!(parse_content_length("-5"), None);
    assert_eq!(parse_content_length(" 42"), None);
    assert_eq!(parse_content_length("99999999999999999999999999"), None);
}
