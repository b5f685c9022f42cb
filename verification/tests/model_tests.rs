use narou_rust_core::model::{DownloadTarget, TargetError};

#[test]
fn parses_ncode() {
    let target = DownloadTarget::parse("N9669BK").unwrap();
    match target {
        DownloadTarget::Ncode(value) => assert_eq!(value, "n9669bk"),
        _ => panic!("unexpected target"),
    }
}

#[test]
fn parses_numeric_id_and_url() {
    assert_eq!(DownloadTarget::parse(" 42 ").unwrap(), DownloadTarget::Id(42));
    assert_eq!(
        DownloadTarget::parse("https://kakuyomu.jp/works/1").unwrap(),
        DownloadTarget::Url(String::from("https://kakuyomu.jp/works/1"))
    );
}

#[test]
fn rejects_empty_and_unsupported_targets() {
    assert_eq!(DownloadTarget::parse("   ").unwrap_err(), TargetError::Empty);
    let err = DownloadTarget::parse("ftp://x").unwrap_err();
    assert_eq!(err, TargetError::Unsupported(String::from("ftp://x")));
    assert_eq!(err.message(), "unsupported target: ftp://x");
    assert_eq!(TargetError::Empty.message(), "target is empty");
}

#[test]
fn id_overflow_is_not_an_id() {
    assert_eq!(
        DownloadTarget::parse("18446744073709551616").unwrap_err(),
        TargetError::Unsupported(String::from("18446744073709551616"))
    );
    assert_eq!(
        DownloadTarget::parse("18446744073709551615").unwrap(),
        DownloadTarget::Id(u64::MAX)
    );
}
