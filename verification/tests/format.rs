use srtshift::format::{require_subrip, FormatError};

#[test]
fn admits_the_srt_extension_whatever_the_content() {
    assert_eq!(require_subrip(Some("srt"), b""), Ok(()));
    assert_eq!(require_subrip(Some("srt"), b"1\n00:00:01,000 --> 00:00:02,000\nHi\n"), Ok(()));
    assert_eq!(require_subrip(Some("srt"), &[0x00, 0x00, 0x01, 0xba]), Ok(()));
}

#[test]
fn refuses_the_other_formats() {
    assert_eq!(require_subrip(Some("ssa"), b""), Err(FormatError::NotSubRip));
    assert_eq!(require_subrip(Some("ass"), b""), Err(FormatError::NotSubRip));
    assert_eq!(require_subrip(Some("idx"), b""), Err(FormatError::NotSubRip));
    assert_eq!(require_subrip(Some("sub"), b"{0}{25}text"), Err(FormatError::NotSubRip));
    assert_eq!(
        require_subrip(Some("sub"), &[0x00, 0x00, 0x01, 0xba, 0x44]),
        Err(FormatError::NotSubRip)
    );
    assert_eq!(require_subrip(Some("sub"), &[0x00, 0x00, 0x01]), Err(FormatError::NotSubRip));
}

#[test]
fn knows_no_format_for_other_extensions() {
    assert_eq!(require_subrip(None, b""), Err(FormatError::Unknown));
    assert_eq!(
        require_subrip(None, b"1\n00:00:01,000 --> 00:00:02,000\nHi\n"),
        Err(FormatError::Unknown)
    );
    assert_eq!(require_subrip(Some(""), b""), Err(FormatError::Unknown));
    assert_eq!(require_subrip(Some("txt"), b""), Err(FormatError::Unknown));
    assert_eq!(require_subrip(Some("SRT"), b""), Err(FormatError::Unknown));
    assert_eq!(require_subrip(Some(".srt"), b""), Err(FormatError::Unknown));
    assert_eq!(require_subrip(Some("srt "), b""), Err(FormatError::Unknown));
}
