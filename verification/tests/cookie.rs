use bytes::Bytes;
use vrpn::connect::{check_file_cookie, check_nonfile_cookie, cookie_to_bytes};
use vrpn::constants::{file_magic_data, magic_data, magic_prefix, COOKIE_SIZE, MAGICLEN};
use vrpn::cookie::{
    check_ver_file_compatible, check_ver_nonfile_compatible, dec_digits, from_dec, CookieData,
    Version, VersionError,
};
use vrpn::error::Error;
use vrpn::wire::{Buffer, BufferSize, BytesRequired, IntErrorKind, Unbuffer, UnbufferError};

#[test]
fn formatting() {
    assert_eq!(magic_data().to_string(), "07.35");
    assert_eq!(
        CookieData::from_version(magic_data()).to_string(),
        "vrpn: ver. 07.35  0"
    );
    assert_eq!(
        CookieData::from_version(file_magic_data()).to_string(),
        "vrpn: ver. 04.00  0"
    );
}

#[test]
fn cookie_magic_size() {
    // Make sure the size is right.
    assert_eq!(magic_data().to_string().len(), MAGICLEN - magic_prefix().len());

    let mut magic_cookie = CookieData::from_version(magic_data());
    magic_cookie.log_mode = Some(0);
    assert_eq!(magic_cookie.buffer_size(), COOKIE_SIZE);

    let mut buf = Vec::new();
    magic_cookie
        .buffer_ref(&mut buf)
        .expect("Buffering needs to succeed");
    assert_eq!(buf.len(), COOKIE_SIZE);
}

#[test]
fn ver_compat() {
    assert!(check_ver_nonfile_compatible(magic_data()).is_ok());
    assert!(check_ver_file_compatible(file_magic_data()).is_ok());
}

#[test]
fn roundtrip() {
    let mut magic_cookie = CookieData::from_version(magic_data());
    magic_cookie.log_mode = Some(0);
    let mut buf = Vec::with_capacity(magic_cookie.buffer_size());
    magic_cookie
        .buffer_ref(&mut buf)
        .expect("Buffering needs to succeed");
    let mut buf = Bytes::from(buf);
    assert_eq!(CookieData::unbuffer_ref(&mut buf).unwrap(), magic_cookie);
}

#[test]
fn basics() {
    assert_eq!(from_dec(b"1"), Ok(1_u8));
    assert_eq!(from_dec(b"12"), Ok(12_u8));
}

#[test]
fn dec_digits_fn() {
    {
        let mut buf = Bytes::from_static(b"1");
        assert_eq!(dec_digits(&mut buf, 1), Ok(1_u8));
        assert_eq!(buf.len(), 0);
    }
    {
        let mut buf = Bytes::from_static(b"12");
        assert_eq!(dec_digits(&mut buf, 2), Ok(12_u8));
        assert_eq!(buf.len(), 0);
    }
}

#[test]
fn parse_decimal() {
    fn parse_decimal_u8(v: &'static [u8]) -> u8 {
        from_dec(v).unwrap()
    }
    assert_eq!(0_u8, parse_decimal_u8(b"0"));
    assert_eq!(0_u8, parse_decimal_u8(b"00"));
    assert_eq!(0_u8, parse_decimal_u8(b"000"));
    assert_eq!(1_u8, parse_decimal_u8(b"1"));
    assert_eq!(1_u8, parse_decimal_u8(b"01"));
    assert_eq!(1_u8, parse_decimal_u8(b"001"));
    assert_eq!(1_u8, parse_decimal_u8(b"0001"));
    assert_eq!(10_u8, parse_decimal_u8(b"10"));
    assert_eq!(10_u8, parse_decimal_u8(b"010"));
    assert_eq!(10_u8, parse_decimal_u8(b"0010"));
    assert_eq!(10_u8, parse_decimal_u8(b"00010"));
}

fn get_cookie_buf(file_cookie: bool) -> Vec<u8> {
    cookie_to_bytes(&if file_cookie {
        CookieData::make_file_cookie()
    } else {
        CookieData::make_cookie()
    })
    .expect("should buffer cookie")
}

#[test]
fn check_cookie() {
    check_nonfile_cookie(get_cookie_buf(false)).expect("checking cookie should pass");
    check_file_cookie(get_cookie_buf(true)).expect("checking cookie should pass");
}

#[test]
fn write_cookie() {
    let written = get_cookie_buf(false);
    assert_eq!(written.len(), COOKIE_SIZE);
    assert_eq!(&written[..], b"vrpn: ver. 07.35  0\0\0\0\0\0");
    let written = get_cookie_buf(true);
    assert_eq!(&written[..], b"vrpn: ver. 04.00  0\0\0\0\0\0");
}

#[test]
fn cookie_version_mismatch_is_reported() {
    let cookie = CookieData::from_version(Version { major: 6, minor: 1 });
    let bytes = cookie_to_bytes(&cookie).unwrap();
    match check_nonfile_cookie(bytes) {
        Err(Error::VersionError(VersionError::VersionMismatch { actual, expected })) => {
            assert_eq!(actual, Version { major: 6, minor: 1 });
            assert_eq!(expected, magic_data());
        }
        other => panic!("unexpected {:?}", other),
    }
    // A network cookie is not a file cookie.
    assert!(matches!(
        check_file_cookie(get_cookie_buf(false)),
        Err(Error::VersionError(_))
    ));
}

#[test]
fn cookie_garbage_is_an_unbuffer_error() {
    let mut bytes = get_cookie_buf(false);
    bytes[0] = b'x';
    assert!(matches!(
        check_nonfile_cookie(bytes),
        Err(Error::UnbufferError(UnbufferError::UnexpectedAsciiData { .. }))
    ));
    assert!(matches!(
        check_nonfile_cookie(b"vrpn: ver. 07".to_vec()),
        Err(Error::UnbufferError(UnbufferError::NeedMoreData(_)))
    ));
}

#[test]
fn decimal_errors() {
    assert_eq!(from_dec(b""), Err(IntErrorKind::Empty));
    assert_eq!(from_dec(b"1a"), Err(IntErrorKind::InvalidDigit));
    assert_eq!(from_dec(b"256"), Err(IntErrorKind::PosOverflow));
    assert_eq!(from_dec(b"255"), Ok(255));
    let mut buf = Bytes::from_static(b"1");
    assert_eq!(
        dec_digits(&mut buf, 2),
        Err(UnbufferError::NeedMoreData(BytesRequired::Exactly(1)))
    );
    assert_eq!(buf.len(), 1);
}

#[test]
fn version_text() {
    assert_eq!(Version { major: 7, minor: 35 }.to_string(), "07.35");
    assert_eq!(Version { major: 12, minor: 3 }.to_string(), "12.03");
}

#[test]
fn version_mismatch_words() {
    let err = check_ver_nonfile_compatible(Version { major: 6, minor: 1 }).unwrap_err();
    assert_eq!(
        err.to_string(),
        "version mismatch: expected something compatible with 07.35, got 06.01"
    );
}

#[test]
fn cookie_read_takes_the_whole_cookie() {
    let mut magic_cookie = CookieData::from_version(magic_data());
    magic_cookie.log_mode = Some(0);
    let mut buf = Vec::new();
    magic_cookie.buffer_ref(&mut buf).unwrap();
    buf.extend_from_slice(b"next");
    let mut bytes = Bytes::from(buf);
    assert_eq!(CookieData::unbuffer_ref(&mut bytes).unwrap(), magic_cookie);
    assert_eq!(&bytes[..], b"next");
    // The text without its padding is too short: nothing is consumed.
    let mut short = Bytes::from_static(b"vrpn: ver. 07.35  0");
    assert_eq!(
        CookieData::unbuffer_ref(&mut short),
        Err(UnbufferError::NeedMoreData(BytesRequired::Exactly(5)))
    );
    assert_eq!(short.len(), 19);
}
