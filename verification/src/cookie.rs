//! The magic cookie exchanged when a connection is set up: its text form,
//! its wire form, and the version compatibility checks.
use crate::byte_buffer::{bytes_as_slice, bytes_len, bytes_split_to, bytes_view};
use crate::constants::{
    file_magic_data, file_magic_data_spec, magic_data, magic_data_spec, magic_prefix,
    magic_prefix_spec, COOKIE_SIZE,
};
use crate::text::{ascii_string, ascii_view, is_ascii_bytes, lemma_ascii_concat};
use crate::wire::{
    has_room, has_room_spec, consume_expected, Buffer, BufferError, BufferSize, BytesRequired,
    ConstantBufferSize, IntErrorKind, UnbufferError, Unbuffer,
};
use bytes::Bytes;
use vstd::prelude::*;

verus! {

/// A protocol version.
#[derive(Debug, Clone, Copy, PartialEq, Eq, Structural, PartialOrd, Ord, Hash)]
pub struct Version {
    /// Major version: must match for compatibility.
    pub major: u8,
    /// Minor version.
    pub minor: u8,
}

impl Version {
    /// Version 0.0.
    pub fn new() -> (r: Version)
        ensures
            r == (Version { major: 0, minor: 0 }),
    {
        Version { major: 0, minor: 0 }
    }

    /// The text form: major and minor, each with at least two digits, joined by a dot.
    pub open spec fn text_spec(self) -> Seq<u8> {
        dec_text_min2(self.major as nat) + seq![46u8] + dec_text_min2(self.minor as nat)
    }

    /// The text form, such as `07.35`.
    pub fn to_text(&self) -> (r: Vec<u8>)
        ensures
            r@ == self.text_spec(),
    {
        let mut r = Vec::new();
        self.push_text(&mut r);
        assert(r@ =~= self.text_spec());
        r
    }

    /// The text form as a string, such as `07.35`.
    pub fn to_string(&self) -> (r: String)
        ensures
            r@ == ascii_view(self.text_spec()),
    {
        proof {
            lemma_version_text_ascii(*self);
        }
        ascii_string(&self.to_text())
    }

    fn push_text(&self, out: &mut Vec<u8>)
        ensures
            final(out)@ == old(out)@ + self.text_spec(),
    {
        push_dec_min2(out, self.major);
        out.push(46u8);
        push_dec_min2(out, self.minor);
        assert(out@ =~= old(out)@ + self.text_spec());
    }
}

impl Default for Version {
    fn default() -> (r: Version)
        ensures
            r == (Version { major: 0, minor: 0 }),
    {
        Version::new()
    }
}

/// The data carried by a magic cookie.
#[derive(Debug, Clone, Copy, PartialEq, Eq, Structural, PartialOrd, Ord, Hash)]
pub struct CookieData {
    /// The protocol version.
    pub version: Version,
    /// The remote logging mode, if known.
    pub log_mode: Option<u8>,
}

impl CookieData {
    /// Version 0.0 with no log mode.
    pub fn new() -> (r: CookieData)
        ensures
            r == (CookieData { version: Version { major: 0, minor: 0 }, log_mode: None }),
    {
        CookieData { version: Version::new(), log_mode: None }
    }

    /// The given version with no log mode.
    pub fn from_version(version: Version) -> (r: CookieData)
        ensures
            r == (CookieData { version, log_mode: None }),
    {
        CookieData { version, log_mode: None }
    }

    /// The version the cookie carries.
    pub fn into_version(self) -> (r: Version)
        ensures
            r == self.version,
    {
        self.version
    }

    /// The cookie sent on network connections.
    pub fn make_cookie() -> (r: CookieData)
        ensures
            r == (CookieData { version: magic_data_spec(), log_mode: None }),
    {
        CookieData::from_version(magic_data())
    }

    /// The cookie at the start of log files.
    pub fn make_file_cookie() -> (r: CookieData)
        ensures
            r == (CookieData { version: file_magic_data_spec(), log_mode: None }),
    {
        CookieData::from_version(file_magic_data())
    }

    /// The log mode written in the cookie: zero when none is known.
    pub open spec fn log_mode_value(self) -> u8 {
        match self.log_mode {
            Some(m) => m,
            None => 0,
        }
    }

    /// The text form: prefix, version, two spaces and the log mode.
    pub open spec fn text_spec(self) -> Seq<u8> {
        magic_prefix_spec() + self.version.text_spec() + seq![32u8, 32u8] + dec_text(
            self.log_mode_value() as nat,
        )
    }

    /// The wire form: the text form followed by five zero bytes.
    pub open spec fn wire_spec(self) -> Seq<u8> {
        self.text_spec() + seq![0u8, 0u8, 0u8, 0u8, 0u8]
    }

    /// The text form, such as `vrpn: ver. 07.35  0`.
    pub fn to_text(&self) -> (r: Vec<u8>)
        ensures
            r@ == self.text_spec(),
    {
        let mut r = Vec::new();
        let prefix = magic_prefix();
        let mut i: usize = 0;
        while i < prefix.len()
            invariant
                i <= prefix@.len(),
                prefix@ == magic_prefix_spec(),
                r@ == prefix@.take(i as int),
            decreases prefix@.len() - i,
        {
            r.push(prefix[i]);
            i = i + 1;
            assert(r@ =~= prefix@.take(i as int));
        }
        assert(prefix@.take(i as int) =~= prefix@);
        self.version.push_text(&mut r);
        r.push(32u8);
        r.push(32u8);
        let mode = match self.log_mode {
            Some(m) => m,
            None => 0u8,
        };
        push_dec(&mut r, mode);
        assert(r@ =~= self.text_spec());
        r
    }

    /// The text form as a string, such as `vrpn: ver. 07.35  0`.
    pub fn to_string(&self) -> (r: String)
        ensures
            r@ == ascii_view(self.text_spec()),
    {
        proof {
            lemma_version_text_ascii(self.version);
            lemma_dec_text_digits(self.log_mode_value() as nat);
            let t = self.text_spec();
            let a = magic_prefix_spec();
            let b = self.version.text_spec();
            let c = seq![32u8, 32u8];
            let d = dec_text(self.log_mode_value() as nat);
            assert forall|i: int| 0 <= i < t.len() implies #[trigger] t[i] < 128 by {
                if i < a.len() {
                    assert(t[i] == a[i]);
                } else if i < a.len() + b.len() {
                    assert(t[i] == b[i - a.len()]);
                } else if i < a.len() + b.len() + 2 {
                    assert(t[i] == c[i - a.len() - b.len()]);
                } else {
                    assert(t[i] == d[i - a.len() - b.len() - 2]);
                }
            }
        }
        ascii_string(&self.to_text())
    }
}

impl Default for CookieData {
    fn default() -> (r: CookieData)
        ensures
            r == (CookieData { version: Version { major: 0, minor: 0 }, log_mode: None }),
    {
        CookieData::new()
    }
}

/// A version that is not compatible with the expected one.
#[derive(Debug, Clone, Copy, PartialEq, Eq, Structural)]
pub enum VersionError {
    /// The major versions differ.
    VersionMismatch { actual: Version, expected: Version },
}

impl VersionError {
    /// The error in words, naming the expected and the actual version.
    pub open spec fn words(self) -> Seq<char> {
        match self {
            VersionError::VersionMismatch { actual, expected } =>
                "version mismatch: expected something compatible with "@ + ascii_view(
                expected.text_spec(),
            ) + ", got "@ + ascii_view(actual.text_spec()),
        }
    }

    /// The error in words, naming the expected and the actual version.
    pub fn to_string(&self) -> (r: String)
        ensures
            r@ == self.words(),
    {
        let VersionError::VersionMismatch { actual, expected } = *self;
        let mut text: Vec<u8> = vec![
            118u8, 101u8, 114u8, 115u8, 105u8, 111u8, 110u8, 32u8, 109u8, 105u8, 115u8, 109u8, 97u8,
            116u8, 99u8, 104u8, 58u8, 32u8, 101u8, 120u8, 112u8, 101u8, 99u8, 116u8, 101u8, 100u8,
            32u8, 115u8, 111u8, 109u8, 101u8, 116u8, 104u8, 105u8, 110u8, 103u8, 32u8, 99u8, 111u8,
            109u8, 112u8, 97u8, 116u8, 105u8, 98u8, 108u8, 101u8, 32u8, 119u8, 105u8, 116u8, 104u8,
            32u8,
        ];
        let ghost a = text@;
        expected.push_text(&mut text);
        let ghost b = expected.text_spec();
        let sep: Vec<u8> = vec![44u8, 32u8, 103u8, 111u8, 116u8, 32u8];
        let ghost c = sep@;
        let mut i: usize = 0;
        while i < sep.len()
            invariant
                i <= sep@.len(),
                sep@ == c,
                text@ == a + b + c.take(i as int),
            decreases sep@.len() - i,
        {
            text.push(sep[i]);
            i = i + 1;
            assert(text@ =~= a + b + c.take(i as int));
        }
        actual.push_text(&mut text);
        let ghost d = actual.text_spec();
        proof {
            assert(c.take(c.len() as int) =~= c);
            reveal_strlit("version mismatch: expected something compatible with ");
            reveal_strlit(", got ");
            assert(ascii_view(a) =~= "version mismatch: expected something compatible with "@);
            assert(ascii_view(c) =~= ", got "@);
            assert(is_ascii_bytes(a));
            assert(is_ascii_bytes(c));
            lemma_version_text_ascii(expected);
            lemma_version_text_ascii(actual);
            lemma_ascii_concat(a, b);
            lemma_ascii_concat(a + b, c);
            lemma_ascii_concat(a + b + c, d);
        }
        ascii_string(&text)
    }
}

/// Checks that a version can talk to this library over a network connection:
/// the major versions must match.
pub fn check_ver_nonfile_compatible(ver: Version) -> (r: Result<(), VersionError>)
    ensures
        r is Ok <==> ver.major == magic_data_spec().major,
        r is Err ==> r == Err::<(), VersionError>(
            VersionError::VersionMismatch { actual: ver, expected: magic_data_spec() },
        ),
{
    let expected = magic_data();
    if ver.major == expected.major {
        Ok(())
    } else {
        Err(VersionError::VersionMismatch { actual: ver, expected })
    }
}

/// Checks that a log file's version can be read by this library: the major
/// versions must match.
pub fn check_ver_file_compatible(ver: Version) -> (r: Result<(), VersionError>)
    ensures
        r is Ok <==> ver.major == file_magic_data_spec().major,
        r is Err ==> r == Err::<(), VersionError>(
            VersionError::VersionMismatch { actual: ver, expected: file_magic_data_spec() },
        ),
{
    let expected = file_magic_data();
    if ver.major == expected.major {
        Ok(())
    } else {
        Err(VersionError::VersionMismatch { actual: ver, expected })
    }
}

// ---------------------------------------------------------------------------
// Decimal text
/// Whether a byte is an ASCII decimal digit.
pub open spec fn is_digit(b: u8) -> bool {
    48 <= b <= 57
}

/// The ASCII digit for `d`.
pub open spec fn digit_char(d: nat) -> u8 {
    (48 + d) as u8
}

/// The decimal digits of `v`, without leading zeros.
pub open spec fn dec_text(v: nat) -> Seq<u8>
    decreases v,
{
    if v < 10 {
        seq![digit_char(v)]
    } else {
        dec_text(v / 10).push(digit_char(v % 10))
    }
}

/// The decimal digits of `v`, with a leading zero when it has only one.
pub open spec fn dec_text_min2(v: nat) -> Seq<u8> {
    if v < 10 {
        seq![48u8] + dec_text(v)
    } else {
        dec_text(v)
    }
}

/// Decimal text is made of digits.
pub proof fn lemma_dec_text_digits(v: nat)
    ensures
        dec_text(v).len() >= 1,
        forall|i: int| 0 <= i < dec_text(v).len() ==> is_digit(#[trigger] dec_text(v)[i]),
    decreases v,
{
    if v >= 10 {
        lemma_dec_text_digits(v / 10);
    }
}

/// The text form of a version is ASCII.
proof fn lemma_version_text_ascii(ver: Version)
    ensures
        is_ascii_bytes(ver.text_spec()),
{
    lemma_dec_text_digits(ver.major as nat);
    lemma_dec_text_digits(ver.minor as nat);
    let a = dec_text_min2(ver.major as nat);
    let b = dec_text_min2(ver.minor as nat);
    let t = ver.text_spec();
    assert forall|i: int| 0 <= i < a.len() implies is_digit(#[trigger] a[i]) by {
        if ver.major < 10 && i > 0 {
            assert(a[i] == dec_text(ver.major as nat)[i - 1]);
        }
    }
    assert forall|i: int| 0 <= i < b.len() implies is_digit(#[trigger] b[i]) by {
        if ver.minor < 10 && i > 0 {
            assert(b[i] == dec_text(ver.minor as nat)[i - 1]);
        }
    }
    assert forall|i: int| 0 <= i < t.len() implies #[trigger] t[i] < 128 by {
        if i < a.len() {
            assert(t[i] == a[i]);
        } else if i == a.len() {
        } else {
            assert(t[i] == b[i - a.len() - 1]);
        }
    }
}

/// The value of a sequence of decimal digits.
pub open spec fn dec_value(s: Seq<u8>) -> nat
    decreases s.len(),
{
    if s.len() == 0 {
        0
    } else {
        dec_value(s.drop_last()) * 10 + (s.last() - 48) as nat
    }
}

/// How many decimal digits `s` begins with.
pub open spec fn digit_prefix_len(s: Seq<u8>) -> nat
    decreases s.len(),
{
    if s.len() == 0 || !is_digit(s[0]) {
        0
    } else {
        1 + digit_prefix_len(s.skip(1))
    }
}

/// The digits of a decimal number text, without its optional leading `+`.
pub open spec fn dec_body(s: Seq<u8>) -> Seq<u8> {
    if s.len() > 0 && s[0] == 43u8 {
        s.skip(1)
    } else {
        s
    }
}

/// The result of reading a `u8` from decimal text: an optional `+`, then
/// digits.  The leading digits are read first, so a value too large for a
/// `u8` is reported before any character that follows them.
pub open spec fn from_dec_spec(s: Seq<u8>) -> Result<u8, IntErrorKind> {
    let body = dec_body(s);
    let k = digit_prefix_len(body);
    if s.len() == 0 {
        Err(IntErrorKind::Empty)
    } else if body.len() == 0 {
        Err(IntErrorKind::InvalidDigit)
    } else if dec_value(body.take(k as int)) > 255 {
        Err(IntErrorKind::PosOverflow)
    } else if k < body.len() {
        Err(IntErrorKind::InvalidDigit)
    } else {
        Ok(dec_value(body) as u8)
    }
}

proof fn lemma_digit_prefix_len_bound(s: Seq<u8>)
    ensures
        digit_prefix_len(s) <= s.len(),
        forall|j: int| 0 <= j < digit_prefix_len(s) ==> is_digit(#[trigger] s[j]),
        digit_prefix_len(s) < s.len() ==> !is_digit(s[digit_prefix_len(s) as int]),
    decreases s.len(),
{
    if s.len() > 0 && is_digit(s[0]) {
        lemma_digit_prefix_len_bound(s.skip(1));
        assert forall|j: int| 0 <= j < digit_prefix_len(s) implies is_digit(#[trigger] s[j]) by {
            if j > 0 {
                assert(s[j] == s.skip(1)[j - 1]);
            }
        }
        if digit_prefix_len(s) < s.len() {
            assert(s[digit_prefix_len(s) as int] == s.skip(1)[digit_prefix_len(s.skip(1)) as int]);
        }
    }
}

/// The digit prefix ends at the first non-digit.
proof fn lemma_digit_prefix_len_at(s: Seq<u8>, i: nat)
    requires
        i <= s.len(),
        forall|j: int| 0 <= j < i ==> is_digit(#[trigger] s[j]),
        i < s.len() ==> !is_digit(s[i as int]),
    ensures
        digit_prefix_len(s) == i,
    decreases s.len(),
{
    if i > 0 {
        assert(is_digit(s[0]));
        assert forall|j: int| 0 <= j < i - 1 implies is_digit(#[trigger] s.skip(1)[j]) by {
            assert(s.skip(1)[j] == s[j + 1]);
        }
        if i < s.len() {
            assert(s.skip(1)[i - 1] == s[i as int]);
        }
        lemma_digit_prefix_len_at(s.skip(1), (i - 1) as nat);
    }
}

/// Reading more digits never decreases the value.
proof fn lemma_dec_value_monotone(s: Seq<u8>, i: nat, j: nat)
    requires
        i <= j <= s.len(),
        forall|t: int| 0 <= t < j ==> is_digit(#[trigger] s[t]),
    ensures
        dec_value(s.take(i as int)) <= dec_value(s.take(j as int)),
    decreases j - i,
{
    if i < j {
        lemma_dec_value_monotone(s, i, (j - 1) as nat);
        assert(s.take(j as int).drop_last() =~= s.take(j - 1));
        assert(is_digit(s[j - 1]));
    }
}

/// Reads a `u8` from decimal text, as `u8::from_str_radix(_, 10)` does.
pub fn from_dec(input: &[u8]) -> (r: Result<u8, IntErrorKind>)
    ensures
        r == from_dec_spec(input@),
{
    let n = input.len();
    if n == 0 {
        return Err(IntErrorKind::Empty);
    }
    let start: usize = if input[0] == 43u8 {
        1
    } else {
        0
    };
    let ghost body = dec_body(input@);
    assert(body =~= input@.skip(start as int));
    if start == n {
        return Err(IntErrorKind::InvalidDigit);
    }
    let mut acc: u8 = 0;
    let mut i: usize = start;
    while i < n
        invariant
            n == input@.len(),
            body == input@.skip(start as int),
            body == dec_body(input@),
            start <= i <= n,
            start < n,
            forall|j: int| 0 <= j < i - start ==> is_digit(#[trigger] body[j]),
            acc as nat == dec_value(body.take(i - start)),
        decreases n - i,
    {
        let b = input[i];
        assert(b == body[i - start]);
        if b < 48u8 || b > 57u8 {
            proof {
                lemma_digit_prefix_len_at(body, (i - start) as nat);
                assert(!is_digit(body[i - start]));
                assert(digit_prefix_len(body) == i - start);
                assert(input@.len() > 0);
                assert(body.len() > 0);
                assert(dec_value(body.take(digit_prefix_len(body) as int)) <= 255);
            }
            return Err(IntErrorKind::InvalidDigit);
        }
        let d: u8 = b - 48u8;
        assert(body.take(i - start + 1).drop_last() =~= body.take(i - start));
        if acc > 25u8 || (acc == 25u8 && d > 5u8) {
            proof {
                let m = i - start;
                assert(body.take(m + 1).last() == b);
                assert(dec_value(body.take(m + 1)) == dec_value(body.take(m)) * 10 + d);
                assert(dec_value(body.take(m + 1)) > 255);
                lemma_digit_prefix_len_bound(body);
                let k = digit_prefix_len(body);
                if k < i - start + 1 {
                    assert(is_digit(body[k as int]));
                }
                lemma_dec_value_monotone(body, (i - start + 1) as nat, k);
            }
            return Err(IntErrorKind::PosOverflow);
        }
        acc = acc * 10 + d;
        i = i + 1;
    }
    proof {
        lemma_digit_prefix_len_at(body, body.len());
        assert(body.take(body.len() as int) =~= body);
    }
    Ok(acc)
}

/// Appends the decimal digits of `v`.
pub fn push_dec(out: &mut Vec<u8>, v: u8)
    ensures
        final(out)@ == old(out)@ + dec_text(v as nat),
{
    proof {
        reveal_with_fuel(dec_text, 3);
    }
    if v >= 100 {
        out.push(48u8 + v / 100);
        out.push(48u8 + (v / 10) % 10);
        out.push(48u8 + v % 10);
        assert(dec_text(v as nat / 10) == dec_text(v as nat / 100).push(
            digit_char((v as nat / 10) % 10),
        ));
    } else if v >= 10 {
        out.push(48u8 + v / 10);
        out.push(48u8 + v % 10);
    } else {
        out.push(48u8 + v);
    }
    assert(out@ =~= old(out)@ + dec_text(v as nat));
}

/// Appends the decimal digits of a wider value.
pub fn push_decimal(out: &mut Vec<u8>, v: u64)
    ensures
        final(out)@ == old(out)@ + dec_text(v as nat),
    decreases v,
{
    if v >= 10 {
        push_decimal(out, v / 10);
    }
    let d = (v % 10) as u8;
    out.push(48u8 + d);
    proof {
        if v >= 10 {
            assert(dec_text(v as nat) == dec_text(v as nat / 10).push(digit_char(v as nat % 10)));
        }
    }
    assert(final(out)@ =~= old(out)@ + dec_text(v as nat));
}

/// The decimal text of a signed value: a minus sign before the digits of a
/// negative one.
pub open spec fn signed_dec_text(v: int) -> Seq<u8> {
    if v < 0 {
        seq![45u8] + dec_text((-v) as nat)
    } else {
        dec_text(v as nat)
    }
}

/// Appends the decimal text of `v`, with a minus sign when it is negative.
pub fn push_signed_decimal(out: &mut Vec<u8>, v: i32)
    ensures
        final(out)@ == old(out)@ + signed_dec_text(v as int),
{
    if v < 0 {
        out.push(45u8);
        let magnitude: i64 = -(v as i64);
        push_decimal(out, magnitude as u64);
    } else {
        push_decimal(out, v as u64);
    }
    assert(out@ =~= old(out)@ + signed_dec_text(v as int));
}

/// Decimal text, signed or not, is ASCII.
pub proof fn lemma_signed_dec_text_ascii(v: int)
    ensures
        is_ascii_bytes(signed_dec_text(v)),
        v >= 0 ==> is_ascii_bytes(dec_text(v as nat)),
{
    if v < 0 {
        lemma_dec_text_digits((-v) as nat);
        let t = signed_dec_text(v);
        assert forall|i: int| 0 <= i < t.len() implies #[trigger] t[i] < 128 by {
            if i > 0 {
                assert(t[i] == dec_text((-v) as nat)[i - 1]);
            }
        }
    } else {
        lemma_dec_text_digits(v as nat);
    }
}

/// Appends the decimal digits of `v`, with a leading zero when it has only one.
pub fn push_dec_min2(out: &mut Vec<u8>, v: u8)
    ensures
        final(out)@ == old(out)@ + dec_text_min2(v as nat),
{
    if v < 10 {
        out.push(48u8);
    }
    let ghost mid = out@;
    push_dec(out, v);
    assert(out@ =~= old(out)@ + dec_text_min2(v as nat));
}

// ---------------------------------------------------------------------------
// Wire form
/// Reads `n` decimal digits from the front of the buffer.
///
/// With fewer than `n` bytes nothing is consumed; otherwise `n` bytes are
/// consumed, whether they form a number or not.
pub fn dec_digits(buf: &mut Bytes, n: usize) -> (r: Result<u8, UnbufferError>)
    ensures
        ({
            let s = bytes_view(*old(buf));
            if s.len() < n {
                &&& r == Err::<u8, UnbufferError>(
                    UnbufferError::NeedMoreData(BytesRequired::Exactly((n - s.len()) as usize)),
                )
                &&& bytes_view(*final(buf)) == s
            } else {
                &&& bytes_view(*final(buf)) == s.skip(n as int)
                &&& r == match from_dec_spec(s.take(n as int)) {
                    Ok(v) => Ok::<u8, UnbufferError>(v),
                    Err(k) => Err(UnbufferError::ParseInt(k)),
                }
            }
        }),
{
    let len = bytes_len(buf);
    if len < n {
        return Err(UnbufferError::NeedMoreData(BytesRequired::Exactly(n - len)));
    }
    let digits = bytes_split_to(buf, n);
    match from_dec(bytes_as_slice(&digits)) {
        Ok(v) => Ok(v),
        Err(k) => Err(UnbufferError::ParseInt(k)),
    }
}

/// The spec of reading a cookie from the front of a byte sequence: the data,
/// and the number of bytes consumed (the five trailing zero bytes are not).
pub open spec fn cookie_parse_spec(s: Seq<u8>) -> Option<(CookieData, nat)> {
    let p = magic_prefix_spec();
    let major = from_dec_spec(s.subrange(11, 13));
    let minor = from_dec_spec(s.subrange(14, 16));
    let mode = from_dec_spec(s.subrange(18, 19));
    if s.len() >= 24 && s.take(11) == p && s[13] == 46u8 && s[16] == 32u8 && s[17] == 32u8
        && major is Ok && minor is Ok && mode is Ok {
        Some(
            (
                CookieData {
                    version: Version { major: major->Ok_0, minor: minor->Ok_0 },
                    log_mode: Some(mode->Ok_0),
                },
                24,
            ),
        )
    } else {
        None
    }
}

impl ConstantBufferSize for CookieData {
    fn constant_buffer_size() -> (r: usize)
        ensures
            r == COOKIE_SIZE,
    {
        COOKIE_SIZE
    }
}

impl BufferSize for CookieData {
    fn buffer_size(&self) -> (r: usize)
        ensures
            r == COOKIE_SIZE,
    {
        COOKIE_SIZE
    }
}

impl Buffer for CookieData {
    open spec fn buffered(&self) -> Seq<u8> {
        self.wire_spec()
    }

    open spec fn bufferable(&self) -> bool {
        true
    }

    /// Appends the wire form.  It takes `COOKIE_SIZE` bytes when the version
    /// numbers are below 100 and the log mode below 10, more otherwise.
    fn buffer_ref(&self, buf: &mut Vec<u8>) -> (r: Result<(), BufferError>)
        ensures
            r is Ok <==> has_room_spec(old(buf)@.len(), self.wire_spec().len()),
            r is Ok ==> final(buf)@ == old(buf)@ + self.wire_spec(),
            r is Err ==> final(buf)@ == old(buf)@ && r == Err::<(), BufferError>(
                BufferError::OutOfBuffer,
            ),
    {
        let mut text = self.to_text();
        text.push(0u8);
        text.push(0u8);
        text.push(0u8);
        text.push(0u8);
        text.push(0u8);
        assert(text@ =~= self.wire_spec());
        if !has_room(buf, text.len()) {
            return Err(BufferError::OutOfBuffer);
        }
        let mut i: usize = 0;
        let ghost start = buf@;
        while i < text.len()
            invariant
                i <= text@.len(),
                buf@ == start + text@.take(i as int),
            decreases text@.len() - i,
        {
            buf.push(text[i]);
            i = i + 1;
            assert(buf@ =~= start + text@.take(i as int));
        }
        assert(text@.take(i as int) =~= text@);
        Ok(())
    }
}

impl Unbuffer for CookieData {
    open spec fn parses(s: Seq<u8>) -> bool {
        cookie_parse_spec(s) is Some
    }

    open spec fn parses_as(s: Seq<u8>, v: CookieData) -> bool {
        cookie_parse_spec(s) matches Some((c, _)) && c == v
    }

    open spec fn consumed(s: Seq<u8>) -> nat {
        match cookie_parse_spec(s) {
            Some((_, n)) => n,
            None => 0,
        }
    }

    open spec fn needs_more(s: Seq<u8>) -> Option<BytesRequired> {
        if s.len() < COOKIE_SIZE {
            Some(BytesRequired::Exactly((COOKIE_SIZE - s.len()) as usize))
        } else {
            None
        }
    }

    /// Reads a cookie: prefix, two digits, `.`, two digits, two spaces and one
    /// digit, then the padding up to `COOKIE_SIZE` bytes, which is skipped.
    /// On success all `COOKIE_SIZE` bytes are consumed; with fewer bytes than
    /// that, more are asked for and nothing is consumed.
    fn unbuffer_ref(buf: &mut Bytes) -> (r: Result<CookieData, UnbufferError>)
        ensures
            ({
                let s = bytes_view(*old(buf));
                match cookie_parse_spec(s) {
                    Some((c, n)) => r == Ok::<CookieData, UnbufferError>(c) && bytes_view(
                        *final(buf),
                    ) == s.skip(n as int),
                    None => r is Err,
                }
            }),
            bytes_view(*old(buf)).len() < COOKIE_SIZE ==> r == Err::<CookieData, UnbufferError>(
                UnbufferError::NeedMoreData(
                    BytesRequired::Exactly((COOKIE_SIZE - bytes_view(*old(buf)).len()) as usize),
                ),
            ),
            r matches Err(UnbufferError::NeedMoreData(_)) ==> bytes_view(*old(buf)).len()
                < COOKIE_SIZE,
            r is Err ==> bytes_view(*final(buf)) == bytes_view(*old(buf)),
    {
        let ghost s = bytes_view(*buf);
        let mut work = buf.clone();
        let r = CookieData::read_cookie_fields(&mut work);
        if r.is_ok() {
            *buf = work;
        }
        r
    }
}

impl CookieData {
    /// Reads a cookie, consuming what it reads even when it then fails.
    fn read_cookie_fields(buf: &mut Bytes) -> (r: Result<CookieData, UnbufferError>)
        ensures
            ({
                let s = bytes_view(*old(buf));
                match cookie_parse_spec(s) {
                    Some((c, n)) => r == Ok::<CookieData, UnbufferError>(c) && bytes_view(
                        *final(buf),
                    ) == s.skip(n as int),
                    None => r is Err,
                }
            }),
            bytes_view(*old(buf)).len() < COOKIE_SIZE ==> r == Err::<CookieData, UnbufferError>(
                UnbufferError::NeedMoreData(
                    BytesRequired::Exactly((COOKIE_SIZE - bytes_view(*old(buf)).len()) as usize),
                ),
            ),
            r matches Err(UnbufferError::NeedMoreData(_)) ==> bytes_view(*old(buf)).len()
                < COOKIE_SIZE,
    {
        let ghost s = bytes_view(*buf);
        let len = bytes_len(buf);
        if len < COOKIE_SIZE {
            return Err(UnbufferError::NeedMoreData(BytesRequired::Exactly(COOKIE_SIZE - len)));
        }
        proof {
            if s.len() >= 19 {
                assert(s.skip(11).skip(2) =~= s.skip(13));
                assert(s.skip(13).skip(1) =~= s.skip(14));
                assert(s.skip(14).skip(2) =~= s.skip(16));
                assert(s.skip(16).skip(2) =~= s.skip(18));
                assert(s.skip(18).skip(1) =~= s.skip(19));
                assert(s.subrange(11, 13) =~= s.skip(11).take(2));
                assert(s.subrange(14, 16) =~= s.skip(14).take(2));
                assert(s.subrange(18, 19) =~= s.skip(18).take(1));
                assert(s.skip(13).take(1) =~= seq![s[13]]);
                assert(s.skip(16).take(2) =~= seq![s[16], s[17]]);
            }
        }
        consume_expected(buf, magic_prefix())?;
        let major: u8 = dec_digits(buf, 2)?;
        let dot: &[u8] = &[46u8];
        assert(dot@ =~= seq![46u8]);
        consume_expected(buf, dot)?;
        let minor: u8 = dec_digits(buf, 2)?;
        let spaces: &[u8] = &[32u8, 32u8];
        assert(spaces@ =~= seq![32u8, 32u8]);
        consume_expected(buf, spaces)?;
        let log_mode: u8 = dec_digits(buf, 1)?;
        let _padding = bytes_split_to(buf, COOKIE_SIZE - 19);
        proof {
            assert(bytes_view(*buf) =~= s.skip(24));
        }
        Ok(CookieData { version: Version { major, minor }, log_mode: Some(log_mode) })
    }
}

/// Two-digit text reads back as its value.
pub proof fn lemma_two_digit_roundtrip(v: nat)
    requires
        v < 100,
    ensures
        dec_text_min2(v) == seq![digit_char(v / 10), digit_char(v % 10)],
        from_dec_spec(dec_text_min2(v)) == Ok::<u8, IntErrorKind>(v as u8),
{
    reveal_with_fuel(dec_text, 2);
    reveal_with_fuel(digit_prefix_len, 3);
    reveal_with_fuel(dec_value, 3);
    let t = seq![digit_char(v / 10), digit_char(v % 10)];
    assert(dec_text_min2(v) =~= t);
    assert(dec_body(t) == t);
    assert(t.skip(1).skip(1) =~= Seq::<u8>::empty());
    assert(t.skip(1) =~= seq![digit_char(v % 10)]);
    assert(digit_prefix_len(t) == 2);
    assert(t.take(2) =~= t);
    assert(t.drop_last() =~= seq![digit_char(v / 10)]);
    assert(seq![digit_char(v / 10)].drop_last() =~= Seq::<u8>::empty());
}

/// One-digit text reads back as its value.
pub proof fn lemma_one_digit_roundtrip(v: nat)
    requires
        v < 10,
    ensures
        dec_text(v) == seq![digit_char(v)],
        from_dec_spec(dec_text(v)) == Ok::<u8, IntErrorKind>(v as u8),
{
    reveal_with_fuel(digit_prefix_len, 2);
    reveal_with_fuel(dec_value, 2);
    let t = seq![digit_char(v)];
    assert(dec_body(t) == t);
    assert(t.skip(1) =~= Seq::<u8>::empty());
    assert(digit_prefix_len(t) == 1);
    assert(t.take(1) =~= t);
    assert(t.drop_last() =~= Seq::<u8>::empty());
}

/// A cookie whose version numbers are below 100 and whose log mode is below
/// 10 takes `COOKIE_SIZE` bytes on the wire.
pub proof fn lemma_cookie_wire_size(c: CookieData)
    requires
        c.version.major < 100,
        c.version.minor < 100,
        c.log_mode_value() < 10,
    ensures
        c.wire_spec().len() == COOKIE_SIZE,
{
    lemma_two_digit_roundtrip(c.version.major as nat);
    lemma_two_digit_roundtrip(c.version.minor as nat);
    lemma_one_digit_roundtrip(c.log_mode_value() as nat);
}

/// Reading back the wire form of a cookie gives its version and log mode
/// (with zero for a missing log mode), when the version numbers are below
/// 100 and the log mode is below 10.  The whole `COOKIE_SIZE` bytes,
/// padding included, are consumed; whatever follows stays.
pub proof fn lemma_cookie_roundtrip(c: CookieData, rest: Seq<u8>)
    requires
        c.version.major < 100,
        c.version.minor < 100,
        c.log_mode_value() < 10,
    ensures
        cookie_parse_spec(c.wire_spec() + rest) == Some(
            (CookieData { version: c.version, log_mode: Some(c.log_mode_value()) }, 24nat),
        ),
{
    let major = c.version.major as nat;
    let minor = c.version.minor as nat;
    let mode = c.log_mode_value() as nat;
    lemma_two_digit_roundtrip(major);
    lemma_two_digit_roundtrip(minor);
    lemma_one_digit_roundtrip(mode);
    let s = c.wire_spec() + rest;
    let p = magic_prefix_spec();
    assert(p.len() == 11);
    assert(s.take(11) =~= p);
    assert(s.subrange(11, 13) =~= dec_text_min2(major));
    assert(s.subrange(14, 16) =~= dec_text_min2(minor));
    assert(s.subrange(18, 19) =~= dec_text(mode));
    assert(s[13] == 46u8);
    assert(s[16] == 32u8);
    assert(s[17] == 32u8);
}


/// Decimal digits read back as the value they were written from.
pub proof fn lemma_dec_value_of_text(v: nat)
    ensures
        dec_value(dec_text(v)) == v,
    decreases v,
{
    let t = dec_text(v);
    if v < 10 {
        assert(t.drop_last() =~= Seq::<u8>::empty());
        assert(dec_value(t.drop_last()) == 0);
        assert(t.last() == digit_char(v));
        assert(digit_char(v) == 48 + v);
    } else {
        lemma_dec_value_of_text(v / 10);
        assert(t.drop_last() =~= dec_text(v / 10));
        assert(t.last() == digit_char(v % 10));
        assert(digit_char(v % 10) == 48 + v % 10);
        assert((v / 10) * 10 + v % 10 == v) by (nonlinear_arith);
    }
}

/// A cookie's log mode is what its text ends with: for a log mode `m`
/// below 10 (and version numbers below 100) the text ends with the digit of
/// `m`, and reading back the wire form gives the cookie itself, log mode
/// `Some(m)` included, taking `COOKIE_SIZE` bytes.
pub proof fn lemma_cookie_log_mode_written(c: CookieData, m: u8, rest: Seq<u8>)
    requires
        c.log_mode == Some(m),
        m < 10,
        c.version.major < 100,
        c.version.minor < 100,
    ensures
        c.text_spec().last() == 48 + m,
        c.wire_spec().len() == COOKIE_SIZE,
        cookie_parse_spec(c.wire_spec() + rest) == Some((c, 24nat)),
{
    lemma_cookie_wire_size(c);
    lemma_cookie_roundtrip(c, rest);
    lemma_one_digit_roundtrip(m as nat);
}

} // verus!
