//! Errors, size requirements and the traits for moving values to and from the
//! wire, with the fixed-size integer encodings.
use crate::byte_buffer::{
    bytes_as_slice, bytes_copy_from_slice, bytes_len, bytes_split_to, bytes_view, slices_equal,
};
use crate::encoding::{
    be_bytes, be_value, from_unsigned, i16_wire, i32_wire, i64_wire, i8_wire, lemma_be_bytes_len,
    lemma_be_prefix, lemma_be_value_bound, lemma_pow256_monotone, lemma_pow256_values,
    lemma_signed_roundtrip, lemma_unsigned_roundtrip, pow256, push_be, read_be, to_unsigned,
    u16_wire, u32_wire, u64_wire, u8_wire,
};
use crate::cookie::{dec_text, lemma_signed_dec_text_ascii, push_decimal};
use crate::text::{ascii_string, ascii_view, is_ascii_bytes, lemma_ascii_concat};
use bytes::Bytes;
use vstd::prelude::*;

verus! {

/// How many more bytes an unbuffering operation needs before it can succeed.
#[derive(Debug, Copy, Clone, Hash, PartialEq, Eq, Structural, PartialOrd, Ord)]
pub enum BytesRequired {
    /// Exactly this many more bytes.
    Exactly(usize),
    /// At least this many more bytes.
    AtLeast(usize),
    /// An unknown number of bytes.
    Unknown,
}

impl BytesRequired {
    /// The requirement in words, such as `at least 4`.
    pub open spec fn words(self) -> Seq<char> {
        match self {
            BytesRequired::Exactly(n) => "exactly "@ + ascii_view(dec_text(n as nat)),
            BytesRequired::AtLeast(n) => "at least "@ + ascii_view(dec_text(n as nat)),
            BytesRequired::Unknown => "unknown"@,
        }
    }

    /// The requirement in words, such as `at least 4`.
    pub fn to_string(&self) -> (r: String)
        ensures
            r@ == self.words(),
    {
        let (mut text, n): (Vec<u8>, usize) = match *self {
            BytesRequired::Exactly(n) => {
                let t: Vec<u8> = vec![101u8, 120u8, 97u8, 99u8, 116u8, 108u8, 121u8, 32u8];
                proof {
                    reveal_strlit("exactly ");
                    assert(ascii_view(t@) =~= "exactly "@);
                }
                (t, n)
            },
            BytesRequired::AtLeast(n) => {
                let t: Vec<u8> = vec![97u8, 116u8, 32u8, 108u8, 101u8, 97u8, 115u8, 116u8, 32u8];
                proof {
                    reveal_strlit("at least ");
                    assert(ascii_view(t@) =~= "at least "@);
                }
                (t, n)
            },
            BytesRequired::Unknown => {
                return String::from_str("unknown");
            },
        };
        let ghost prefix = text@;
        assert(is_ascii_bytes(prefix));
        push_decimal(&mut text, n as u64);
        proof {
            lemma_signed_dec_text_ascii(n as int);
            lemma_ascii_concat(prefix, dec_text(n as nat));
        }
        ascii_string(&text)
    }

    /// Whether a buffer of `buf_size` additional bytes meets the requirement,
    /// or `None` when the requirement is unknown.
    pub fn satisfied_by(&self, buf_size: usize) -> (r: Option<bool>)
        ensures
            r == match *self {
                BytesRequired::Exactly(c) => Some(c <= buf_size),
                BytesRequired::AtLeast(c) => Some(c <= buf_size),
                BytesRequired::Unknown => None::<bool>,
            },
    {
        match *self {
            BytesRequired::Exactly(c) => Some(c <= buf_size),
            BytesRequired::AtLeast(c) => Some(c <= buf_size),
            BytesRequired::Unknown => None,
        }
    }

    /// Turns "exactly n" into "at least n", leaving the other cases alone.
    pub fn expand(self) -> (r: BytesRequired)
        ensures
            r == match self {
                BytesRequired::Exactly(n) => BytesRequired::AtLeast(n),
                other => other,
            },
    {
        match self {
            BytesRequired::Exactly(n) => BytesRequired::AtLeast(n),
            other => other,
        }
    }

    /// The requirement of doing one thing after another: the counts add up,
    /// "exactly" only when both are exact, and unknown when either is.
    pub fn add(self, other: BytesRequired) -> (r: BytesRequired)
        requires
            self.count() + other.count() <= usize::MAX,
        ensures
            r == match (self, other) {
                (BytesRequired::Exactly(a), BytesRequired::Exactly(b)) => BytesRequired::Exactly(
                    (a + b) as usize,
                ),
                (BytesRequired::AtLeast(a), BytesRequired::Exactly(b)) => BytesRequired::AtLeast(
                    (a + b) as usize,
                ),
                (BytesRequired::Exactly(a), BytesRequired::AtLeast(b)) => BytesRequired::AtLeast(
                    (a + b) as usize,
                ),
                (BytesRequired::AtLeast(a), BytesRequired::AtLeast(b)) => BytesRequired::AtLeast(
                    (a + b) as usize,
                ),
                _ => BytesRequired::Unknown,
            },
    {
        match (self, other) {
            (BytesRequired::Exactly(a), BytesRequired::Exactly(b)) => BytesRequired::Exactly(a + b),
            (BytesRequired::AtLeast(a), BytesRequired::Exactly(b)) => BytesRequired::AtLeast(a + b),
            (BytesRequired::Exactly(a), BytesRequired::AtLeast(b)) => BytesRequired::AtLeast(a + b),
            (BytesRequired::AtLeast(a), BytesRequired::AtLeast(b)) => BytesRequired::AtLeast(a + b),
            _ => BytesRequired::Unknown,
        }
    }

    /// The byte count named by the requirement (zero when unknown).
    pub open spec fn count(self) -> nat {
        match self {
            BytesRequired::Exactly(n) => n as nat,
            BytesRequired::AtLeast(n) => n as nat,
            BytesRequired::Unknown => 0,
        }
    }
}

/// Errors while buffering (serializing).
#[derive(Debug, Copy, Clone, PartialEq, Eq, Structural)]
pub enum BufferError {
    /// The output has no room for the value.
    OutOfBuffer,
}

/// Why a decimal number could not be read.
#[derive(Debug, Copy, Clone, PartialEq, Eq, Structural)]
pub enum IntErrorKind {
    /// There were no digits.
    Empty,
    /// A character was not a decimal digit.
    InvalidDigit,
    /// The number does not fit in the target type.
    PosOverflow,
}

/// What made otherwise complete data unreadable.
#[derive(Debug, Copy, Clone, PartialEq, Eq, Structural)]
pub enum ParseProblem {
    /// The data ran out while reading something that can get no more data.
    RanOutOfData(BytesRequired),
    /// A message body was not consumed entirely by its parser.
    BodyNotConsumed { indicated: usize, remaining: usize },
    /// A message length field smaller than the padded header.
    LengthFieldTooSmall(u32),
    /// A message length field too large for this platform's buffers.
    MessageTooLarge(u32),
    /// A length-prefixed string whose length leaves no room for its terminator.
    ZeroLengthString,
}

/// Errors while unbuffering (parsing).
#[derive(Debug, Clone, PartialEq, Eq)]
pub enum UnbufferError {
    /// The buffer ran out: more data is needed.
    NeedMoreData(BytesRequired),
    /// The data did not match the fixed text that was expected there.
    UnexpectedAsciiData { actual: Bytes, expected: Bytes },
    /// A decimal number could not be read.
    ParseInt(IntErrorKind),
    /// The data is malformed.
    ParseError(ParseProblem),
}

impl UnbufferError {
    /// Turns a need for "exactly n" more bytes into a need for "at least n".
    pub fn expand_bytes_required(self) -> (r: UnbufferError)
        ensures
            r == match self {
                UnbufferError::NeedMoreData(n) => UnbufferError::NeedMoreData(
                    expand_spec(n),
                ),
                other => other,
            },
    {
        match self {
            UnbufferError::NeedMoreData(n) => UnbufferError::NeedMoreData(n.expand()),
            other => other,
        }
    }
}

/// "Exactly n" widened to "at least n".
pub open spec fn expand_spec(n: BytesRequired) -> BytesRequired {
    match n {
        BytesRequired::Exactly(c) => BytesRequired::AtLeast(c),
        other => other,
    }
}

/// Extra operations on the results of unbuffering.
pub trait OutputResultExtras<T>: Sized {
    /// Maps an error that exactly `n` more bytes are needed to one that at
    /// least `n` are, for variable-size values that start with a fixed-size
    /// field.
    fn map_exactly_err_to_at_least(self) -> Self;

    /// Maps an error that more bytes are needed to a parse error, for data
    /// that can logically get no more bytes.
    fn map_need_more_err_to_generic_parse_err(self) -> Self;
}

impl<T> OutputResultExtras<T> for Result<T, UnbufferError> {
    fn map_exactly_err_to_at_least(self) -> (out: Result<T, UnbufferError>)
        ensures
            out == match self {
                Ok(v) => Ok(v),
                Err(UnbufferError::NeedMoreData(n)) => Err(
                    UnbufferError::NeedMoreData(expand_spec(n)),
                ),
                Err(e) => Err(e),
            },
    {
        match self {
            Ok(v) => Ok(v),
            Err(e) => Err(e.expand_bytes_required()),
        }
    }

    fn map_need_more_err_to_generic_parse_err(self) -> (out: Result<T, UnbufferError>)
        ensures
            out == match self {
                Ok(v) => Ok(v),
                Err(UnbufferError::NeedMoreData(n)) => Err(
                    UnbufferError::ParseError(ParseProblem::RanOutOfData(n)),
                ),
                Err(e) => Err(e),
            },
    {
        match self {
            Ok(v) => Ok(v),
            Err(UnbufferError::NeedMoreData(n)) => Err(
                UnbufferError::ParseError(ParseProblem::RanOutOfData(n)),
            ),
            Err(e) => Err(e),
        }
    }
}

/// Types that always take the same number of bytes on the wire.
pub trait ConstantBufferSize {
    /// The number of bytes on the wire.
    fn constant_buffer_size() -> usize;
}

/// Types whose size on the wire can be computed.
pub trait BufferSize {
    /// The number of bytes needed to buffer this value.
    fn buffer_size(&self) -> usize;
}

/// Types that can be buffered (serialized) to the end of a byte vector.
pub trait Buffer: BufferSize {
    /// The wire form of this value.
    spec fn buffered(&self) -> Seq<u8>;

    /// Whether this value has a wire form at all.
    spec fn bufferable(&self) -> bool;

    /// Appends the wire form of this value, if it has one and there is room
    /// for it; otherwise leaves the vector as it was.
    fn buffer_ref(&self, buf: &mut Vec<u8>) -> (r: Result<(), BufferError>)
        ensures
            r is Ok <==> self.bufferable() && has_room_spec(old(buf)@.len(), self.buffered().len()),
            r is Ok ==> final(buf)@ == old(buf)@ + self.buffered(),
            r is Err ==> final(buf)@ == old(buf)@,
    ;
}

/// Types that can be unbuffered (parsed) from the front of a byte buffer.
pub trait Unbuffer: Sized {
    /// Whether a value can be read from the front of `s`.
    spec fn parses(s: Seq<u8>) -> bool;

    /// Whether `v` is what is read from the front of `s`.
    spec fn parses_as(s: Seq<u8>, v: Self) -> bool;

    /// How many bytes reading from the front of `s` takes.
    spec fn consumed(s: Seq<u8>) -> nat;

    /// The bytes still needed when `s` is too short to read a value from
    /// (`None` when it is long enough).
    spec fn needs_more(s: Seq<u8>) -> Option<BytesRequired>;

    /// Parses a value from the front of the buffer, advancing past it; on
    /// failure the buffer is left as it was.
    fn unbuffer_ref(buf: &mut Bytes) -> (r: Result<Self, UnbufferError>)
        ensures
            r is Ok <==> Self::parses(bytes_view(*old(buf))),
            r matches Ok(v) ==> Self::parses_as(bytes_view(*old(buf)), v) && Self::consumed(
                bytes_view(*old(buf)),
            ) <= bytes_view(*old(buf)).len() && bytes_view(*final(buf)) == bytes_view(
                *old(buf),
            ).skip(Self::consumed(bytes_view(*old(buf))) as int),
            r is Err ==> bytes_view(*final(buf)) == bytes_view(*old(buf)),
            Self::needs_more(bytes_view(*old(buf))) matches Some(n) ==> r == Err::<
                Self,
                UnbufferError,
            >(UnbufferError::NeedMoreData(n)),
    ;
}

/// Whether `n` more bytes fit in a vector that now holds `len` bytes
/// (a vector never holds more than `isize::MAX` bytes).
pub open spec fn has_room_spec(len: nat, n: nat) -> bool {
    len + n <= isize::MAX
}

/// Checks that `n` more bytes fit in the vector.
pub fn has_room(buf: &Vec<u8>, n: usize) -> (r: bool)
    ensures
        r == has_room_spec(buf@.len(), n as nat),
{
    let len = buf.len();
    len <= isize::MAX as usize && (isize::MAX as usize) - len >= n
}

/// Checks that the buffer has room for `required_len` more bytes.
pub fn check_buffer_remaining(buf: &Vec<u8>, required_len: usize) -> (r: Result<(), BufferError>)
    ensures
        r is Ok <==> has_room_spec(buf@.len(), required_len as nat),
        r is Err ==> r == Err::<(), BufferError>(BufferError::OutOfBuffer),
{
    if has_room(buf, required_len) {
        Ok(())
    } else {
        Err(BufferError::OutOfBuffer)
    }
}

/// Checks that the buffer holds at least `required_len` bytes.
pub fn check_unbuffer_remaining(buf: &Bytes, required_len: usize) -> (r: Result<(), UnbufferError>)
    ensures
        r is Ok <==> bytes_view(*buf).len() >= required_len,
        r is Err ==> r == Err::<(), UnbufferError>(
            UnbufferError::NeedMoreData(
                BytesRequired::Exactly((required_len - bytes_view(*buf).len()) as usize),
            ),
        ),
{
    let len = bytes_len(buf);
    if len < required_len {
        Err(UnbufferError::NeedMoreData(BytesRequired::Exactly(required_len - len)))
    } else {
        Ok(())
    }
}

/// Consumes the expected bytes from the front of the buffer.
///
/// With too few bytes nothing is consumed; otherwise as many bytes as
/// expected are consumed, whether they match or not.
pub fn consume_expected(buf: &mut Bytes, expected: &[u8]) -> (r: Result<(), UnbufferError>)
    ensures
        ({
            let s = bytes_view(*old(buf));
            let n = expected@.len();
            if s.len() < n {
                &&& r == Err::<(), UnbufferError>(
                    UnbufferError::NeedMoreData(BytesRequired::Exactly((n - s.len()) as usize)),
                )
                &&& bytes_view(*final(buf)) == s
            } else {
                &&& bytes_view(*final(buf)) == s.skip(n as int)
                &&& (r is Ok <==> s.take(n as int) == expected@)
                &&& (r matches Err(e) ==> e matches UnbufferError::UnexpectedAsciiData {
                    actual,
                    expected: exp,
                } && bytes_view(actual) == s.take(n as int) && bytes_view(exp) == expected@)
            }
        }),
{
    let expected_len = expected.len();
    check_unbuffer_remaining(buf, expected_len)?;
    let my_bytes = bytes_split_to(buf, expected_len);
    if slices_equal(bytes_as_slice(&my_bytes), expected) {
        Ok(())
    } else {
        Err(
            UnbufferError::UnexpectedAsciiData {
                actual: my_bytes,
                expected: bytes_copy_from_slice(expected),
            },
        )
    }
}

/// Appends the `n`-byte big-endian form of `v`, if there is room.
pub fn buffer_be(buf: &mut Vec<u8>, v: u64, n: usize) -> (r: Result<(), BufferError>)
    requires
        n <= 8,
        v < pow256(n as nat),
    ensures
        r is Ok <==> has_room_spec(old(buf)@.len(), n as nat),
        r is Ok ==> final(buf)@ == old(buf)@ + be_bytes(v as nat, n as nat),
        r is Err ==> r == Err::<(), BufferError>(BufferError::OutOfBuffer) && final(buf)@ == old(
            buf,
        )@,
{
    if !has_room(buf, n) {
        return Err(BufferError::OutOfBuffer);
    }
    push_be(buf, v, n);
    Ok(())
}

/// Reads an `n`-byte big-endian value from the front of the buffer.
///
/// With too few bytes, nothing is consumed.
pub fn unbuffer_be(buf: &mut Bytes, n: usize) -> (r: Result<u64, UnbufferError>)
    requires
        n <= 8,
    ensures
        ({
            let s = bytes_view(*old(buf));
            if s.len() >= n {
                &&& r == Ok::<u64, UnbufferError>(be_value(s.take(n as int)) as u64)
                &&& bytes_view(*final(buf)) == s.skip(n as int)
            } else {
                &&& r == Err::<u64, UnbufferError>(
                    UnbufferError::NeedMoreData(BytesRequired::Exactly((n - s.len()) as usize)),
                )
                &&& bytes_view(*final(buf)) == s
            }
        }),
{
    let len = bytes_len(buf);
    if len < n {
        return Err(UnbufferError::NeedMoreData(BytesRequired::Exactly(n - len)));
    }
    let head = bytes_split_to(buf, n);
    let sl = bytes_as_slice(&head);
    let v = read_be(sl, 0, n);
    assert(sl@.subrange(0, n as int) =~= sl@);
    Ok(v)
}

/// 256 to the power `n` as a wide integer, for `n` up to 8.
pub fn pow256_wide(n: usize) -> (r: i128)
    requires
        n <= 8,
    ensures
        r == pow256(n as nat),
{
    let mut r: i128 = 1;
    let mut i: usize = 0;
    while i < n
        invariant
            i <= n <= 8,
            r == pow256(i as nat),
        decreases n - i,
    {
        proof {
            lemma_pow256_monotone((i + 1) as nat, 8);
            lemma_pow256_values();
        }
        r = r * 256;
        i = i + 1;
    }
    r
}

/// Bit pattern of a signed value that fits in `n` bytes.
pub fn signed_to_bits(v: i64, n: usize) -> (r: u64)
    requires
        1 <= n <= 8,
        -(pow256(n as nat) / 2) <= v < pow256(n as nat) / 2,
    ensures
        r as nat == to_unsigned(v as int, n as nat),
        r < pow256(n as nat),
{
    proof {
        lemma_signed_roundtrip(v as int, n as nat);
        lemma_pow256_monotone(n as nat, 8);
        lemma_pow256_values();
    }
    let p = pow256_wide(n);
    if v >= 0 {
        v as u64
    } else {
        ((v as i128) + p) as u64
    }
}

/// Signed value of an `n`-byte bit pattern.
pub fn bits_to_signed(u: u64, n: usize) -> (r: i64)
    requires
        1 <= n <= 8,
        u < pow256(n as nat),
    ensures
        r as int == from_unsigned(u as nat, n as nat),
{
    proof {
        lemma_unsigned_roundtrip(u as nat, n as nat);
        lemma_pow256_monotone(n as nat, 8);
        lemma_pow256_values();
    }
    let p = pow256_wide(n);
    if (u as i128) < p / 2 {
        u as i64
    } else {
        ((u as i128) - p) as i64
    }
}

/// Parsed value of the first 1 wire byte(s) of `s`.
pub open spec fn u8_parse(s: Seq<u8>) -> u8 {
    be_value(s.take(1)) as u8
}

impl ConstantBufferSize for u8 {
    fn constant_buffer_size() -> (r: usize)
        ensures
            r == 1,
    {
        1
    }
}

impl BufferSize for u8 {
    fn buffer_size(&self) -> (r: usize)
        ensures
            r == 1,
    {
        1
    }
}

impl Buffer for u8 {
    open spec fn buffered(&self) -> Seq<u8> {
        u8_wire(*self)
    }

    open spec fn bufferable(&self) -> bool {
        true
    }

    fn buffer_ref(&self, buf: &mut Vec<u8>) -> (r: Result<(), BufferError>)
        ensures
            r is Ok <==> has_room_spec(old(buf)@.len(), 1),
            r is Ok ==> final(buf)@ == old(buf)@ + u8_wire(*self),
            r is Err ==> final(buf)@ == old(buf)@,
    {
        proof {
            lemma_pow256_values();
            lemma_be_bytes_len(*self as nat, 1);
        }
        let bits = *self as u64;
        buffer_be(buf, bits, 1)
    }
}

impl Unbuffer for u8 {
    open spec fn parses(s: Seq<u8>) -> bool {
        s.len() >= 1
    }

    open spec fn parses_as(s: Seq<u8>, v: u8) -> bool {
        v == u8_parse(s)
    }

    open spec fn consumed(s: Seq<u8>) -> nat {
        1
    }

    open spec fn needs_more(s: Seq<u8>) -> Option<BytesRequired> {
        if s.len() < 1 {
            Some(BytesRequired::Exactly((1 - s.len()) as usize))
        } else {
            None
        }
    }

    fn unbuffer_ref(buf: &mut Bytes) -> (r: Result<u8, UnbufferError>)
        ensures
            ({
                let s = bytes_view(*old(buf));
                if s.len() >= 1 {
                    &&& r == Ok::<u8, UnbufferError>(u8_parse(s))
                    &&& bytes_view(*final(buf)) == s.skip(1)
                } else {
                    &&& r == Err::<u8, UnbufferError>(
                        UnbufferError::NeedMoreData(BytesRequired::Exactly((1 - s.len()) as usize)),
                    )
                    &&& bytes_view(*final(buf)) == s
                }
            }),
    {
        proof {
            lemma_pow256_values();
        }
        let ghost s = bytes_view(*buf);
        match unbuffer_be(buf, 1) {
            Ok(v) => {
                proof {
                    lemma_be_value_bound(s.take(1));
                }
                Ok(v as u8)
            },
            Err(e) => Err(e),
        }
    }
}

/// Parsed value of the first 1 wire byte(s) of `s`.
pub open spec fn i8_parse(s: Seq<u8>) -> i8 {
    from_unsigned(be_value(s.take(1)), 1) as i8
}

impl ConstantBufferSize for i8 {
    fn constant_buffer_size() -> (r: usize)
        ensures
            r == 1,
    {
        1
    }
}

impl BufferSize for i8 {
    fn buffer_size(&self) -> (r: usize)
        ensures
            r == 1,
    {
        1
    }
}

impl Buffer for i8 {
    open spec fn buffered(&self) -> Seq<u8> {
        i8_wire(*self)
    }

    open spec fn bufferable(&self) -> bool {
        true
    }

    fn buffer_ref(&self, buf: &mut Vec<u8>) -> (r: Result<(), BufferError>)
        ensures
            r is Ok <==> has_room_spec(old(buf)@.len(), 1),
            r is Ok ==> final(buf)@ == old(buf)@ + i8_wire(*self),
            r is Err ==> final(buf)@ == old(buf)@,
    {
        proof {
            lemma_pow256_values();
            lemma_be_bytes_len(to_unsigned(*self as int, 1), 1);
        }
        let bits = signed_to_bits(*self as i64, 1);
        buffer_be(buf, bits, 1)
    }
}

impl Unbuffer for i8 {
    open spec fn parses(s: Seq<u8>) -> bool {
        s.len() >= 1
    }

    open spec fn parses_as(s: Seq<u8>, v: i8) -> bool {
        v == i8_parse(s)
    }

    open spec fn consumed(s: Seq<u8>) -> nat {
        1
    }

    open spec fn needs_more(s: Seq<u8>) -> Option<BytesRequired> {
        if s.len() < 1 {
            Some(BytesRequired::Exactly((1 - s.len()) as usize))
        } else {
            None
        }
    }

    fn unbuffer_ref(buf: &mut Bytes) -> (r: Result<i8, UnbufferError>)
        ensures
            ({
                let s = bytes_view(*old(buf));
                if s.len() >= 1 {
                    &&& r == Ok::<i8, UnbufferError>(i8_parse(s))
                    &&& bytes_view(*final(buf)) == s.skip(1)
                } else {
                    &&& r == Err::<i8, UnbufferError>(
                        UnbufferError::NeedMoreData(BytesRequired::Exactly((1 - s.len()) as usize)),
                    )
                    &&& bytes_view(*final(buf)) == s
                }
            }),
    {
        proof {
            lemma_pow256_values();
        }
        let ghost s = bytes_view(*buf);
        match unbuffer_be(buf, 1) {
            Ok(v) => {
                proof {
                    lemma_be_value_bound(s.take(1));
                }
                Ok(bits_to_signed(v, 1) as i8)
            },
            Err(e) => Err(e),
        }
    }
}

/// Parsed value of the first 2 wire byte(s) of `s`.
pub open spec fn u16_parse(s: Seq<u8>) -> u16 {
    be_value(s.take(2)) as u16
}

impl ConstantBufferSize for u16 {
    fn constant_buffer_size() -> (r: usize)
        ensures
            r == 2,
    {
        2
    }
}

impl BufferSize for u16 {
    fn buffer_size(&self) -> (r: usize)
        ensures
            r == 2,
    {
        2
    }
}

impl Buffer for u16 {
    open spec fn buffered(&self) -> Seq<u8> {
        u16_wire(*self)
    }

    open spec fn bufferable(&self) -> bool {
        true
    }

    fn buffer_ref(&self, buf: &mut Vec<u8>) -> (r: Result<(), BufferError>)
        ensures
            r is Ok <==> has_room_spec(old(buf)@.len(), 2),
            r is Ok ==> final(buf)@ == old(buf)@ + u16_wire(*self),
            r is Err ==> final(buf)@ == old(buf)@,
    {
        proof {
            lemma_pow256_values();
            lemma_be_bytes_len(*self as nat, 2);
        }
        let bits = *self as u64;
        buffer_be(buf, bits, 2)
    }
}

impl Unbuffer for u16 {
    open spec fn parses(s: Seq<u8>) -> bool {
        s.len() >= 2
    }

    open spec fn parses_as(s: Seq<u8>, v: u16) -> bool {
        v == u16_parse(s)
    }

    open spec fn consumed(s: Seq<u8>) -> nat {
        2
    }

    open spec fn needs_more(s: Seq<u8>) -> Option<BytesRequired> {
        if s.len() < 2 {
            Some(BytesRequired::Exactly((2 - s.len()) as usize))
        } else {
            None
        }
    }

    fn unbuffer_ref(buf: &mut Bytes) -> (r: Result<u16, UnbufferError>)
        ensures
            ({
                let s = bytes_view(*old(buf));
                if s.len() >= 2 {
                    &&& r == Ok::<u16, UnbufferError>(u16_parse(s))
                    &&& bytes_view(*final(buf)) == s.skip(2)
                } else {
                    &&& r == Err::<u16, UnbufferError>(
                        UnbufferError::NeedMoreData(BytesRequired::Exactly((2 - s.len()) as usize)),
                    )
                    &&& bytes_view(*final(buf)) == s
                }
            }),
    {
        proof {
            lemma_pow256_values();
        }
        let ghost s = bytes_view(*buf);
        match unbuffer_be(buf, 2) {
            Ok(v) => {
                proof {
                    lemma_be_value_bound(s.take(2));
                }
                Ok(v as u16)
            },
            Err(e) => Err(e),
        }
    }
}

/// Parsed value of the first 2 wire byte(s) of `s`.
pub open spec fn i16_parse(s: Seq<u8>) -> i16 {
    from_unsigned(be_value(s.take(2)), 2) as i16
}

impl ConstantBufferSize for i16 {
    fn constant_buffer_size() -> (r: usize)
        ensures
            r == 2,
    {
        2
    }
}

impl BufferSize for i16 {
    fn buffer_size(&self) -> (r: usize)
        ensures
            r == 2,
    {
        2
    }
}

impl Buffer for i16 {
    open spec fn buffered(&self) -> Seq<u8> {
        i16_wire(*self)
    }

    open spec fn bufferable(&self) -> bool {
        true
    }

    fn buffer_ref(&self, buf: &mut Vec<u8>) -> (r: Result<(), BufferError>)
        ensures
            r is Ok <==> has_room_spec(old(buf)@.len(), 2),
            r is Ok ==> final(buf)@ == old(buf)@ + i16_wire(*self),
            r is Err ==> final(buf)@ == old(buf)@,
    {
        proof {
            lemma_pow256_values();
            lemma_be_bytes_len(to_unsigned(*self as int, 2), 2);
        }
        let bits = signed_to_bits(*self as i64, 2);
        buffer_be(buf, bits, 2)
    }
}

impl Unbuffer for i16 {
    open spec fn parses(s: Seq<u8>) -> bool {
        s.len() >= 2
    }

    open spec fn parses_as(s: Seq<u8>, v: i16) -> bool {
        v == i16_parse(s)
    }

    open spec fn consumed(s: Seq<u8>) -> nat {
        2
    }

    open spec fn needs_more(s: Seq<u8>) -> Option<BytesRequired> {
        if s.len() < 2 {
            Some(BytesRequired::Exactly((2 - s.len()) as usize))
        } else {
            None
        }
    }

    fn unbuffer_ref(buf: &mut Bytes) -> (r: Result<i16, UnbufferError>)
        ensures
            ({
                let s = bytes_view(*old(buf));
                if s.len() >= 2 {
                    &&& r == Ok::<i16, UnbufferError>(i16_parse(s))
                    &&& bytes_view(*final(buf)) == s.skip(2)
                } else {
                    &&& r == Err::<i16, UnbufferError>(
                        UnbufferError::NeedMoreData(BytesRequired::Exactly((2 - s.len()) as usize)),
                    )
                    &&& bytes_view(*final(buf)) == s
                }
            }),
    {
        proof {
            lemma_pow256_values();
        }
        let ghost s = bytes_view(*buf);
        match unbuffer_be(buf, 2) {
            Ok(v) => {
                proof {
                    lemma_be_value_bound(s.take(2));
                }
                Ok(bits_to_signed(v, 2) as i16)
            },
            Err(e) => Err(e),
        }
    }
}

/// Parsed value of the first 4 wire byte(s) of `s`.
pub open spec fn u32_parse(s: Seq<u8>) -> u32 {
    be_value(s.take(4)) as u32
}

impl ConstantBufferSize for u32 {
    fn constant_buffer_size() -> (r: usize)
        ensures
            r == 4,
    {
        4
    }
}

impl BufferSize for u32 {
    fn buffer_size(&self) -> (r: usize)
        ensures
            r == 4,
    {
        4
    }
}

impl Buffer for u32 {
    open spec fn buffered(&self) -> Seq<u8> {
        u32_wire(*self)
    }

    open spec fn bufferable(&self) -> bool {
        true
    }

    fn buffer_ref(&self, buf: &mut Vec<u8>) -> (r: Result<(), BufferError>)
        ensures
            r is Ok <==> has_room_spec(old(buf)@.len(), 4),
            r is Ok ==> final(buf)@ == old(buf)@ + u32_wire(*self),
            r is Err ==> final(buf)@ == old(buf)@,
    {
        proof {
            lemma_pow256_values();
            lemma_be_bytes_len(*self as nat, 4);
        }
        let bits = *self as u64;
        buffer_be(buf, bits, 4)
    }
}

impl Unbuffer for u32 {
    open spec fn parses(s: Seq<u8>) -> bool {
        s.len() >= 4
    }

    open spec fn parses_as(s: Seq<u8>, v: u32) -> bool {
        v == u32_parse(s)
    }

    open spec fn consumed(s: Seq<u8>) -> nat {
        4
    }

    open spec fn needs_more(s: Seq<u8>) -> Option<BytesRequired> {
        if s.len() < 4 {
            Some(BytesRequired::Exactly((4 - s.len()) as usize))
        } else {
            None
        }
    }

    fn unbuffer_ref(buf: &mut Bytes) -> (r: Result<u32, UnbufferError>)
        ensures
            ({
                let s = bytes_view(*old(buf));
                if s.len() >= 4 {
                    &&& r == Ok::<u32, UnbufferError>(u32_parse(s))
                    &&& bytes_view(*final(buf)) == s.skip(4)
                } else {
                    &&& r == Err::<u32, UnbufferError>(
                        UnbufferError::NeedMoreData(BytesRequired::Exactly((4 - s.len()) as usize)),
                    )
                    &&& bytes_view(*final(buf)) == s
                }
            }),
    {
        proof {
            lemma_pow256_values();
        }
        let ghost s = bytes_view(*buf);
        match unbuffer_be(buf, 4) {
            Ok(v) => {
                proof {
                    lemma_be_value_bound(s.take(4));
                }
                Ok(v as u32)
            },
            Err(e) => Err(e),
        }
    }
}

/// Parsed value of the first 4 wire byte(s) of `s`.
pub open spec fn i32_parse(s: Seq<u8>) -> i32 {
    from_unsigned(be_value(s.take(4)), 4) as i32
}

impl ConstantBufferSize for i32 {
    fn constant_buffer_size() -> (r: usize)
        ensures
            r == 4,
    {
        4
    }
}

impl BufferSize for i32 {
    fn buffer_size(&self) -> (r: usize)
        ensures
            r == 4,
    {
        4
    }
}

impl Buffer for i32 {
    open spec fn buffered(&self) -> Seq<u8> {
        i32_wire(*self)
    }

    open spec fn bufferable(&self) -> bool {
        true
    }

    fn buffer_ref(&self, buf: &mut Vec<u8>) -> (r: Result<(), BufferError>)
        ensures
            r is Ok <==> has_room_spec(old(buf)@.len(), 4),
            r is Ok ==> final(buf)@ == old(buf)@ + i32_wire(*self),
            r is Err ==> final(buf)@ == old(buf)@,
    {
        proof {
            lemma_pow256_values();
            lemma_be_bytes_len(to_unsigned(*self as int, 4), 4);
        }
        let bits = signed_to_bits(*self as i64, 4);
        buffer_be(buf, bits, 4)
    }
}

impl Unbuffer for i32 {
    open spec fn parses(s: Seq<u8>) -> bool {
        s.len() >= 4
    }

    open spec fn parses_as(s: Seq<u8>, v: i32) -> bool {
        v == i32_parse(s)
    }

    open spec fn consumed(s: Seq<u8>) -> nat {
        4
    }

    open spec fn needs_more(s: Seq<u8>) -> Option<BytesRequired> {
        if s.len() < 4 {
            Some(BytesRequired::Exactly((4 - s.len()) as usize))
        } else {
            None
        }
    }

    fn unbuffer_ref(buf: &mut Bytes) -> (r: Result<i32, UnbufferError>)
        ensures
            ({
                let s = bytes_view(*old(buf));
                if s.len() >= 4 {
                    &&& r == Ok::<i32, UnbufferError>(i32_parse(s))
                    &&& bytes_view(*final(buf)) == s.skip(4)
                } else {
                    &&& r == Err::<i32, UnbufferError>(
                        UnbufferError::NeedMoreData(BytesRequired::Exactly((4 - s.len()) as usize)),
                    )
                    &&& bytes_view(*final(buf)) == s
                }
            }),
    {
        proof {
            lemma_pow256_values();
        }
        let ghost s = bytes_view(*buf);
        match unbuffer_be(buf, 4) {
            Ok(v) => {
                proof {
                    lemma_be_value_bound(s.take(4));
                }
                Ok(bits_to_signed(v, 4) as i32)
            },
            Err(e) => Err(e),
        }
    }
}

/// Parsed value of the first 8 wire byte(s) of `s`.
pub open spec fn u64_parse(s: Seq<u8>) -> u64 {
    be_value(s.take(8)) as u64
}

impl ConstantBufferSize for u64 {
    fn constant_buffer_size() -> (r: usize)
        ensures
            r == 8,
    {
        8
    }
}

impl BufferSize for u64 {
    fn buffer_size(&self) -> (r: usize)
        ensures
            r == 8,
    {
        8
    }
}

impl Buffer for u64 {
    open spec fn buffered(&self) -> Seq<u8> {
        u64_wire(*self)
    }

    open spec fn bufferable(&self) -> bool {
        true
    }

    fn buffer_ref(&self, buf: &mut Vec<u8>) -> (r: Result<(), BufferError>)
        ensures
            r is Ok <==> has_room_spec(old(buf)@.len(), 8),
            r is Ok ==> final(buf)@ == old(buf)@ + u64_wire(*self),
            r is Err ==> final(buf)@ == old(buf)@,
    {
        proof {
            lemma_pow256_values();
            lemma_be_bytes_len(*self as nat, 8);
        }
        let bits = *self as u64;
        buffer_be(buf, bits, 8)
    }
}

impl Unbuffer for u64 {
    open spec fn parses(s: Seq<u8>) -> bool {
        s.len() >= 8
    }

    open spec fn parses_as(s: Seq<u8>, v: u64) -> bool {
        v == u64_parse(s)
    }

    open spec fn consumed(s: Seq<u8>) -> nat {
        8
    }

    open spec fn needs_more(s: Seq<u8>) -> Option<BytesRequired> {
        if s.len() < 8 {
            Some(BytesRequired::Exactly((8 - s.len()) as usize))
        } else {
            None
        }
    }

    fn unbuffer_ref(buf: &mut Bytes) -> (r: Result<u64, UnbufferError>)
        ensures
            ({
                let s = bytes_view(*old(buf));
                if s.len() >= 8 {
                    &&& r == Ok::<u64, UnbufferError>(u64_parse(s))
                    &&& bytes_view(*final(buf)) == s.skip(8)
                } else {
                    &&& r == Err::<u64, UnbufferError>(
                        UnbufferError::NeedMoreData(BytesRequired::Exactly((8 - s.len()) as usize)),
                    )
                    &&& bytes_view(*final(buf)) == s
                }
            }),
    {
        proof {
            lemma_pow256_values();
        }
        let ghost s = bytes_view(*buf);
        match unbuffer_be(buf, 8) {
            Ok(v) => {
                proof {
                    lemma_be_value_bound(s.take(8));
                }
                Ok(v as u64)
            },
            Err(e) => Err(e),
        }
    }
}

/// Parsed value of the first 8 wire byte(s) of `s`.
pub open spec fn i64_parse(s: Seq<u8>) -> i64 {
    from_unsigned(be_value(s.take(8)), 8) as i64
}

impl ConstantBufferSize for i64 {
    fn constant_buffer_size() -> (r: usize)
        ensures
            r == 8,
    {
        8
    }
}

impl BufferSize for i64 {
    fn buffer_size(&self) -> (r: usize)
        ensures
            r == 8,
    {
        8
    }
}

impl Buffer for i64 {
    open spec fn buffered(&self) -> Seq<u8> {
        i64_wire(*self)
    }

    open spec fn bufferable(&self) -> bool {
        true
    }

    fn buffer_ref(&self, buf: &mut Vec<u8>) -> (r: Result<(), BufferError>)
        ensures
            r is Ok <==> has_room_spec(old(buf)@.len(), 8),
            r is Ok ==> final(buf)@ == old(buf)@ + i64_wire(*self),
            r is Err ==> final(buf)@ == old(buf)@,
    {
        proof {
            lemma_pow256_values();
            lemma_be_bytes_len(to_unsigned(*self as int, 8), 8);
        }
        let bits = signed_to_bits(*self as i64, 8);
        buffer_be(buf, bits, 8)
    }
}

impl Unbuffer for i64 {
    open spec fn parses(s: Seq<u8>) -> bool {
        s.len() >= 8
    }

    open spec fn parses_as(s: Seq<u8>, v: i64) -> bool {
        v == i64_parse(s)
    }

    open spec fn consumed(s: Seq<u8>) -> nat {
        8
    }

    open spec fn needs_more(s: Seq<u8>) -> Option<BytesRequired> {
        if s.len() < 8 {
            Some(BytesRequired::Exactly((8 - s.len()) as usize))
        } else {
            None
        }
    }

    fn unbuffer_ref(buf: &mut Bytes) -> (r: Result<i64, UnbufferError>)
        ensures
            ({
                let s = bytes_view(*old(buf));
                if s.len() >= 8 {
                    &&& r == Ok::<i64, UnbufferError>(i64_parse(s))
                    &&& bytes_view(*final(buf)) == s.skip(8)
                } else {
                    &&& r == Err::<i64, UnbufferError>(
                        UnbufferError::NeedMoreData(BytesRequired::Exactly((8 - s.len()) as usize)),
                    )
                    &&& bytes_view(*final(buf)) == s
                }
            }),
    {
        proof {
            lemma_pow256_values();
        }
        let ghost s = bytes_view(*buf);
        match unbuffer_be(buf, 8) {
            Ok(v) => {
                proof {
                    lemma_be_value_bound(s.take(8));
                }
                Ok(bits_to_signed(v, 8) as i64)
            },
            Err(e) => Err(e),
        }
    }
}

/// Reading a `u32` back from its wire form, followed by anything, gives the
/// value and leaves what follows.
pub proof fn lemma_u32_wire_parse(v: u32, rest: Seq<u8>)
    ensures
        (u32_wire(v) + rest).len() >= 4,
        u32_wire(v).len() == 4,
        u32_parse(u32_wire(v) + rest) == v,
        (u32_wire(v) + rest).skip(4) == rest,
{
    lemma_pow256_values();
    lemma_be_prefix(v as nat, 4, rest);
}

/// Reading an `i32` back from its wire form, followed by anything, gives the
/// value and leaves what follows.
pub proof fn lemma_i32_wire_parse(v: i32, rest: Seq<u8>)
    ensures
        (i32_wire(v) + rest).len() >= 4,
        i32_wire(v).len() == 4,
        i32_parse(i32_wire(v) + rest) == v,
        (i32_wire(v) + rest).skip(4) == rest,
{
    lemma_pow256_values();
    lemma_signed_roundtrip(v as int, 4);
    lemma_be_prefix(to_unsigned(v as int, 4), 4, rest);
}

/// A value read from a buffer, with the rest of the buffer.
#[derive(Debug)]
pub struct OutputWithRemaining<T>(pub T, pub Bytes);

impl<T> OutputWithRemaining<T> {
    /// A value and the rest of its buffer.
    pub fn new(data: T, buf: Bytes) -> (r: OutputWithRemaining<T>)
        ensures
            r.0 == data,
            r.1 == buf,
    {
        OutputWithRemaining(data, buf)
    }

    /// Applies `f` to the value, keeping the rest of the buffer.
    pub fn map<V, F: FnOnce(T) -> V>(self, f: F) -> (r: OutputWithRemaining<V>)
        requires
            f.requires((self.0,)),
        ensures
            f.ensures((self.0,), r.0),
            r.1 == self.1,
    {
        let OutputWithRemaining(data, buf) = self;
        OutputWithRemaining(f(data), buf)
    }
}

} // verus!
