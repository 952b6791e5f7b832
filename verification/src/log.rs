//! Logging: the log mode flags of the handshake cookie, and the names of the
//! incoming and outgoing log files that a log description message carries.
use crate::byte_buffer::{bytes_as_slice, bytes_len, bytes_split_to, bytes_view};
use crate::encoding::{i32_wire, lemma_pow256_values, to_unsigned, u32_wire};
use crate::wire::{
    has_room, has_room_spec, lemma_i32_wire_parse, lemma_u32_wire_parse, u32_parse, Buffer, BufferError, BufferSize,
    BytesRequired, Unbuffer, UnbufferError,
};
use bytes::Bytes;
use vstd::prelude::*;

verus! {

/// Which directions of traffic are logged.
#[derive(Debug, Clone, Copy, PartialEq, Eq, Structural, Hash)]
pub struct LogMode {
    /// Flag bits: incoming is bit 0, outgoing is bit 1.
    pub bits: u8,
}

impl LogMode {
    /// No logging.
    pub fn none() -> (r: LogMode)
        ensures
            r.bits == 0,
    {
        LogMode { bits: 0 }
    }

    /// Logging of incoming traffic.
    pub fn incoming() -> (r: LogMode)
        ensures
            r.bits == 1,
    {
        LogMode { bits: 1 }
    }

    /// Logging of outgoing traffic.
    pub fn outgoing() -> (r: LogMode)
        ensures
            r.bits == 2,
    {
        LogMode { bits: 2 }
    }

    /// Logging of both directions.
    pub fn incoming_outgoing() -> (r: LogMode)
        ensures
            r.bits == 3,
    {
        LogMode { bits: 3 }
    }

    /// Whether nothing is logged.
    pub fn is_none(&self) -> (r: bool)
        ensures
            r == (self.bits == 0),
    {
        self.bits == 0
    }

    /// Whether both directions are logged.
    pub fn is_all(&self) -> (r: bool)
        ensures
            r == (self.bits == 3),
    {
        self.bits == 3
    }

    /// Whether every flag of `other` is set here.
    pub fn contains(&self, other: LogMode) -> (r: bool)
        ensures
            r == (self.bits & other.bits == other.bits),
    {
        self.bits & other.bits == other.bits
    }

    /// A description of the mode in words.
    pub fn to_string(&self) -> (r: String)
        ensures
            r@ == log_mode_words(self.bits),
    {
        if self.is_none() {
            String::from_str("no logging")
        } else if self.is_all() {
            String::from_str("incoming and outgoing logging")
        } else if self.contains(LogMode::incoming()) {
            String::from_str("incoming logging")
        } else if self.contains(LogMode::outgoing()) {
            String::from_str("outgoing logging")
        } else {
            String::from_str("unrecognized logging")
        }
    }
}

/// The words that describe a log mode.
pub open spec fn log_mode_words(bits: u8) -> Seq<char> {
    if bits == 0 {
        "no logging"@
    } else if bits == 3 {
        "incoming and outgoing logging"@
    } else if bits & 1 == 1 {
        "incoming logging"@
    } else if bits & 2 == 2 {
        "outgoing logging"@
    } else {
        "unrecognized logging"@
    }
}

/// The names of the incoming and outgoing log files.  An empty name stands
/// for no file.
#[derive(Debug, Clone)]
pub struct LogFileNames {
    /// The incoming log file name.
    pub in_log_file: Option<Bytes>,
    /// The outgoing log file name.
    pub out_log_file: Option<Bytes>,
}

/// The bytes of an optional name, an absent name being empty.
pub open spec fn name_or_empty(name: Option<Bytes>) -> Seq<u8> {
    match name {
        Some(b) => bytes_view(b),
        None => Seq::empty(),
    }
}

/// Whether an optional name is present and not empty.
pub open spec fn has_name(name: Option<Bytes>) -> bool {
    name matches Some(b) && bytes_view(b).len() > 0
}

/// An empty name becomes no name; other values are kept.
pub fn make_log_name(name: Option<Bytes>) -> (r: Option<Bytes>)
    ensures
        has_name(name) ==> r == name,
        !has_name(name) ==> r is None,
{
    match name {
        None => None,
        Some(name_str) => {
            if bytes_len(&name_str) > 0 {
                Some(name_str)
            } else {
                None
            }
        },
    }
}

impl LogFileNames {
    /// No log files.
    pub fn new() -> (r: LogFileNames)
        ensures
            r.in_log_file is None,
            r.out_log_file is None,
    {
        LogFileNames { in_log_file: None, out_log_file: None }
    }

    /// Log files with the given names; an empty name becomes no name.
    pub fn from_names(in_log_file: Option<Bytes>, out_log_file: Option<Bytes>) -> (r: LogFileNames)
        ensures
            has_name(in_log_file) ==> r.in_log_file == in_log_file,
            !has_name(in_log_file) ==> r.in_log_file is None,
            has_name(out_log_file) ==> r.out_log_file == out_log_file,
            !has_name(out_log_file) ==> r.out_log_file is None,
    {
        LogFileNames {
            out_log_file: make_log_name(out_log_file),
            in_log_file: make_log_name(in_log_file),
        }
    }

    /// The incoming log file name.
    pub fn in_log(&self) -> (r: &Option<Bytes>)
        ensures
            *r == self.in_log_file,
    {
        &self.in_log_file
    }

    /// The outgoing log file name.
    pub fn out_log(&self) -> (r: &Option<Bytes>)
        ensures
            *r == self.out_log_file,
    {
        &self.out_log_file
    }

    /// The bytes of the incoming name (empty when absent).
    pub open spec fn in_name(self) -> Seq<u8> {
        name_or_empty(self.in_log_file)
    }

    /// The bytes of the outgoing name (empty when absent).
    pub open spec fn out_name(self) -> Seq<u8> {
        name_or_empty(self.out_log_file)
    }

    /// The wire form: both name lengths (four bytes each, big-endian), then
    /// each name followed by a null byte.
    pub open spec fn wire_spec(self) -> Seq<u8> {
        i32_wire(self.in_name().len() as i32) + i32_wire(self.out_name().len() as i32)
            + self.in_name() + seq![0u8] + self.out_name() + seq![0u8]
    }
}

/// The length of an optional name.
fn filename_len(filename: &Option<Bytes>) -> (r: usize)
    ensures
        r == name_or_empty(*filename).len(),
{
    match filename {
        Some(name) => bytes_len(name),
        None => 0,
    }
}

/// Appends the bytes of an optional name and a null byte.
fn push_name(buf: &mut Vec<u8>, filename: &Option<Bytes>)
    ensures
        final(buf)@ == old(buf)@ + name_or_empty(*filename) + seq![0u8],
{
    let ghost start = buf@;
    if let Some(name) = filename {
        let s = bytes_as_slice(name);
        let n = s.len();
        let mut i: usize = 0;
        while i < n
            invariant
                i <= n == s@.len(),
                buf@ == start + s@.take(i as int),
            decreases n - i,
        {
            buf.push(s[i]);
            i = i + 1;
            assert(buf@ =~= start + s@.take(i as int));
        }
        assert(s@.take(n as int) =~= s@);
    }
    buf.push(0u8);
    assert(buf@ =~= start + name_or_empty(*filename) + seq![0u8]);
}

impl BufferSize for LogFileNames {
    /// Both lengths, both names and both terminators (saturating).
    fn buffer_size(&self) -> (r: usize)
        ensures
            self.in_name().len() + self.out_name().len() + 10 <= usize::MAX ==> r
                == self.in_name().len() + self.out_name().len() + 10,
            self.in_name().len() + self.out_name().len() + 10 > usize::MAX ==> r == usize::MAX,
    {
        let a = filename_len(&self.in_log_file);
        let b = filename_len(&self.out_log_file);
        if a > usize::MAX - 10 || b > usize::MAX - 10 - a {
            usize::MAX
        } else {
            a + b + 10
        }
    }
}

impl Buffer for LogFileNames {
    open spec fn buffered(&self) -> Seq<u8> {
        self.wire_spec()
    }

    open spec fn bufferable(&self) -> bool {
        true
    }

    /// Appends the wire form, if there is room for all of it.  Each length is
    /// written as a signed 32-bit value.
    fn buffer_ref(&self, buf: &mut Vec<u8>) -> (r: Result<(), BufferError>)
        ensures
            r is Ok <==> has_room_spec(
                old(buf)@.len(),
                self.in_name().len() + self.out_name().len() + 10,
            ),
            r is Ok ==> final(buf)@ == old(buf)@ + self.wire_spec(),
            r is Err ==> final(buf)@ == old(buf)@ && r == Err::<(), BufferError>(
                BufferError::OutOfBuffer,
            ),
    {
        let a = filename_len(&self.in_log_file);
        let b = filename_len(&self.out_log_file);
        proof {
            lemma_i32_wire_parse(a as i32, Seq::empty());
            lemma_i32_wire_parse(b as i32, Seq::empty());
        }
        if a > usize::MAX - 10 || b > usize::MAX - 10 - a || !has_room(buf, a + b + 10) {
            return Err(BufferError::OutOfBuffer);
        }
        let ghost start = buf@;
        let a32 = #[verifier::truncate] (a as i32);
        let b32 = #[verifier::truncate] (b as i32);
        proof {
            lemma_i32_wire_parse(a32, Seq::empty());
        }
        let _ = a32.buffer_ref(buf);
        let _ = b32.buffer_ref(buf);
        push_name(buf, &self.in_log_file);
        push_name(buf, &self.out_log_file);
        assert(buf@ =~= start + self.wire_spec());
        Ok(())
    }
}

/// The outcome of reading log file names from the front of `s`.
pub enum LogNamesParse {
    /// The two names (empty when absent), and the number of bytes taken.
    Parsed(Seq<u8>, Seq<u8>, nat),
    /// More bytes are needed.
    NeedMore(BytesRequired),
    /// The byte where a name's terminator belongs is not null.
    BadTerminator(u8),
}

/// `x` as a `usize`, saturating at `usize::MAX`.
pub open spec fn sat_usize(x: int) -> usize {
    if x > usize::MAX {
        usize::MAX
    } else {
        x as usize
    }
}

/// Reading log file names: two lengths, then each name and its terminator.
pub open spec fn log_names_parse(s: Seq<u8>) -> LogNamesParse {
    if s.len() < 10 {
        LogNamesParse::NeedMore(BytesRequired::AtLeast((10 - s.len()) as usize))
    } else {
        let a = u32_parse(s) as int;
        let b = u32_parse(s.skip(4)) as int;
        let first_end = 8 + a + 1;
        let second_end = first_end + b + 1;
        if s.len() < first_end {
            LogNamesParse::NeedMore(BytesRequired::Exactly(sat_usize(first_end - s.len())))
        } else if s[8 + a] != 0u8 {
            LogNamesParse::BadTerminator(s[8 + a])
        } else if s.len() < second_end {
            LogNamesParse::NeedMore(BytesRequired::Exactly(sat_usize(second_end - s.len())))
        } else if s[first_end + b] != 0u8 {
            LogNamesParse::BadTerminator(s[first_end + b])
        } else {
            LogNamesParse::Parsed(
                s.subrange(8, 8 + a),
                s.subrange(first_end, first_end + b),
                second_end as nat,
            )
        }
    }
}

/// Reads one name of `len` bytes and its null terminator.  A zero length
/// stands for no name.
fn unbuffer_logname(len: usize, buf: &mut Bytes) -> (r: Result<Option<Bytes>, UnbufferError>)
    ensures
        ({
            let s = bytes_view(*old(buf));
            if s.len() < len + 1 {
                &&& r == Err::<Option<Bytes>, UnbufferError>(
                    UnbufferError::NeedMoreData(BytesRequired::Exactly(sat_usize(len + 1 - s.len()))),
                )
                &&& bytes_view(*final(buf)) == s
            } else if s[len as int] != 0u8 {
                &&& r matches Err(UnbufferError::UnexpectedAsciiData { actual, expected })
                    && bytes_view(actual) == seq![s[len as int]] && bytes_view(expected) == seq![0u8]
                &&& bytes_view(*final(buf)) == s.skip(len + 1)
            } else {
                &&& r matches Ok(name) && name_or_empty(name) == s.take(len as int)
                    && (name is Some <==> len > 0)
                &&& bytes_view(*final(buf)) == s.skip(len + 1)
            }
        }),
{
    let ghost s = bytes_view(*buf);
    let n = bytes_len(buf);
    if n == 0 {
        let needed = if len == usize::MAX {
            usize::MAX
        } else {
            len + 1
        };
        return Err(UnbufferError::NeedMoreData(BytesRequired::Exactly(needed)));
    }
    if n - 1 < len {
        return Err(UnbufferError::NeedMoreData(BytesRequired::Exactly(len - (n - 1))));
    }
    let name = if len > 0 {
        Some(bytes_split_to(buf, len))
    } else {
        assert(s.take(0) =~= Seq::<u8>::empty());
        None
    };
    let nul: &[u8] = &[0u8];
    assert(nul@ =~= seq![0u8]);
    let t = bytes_split_to(buf, 1);
    assert(bytes_view(t) =~= seq![s[len as int]]);
    assert(s.skip(len as int).skip(1) =~= s.skip(len + 1));
    if bytes_as_slice(&t)[0] != 0u8 {
        return Err(
            UnbufferError::UnexpectedAsciiData {
                actual: t,
                expected: crate::byte_buffer::bytes_copy_from_slice(nul),
            },
        );
    }
    Ok(name)
}

impl Unbuffer for LogFileNames {
    open spec fn parses(s: Seq<u8>) -> bool {
        log_names_parse(s) is Parsed
    }

    open spec fn parses_as(s: Seq<u8>, v: LogFileNames) -> bool {
        log_names_parse(s) matches LogNamesParse::Parsed(a, b, _) && v.in_name() == a
            && v.out_name() == b && (v.in_log_file is Some <==> a.len() > 0) && (v.out_log_file
            is Some <==> b.len() > 0)
    }

    open spec fn consumed(s: Seq<u8>) -> nat {
        match log_names_parse(s) {
            LogNamesParse::Parsed(_, _, n) => n,
            _ => 0,
        }
    }

    open spec fn needs_more(s: Seq<u8>) -> Option<BytesRequired> {
        match log_names_parse(s) {
            LogNamesParse::NeedMore(n) => Some(n),
            _ => None,
        }
    }

    /// Reads log file names.  On success the whole wire form is consumed; on
    /// error nothing is.
    fn unbuffer_ref(buf: &mut Bytes) -> (r: Result<LogFileNames, UnbufferError>)
        ensures
            ({
                let s = bytes_view(*old(buf));
                match log_names_parse(s) {
                    LogNamesParse::Parsed(a, b, n) => {
                        &&& r matches Ok(v) && v.in_name() == a && v.out_name() == b
                            && (v.in_log_file is Some <==> a.len() > 0) && (v.out_log_file is Some
                            <==> b.len() > 0)
                        &&& bytes_view(*final(buf)) == s.skip(n as int)
                    },
                    LogNamesParse::NeedMore(n) => {
                        &&& r == Err::<LogFileNames, UnbufferError>(UnbufferError::NeedMoreData(n))
                        &&& bytes_view(*final(buf)) == s
                    },
                    LogNamesParse::BadTerminator(c) => {
                        &&& r matches Err(UnbufferError::UnexpectedAsciiData { actual, expected })
                            && bytes_view(actual) == seq![c] && bytes_view(expected) == seq![0u8]
                        &&& bytes_view(*final(buf)) == s
                    },
                }
            }),
    {
        let ghost s = bytes_view(*buf);
        let len = bytes_len(buf);
        if len < 10 {
            return Err(UnbufferError::NeedMoreData(BytesRequired::AtLeast(10 - len)));
        }
        let mut work = buf.clone();
        let in_len = match u32::unbuffer_ref(&mut work) {
            Ok(v) => v as usize,
            Err(e) => return Err(e),
        };
        let out_len = match u32::unbuffer_ref(&mut work) {
            Ok(v) => v as usize,
            Err(e) => return Err(e),
        };
        assert(bytes_view(work) =~= s.skip(8));
        let ghost w1 = bytes_view(work);
        let in_name = match unbuffer_logname(in_len, &mut work) {
            Ok(v) => v,
            Err(e) => return Err(e),
        };
        assert(w1.skip(in_len + 1) =~= s.skip(8 + in_len + 1));
        let ghost w2 = bytes_view(work);
        let out_name = match unbuffer_logname(out_len, &mut work) {
            Ok(v) => v,
            Err(e) => {
                return Err(e);
            },
        };
        proof {
            assert(w1.take(in_len as int) =~= s.subrange(8, 8 + in_len as int));
            assert(w2.take(out_len as int) =~= s.subrange(
                8 + in_len + 1,
                8 + in_len + 1 + out_len,
            ));
            assert(w2.skip(out_len + 1) =~= s.skip(8 + in_len + 1 + out_len + 1));
        }
        *buf = work;
        Ok(LogFileNames { in_log_file: in_name, out_log_file: out_name })
    }
}

/// Reading log file names back from their wire form, followed by anything,
/// gives the same names and takes exactly the wire form, when each name is
/// shorter than 2^31 bytes.
pub proof fn lemma_log_names_roundtrip(v: LogFileNames, rest: Seq<u8>)
    requires
        v.in_name().len() <= i32::MAX,
        v.out_name().len() <= i32::MAX,
    ensures
        log_names_parse(v.wire_spec() + rest) == LogNamesParse::Parsed(
            v.in_name(),
            v.out_name(),
            v.wire_spec().len(),
        ),
        (v.wire_spec() + rest).skip(v.wire_spec().len() as int) == rest,
{
    let a = v.in_name();
    let b = v.out_name();
    lemma_pow256_values();
    assert(to_unsigned(a.len() as i32 as int, 4) == a.len());
    assert(to_unsigned(b.len() as i32 as int, 4) == b.len());
    assert(i32_wire(a.len() as i32) == u32_wire(a.len() as u32));
    assert(i32_wire(b.len() as i32) == u32_wire(b.len() as u32));
    let tail = a + seq![0u8] + b + seq![0u8] + rest;
    let s = v.wire_spec() + rest;
    assert(s =~= u32_wire(a.len() as u32) + (u32_wire(b.len() as u32) + tail));
    lemma_u32_wire_parse(a.len() as u32, u32_wire(b.len() as u32) + tail);
    lemma_u32_wire_parse(b.len() as u32, tail);
    assert(s.skip(4) =~= u32_wire(b.len() as u32) + tail);
    assert(s.subrange(8, 8 + a.len() as int) =~= a);
    assert(s.subrange(8 + a.len() + 1int, 8 + a.len() + 1int + b.len()) =~= b);
    assert(s.skip(v.wire_spec().len() as int) =~= rest);
}

} // verus!
