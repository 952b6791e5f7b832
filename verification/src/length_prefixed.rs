//! Strings on the wire: a 32-bit big-endian length, the characters, and a
//! null terminator.
use crate::byte_buffer::{bytes_as_slice, bytes_copy_from_slice, bytes_len, bytes_split_to, bytes_view};
use crate::encoding::u32_wire;
use crate::wire::{
    has_room, has_room_spec, lemma_u32_wire_parse, u32_parse, Buffer, BufferError, BytesRequired,
    ParseProblem, Unbuffer, UnbufferError,
};
use bytes::Bytes;
use vstd::prelude::*;

verus! {

/// Does the length prefix count the trailing null character (strlen + 1)?
#[derive(Debug, Copy, Clone, PartialEq, Eq, Structural, Hash)]
pub enum LengthBehavior {
    /// The length is strlen + 1.
    IncludeNull,
    /// The length is strlen.
    ExcludeNull,
}

/// Is a null character written after the string?
#[derive(Debug, Copy, Clone, PartialEq, Eq, Structural, Hash)]
pub enum NullTermination {
    /// A null byte follows the string.
    AddTrailingNull,
    /// Nothing follows the string.
    NoNull,
}

/// Number of terminator bytes written for `termination`.
pub open spec fn terminator_len(termination: NullTermination) -> nat {
    match termination {
        NullTermination::AddTrailingNull => 1,
        NullTermination::NoNull => 0,
    }
}

/// The value of the length prefix for a string of `len` characters.
pub open spec fn length_prefix_value(
    len: nat,
    termination: NullTermination,
    null_in_len: LengthBehavior,
) -> nat {
    if termination == NullTermination::AddTrailingNull && null_in_len
        == LengthBehavior::IncludeNull {
        len + 1
    } else {
        len
    }
}

/// The wire form of a length-prefixed string.
pub open spec fn length_prefixed_wire(
    s: Seq<u8>,
    termination: NullTermination,
    null_in_len: LengthBehavior,
) -> Seq<u8> {
    u32_wire(length_prefix_value(s.len(), termination, null_in_len) as u32) + s + Seq::new(
        terminator_len(termination),
        |i: int| 0u8,
    )
}

/// Size needed to buffer a string, with its length prefix and terminator.
pub fn buffer_size(s: &[u8], termination: NullTermination) -> (r: usize)
    requires
        s@.len() + 5 <= usize::MAX,
    ensures
        r == 4 + s@.len() + terminator_len(termination),
{
    4 + s.len() + match termination {
        NullTermination::NoNull => 0,
        NullTermination::AddTrailingNull => 1,
    }
}

/// Appends a string, preceded by its length and followed by the terminator
/// that `termination` asks for, if the vector has room for all of it.
pub fn buffer_string(
    s: &[u8],
    buf: &mut Vec<u8>,
    termination: NullTermination,
    null_in_len: LengthBehavior,
) -> (r: Result<(), BufferError>)
    requires
        s@.len() < u32::MAX,
        s@.len() + 5 <= usize::MAX,
    ensures
        r is Ok <==> has_room_spec(old(buf)@.len(), 4 + s@.len() + terminator_len(termination)),
        r is Ok ==> final(buf)@ == old(buf)@ + length_prefixed_wire(s@, termination, null_in_len),
        r is Err ==> r == Err::<(), BufferError>(BufferError::OutOfBuffer) && final(buf)@ == old(
            buf,
        )@,
{
    let total = buffer_size(s, termination);
    if !has_room(buf, total) {
        return Err(BufferError::OutOfBuffer);
    }
    let n = s.len();
    let len_value: u32 = if termination == NullTermination::AddTrailingNull && null_in_len
        == LengthBehavior::IncludeNull {
        (n + 1) as u32
    } else {
        n as u32
    };
    let ghost start = buf@;
    let _ = len_value.buffer_ref(buf);
    let ghost prefix_end = buf@;
    let mut i: usize = 0;
    while i < n
        invariant
            i <= n == s@.len(),
            buf@ == prefix_end + s@.take(i as int),
        decreases n - i,
    {
        buf.push(s[i]);
        i = i + 1;
        assert(buf@ =~= prefix_end + s@.take(i as int));
    }
    assert(s@.take(n as int) =~= s@);
    if termination == NullTermination::AddTrailingNull {
        buf.push(0u8);
    }
    assert(buf@ =~= start + length_prefixed_wire(s@, termination, null_in_len));
    Ok(())
}

/// The outcome of reading a length-prefixed string from the front of `s`.
pub enum StringParse {
    /// The characters, and the number of bytes taken.
    Parsed(Seq<u8>, nat),
    /// More bytes are needed.
    NeedMore(BytesRequired),
    /// The length prefix is zero, leaving no room for the terminator.
    ZeroLength,
    /// The byte where the terminator belongs is not null.
    BadTerminator(u8),
}

/// Reading a string whose length prefix counts its null terminator.
pub open spec fn string_parse(s: Seq<u8>) -> StringParse {
    if s.len() < 4 {
        StringParse::NeedMore(BytesRequired::AtLeast((4 - s.len()) as usize))
    } else {
        let n = u32_parse(s) as nat;
        if s.len() - 4 < n {
            StringParse::NeedMore(BytesRequired::Exactly((n - (s.len() - 4)) as usize))
        } else if n == 0 {
            StringParse::ZeroLength
        } else if s[4 + n - 1] != 0u8 {
            StringParse::BadTerminator(s[4 + n - 1])
        } else {
            StringParse::Parsed(s.subrange(4, 4 + n - 1), 4 + n)
        }
    }
}

/// Reads a string preceded by its length (which counts the terminator) and
/// followed by a null byte.  On success the whole string, prefix and
/// terminator are consumed; on error nothing is.
pub fn unbuffer_string(buf: &mut Bytes) -> (r: Result<Bytes, UnbufferError>)
    ensures
        ({
            let s = bytes_view(*old(buf));
            match string_parse(s) {
                StringParse::Parsed(v, n) => {
                    &&& r matches Ok(b) && bytes_view(b) == v
                    &&& bytes_view(*final(buf)) == s.skip(n as int)
                },
                StringParse::NeedMore(n) => {
                    &&& r == Err::<Bytes, UnbufferError>(UnbufferError::NeedMoreData(n))
                    &&& bytes_view(*final(buf)) == s
                },
                StringParse::ZeroLength => {
                    &&& r == Err::<Bytes, UnbufferError>(
                        UnbufferError::ParseError(ParseProblem::ZeroLengthString),
                    )
                    &&& bytes_view(*final(buf)) == s
                },
                StringParse::BadTerminator(c) => {
                    &&& r matches Err(UnbufferError::UnexpectedAsciiData { actual, expected })
                        && bytes_view(actual) == seq![c] && bytes_view(expected) == seq![0u8]
                    &&& bytes_view(*final(buf)) == s
                },
            }
        }),
{
    let ghost s = bytes_view(*buf);
    let mut work = buf.clone();
    let n = match u32::unbuffer_ref(&mut work) {
        Ok(v) => v as usize,
        Err(_) => {
            let len = bytes_len(buf);
            return Err(UnbufferError::NeedMoreData(BytesRequired::AtLeast(4 - len)));
        },
    };
    let remaining = bytes_len(&work);
    if remaining < n {
        return Err(UnbufferError::NeedMoreData(BytesRequired::Exactly(n - remaining)));
    }
    if n == 0 {
        return Err(UnbufferError::ParseError(ParseProblem::ZeroLengthString));
    }
    let chars = bytes_split_to(&mut work, n - 1);
    let terminator = bytes_split_to(&mut work, 1);
    let t = bytes_as_slice(&terminator);
    assert(t@[0] == s[4 + n - 1]);
    if t[0] != 0u8 {
        let zero: &[u8] = &[0u8];
        let expected = bytes_copy_from_slice(zero);
        assert(t@ =~= seq![s[4 + n - 1]]);
        assert(zero@ =~= seq![0u8]);
        return Err(UnbufferError::UnexpectedAsciiData { actual: terminator, expected });
    }
    assert(bytes_view(chars) =~= s.subrange(4, 4 + n - 1));
    assert(bytes_view(work) =~= s.skip(4 + n));
    *buf = work;
    Ok(chars)
}

/// Reading back a string buffered with a counted null terminator, followed
/// by anything, gives the string and takes exactly its wire form.
pub proof fn lemma_string_roundtrip(s: Seq<u8>, rest: Seq<u8>)
    requires
        s.len() < u32::MAX,
    ensures
        string_parse(
            length_prefixed_wire(s, NullTermination::AddTrailingNull, LengthBehavior::IncludeNull)
                + rest,
        ) == StringParse::Parsed(s, s.len() + 5),
        (length_prefixed_wire(s, NullTermination::AddTrailingNull, LengthBehavior::IncludeNull)
            + rest).skip(s.len() + 5int) == rest,
{
    let w = length_prefixed_wire(s, NullTermination::AddTrailingNull, LengthBehavior::IncludeNull);
    let tail = s + seq![0u8] + rest;
    lemma_u32_wire_parse((s.len() + 1) as u32, tail);
    assert(Seq::new(1, |i: int| 0u8) =~= seq![0u8]);
    assert(w + rest =~= u32_wire((s.len() + 1) as u32) + tail);
    assert((w + rest).subrange(4, 4 + s.len() as int) =~= s);
    assert((w + rest).skip(s.len() + 5int) =~= rest);
}

} // verus!
