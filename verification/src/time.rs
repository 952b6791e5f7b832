//! Timestamps as carried in message headers.
use crate::byte_buffer::bytes_view;
use crate::encoding::{i32_wire, lemma_be_bytes_len, to_unsigned};
use crate::wire::{
    check_unbuffer_remaining, has_room_spec, i32_parse, Buffer, BufferError, BufferSize,
    BytesRequired, ConstantBufferSize, UnbufferError, Unbuffer, check_buffer_remaining,
    lemma_i32_wire_parse,
};
use bytes::Bytes;
use core::time::Duration;
use std::time::SystemTime;
use vstd::prelude::*;

verus! {

#[verifier::external_type_specification]
#[verifier::external_body]
pub struct ExSystemTime(std::time::SystemTime);

/// Whole seconds.
#[derive(Debug, Clone, Copy, PartialEq, Eq, Structural, PartialOrd, Ord, Hash)]
pub struct Seconds(pub i32);

/// Microseconds.
#[derive(Debug, Clone, Copy, PartialEq, Eq, Structural, PartialOrd, Ord, Hash)]
pub struct Microseconds(pub i32);

/// A time as seconds and microseconds since the Unix epoch.
#[derive(Debug, Clone, Copy, PartialEq, Eq, Structural, PartialOrd, Ord, Hash)]
pub struct TimeVal {
    /// Seconds part.
    pub sec: Seconds,
    /// Microseconds part.
    pub usec: Microseconds,
}

/// Calls `SystemTime::now`; nothing is claimed of the result, which depends on
/// the clock.
#[verifier::external_body]
fn system_time_now() -> SystemTime {
    SystemTime::now()
}

/// Calls `SystemTime::duration_since` with the Unix epoch; the result depends
/// on the clock, so nothing is claimed of it (`None` when the time is before
/// the epoch).
#[verifier::external_body]
fn duration_since_unix_epoch(t: SystemTime) -> Option<Duration> {
    t.duration_since(SystemTime::UNIX_EPOCH).ok()
}

/// Calls `Duration::as_secs`; nothing is claimed beyond its type.
#[verifier::external_body]
fn duration_as_secs(d: &Duration) -> u64 {
    d.as_secs()
}

/// Calls `Duration::subsec_micros`; the contract claims, as its documentation
/// does, that the result is below one million.
#[verifier::external_body]
fn duration_subsec_micros(d: &Duration) -> (r: u32)
    ensures
        r < 1000000,
{
    d.subsec_micros()
}

impl TimeVal {
    /// Makes a time from its parts (no normalization is done).
    pub fn new(sec: Seconds, usec: Microseconds) -> (r: TimeVal)
        ensures
            r.sec == sec,
            r.usec == usec,
    {
        TimeVal { sec, usec }
    }

    /// Gets the seconds part.
    pub fn seconds(&self) -> (r: Seconds)
        ensures
            r == self.sec,
    {
        self.sec
    }

    /// Gets the microseconds part.
    pub fn microseconds(&self) -> (r: Microseconds)
        ensures
            r == self.usec,
    {
        self.usec
    }

    /// The time of a duration since the epoch, given as whole seconds and
    /// microseconds; the seconds are truncated to 32 bits.
    pub fn from_epoch_parts(secs: u64, micros: u32) -> (r: TimeVal)
        requires
            micros < 1000000,
        ensures
            r.sec == Seconds(secs as i32),
            r.usec == Microseconds(micros as i32),
    {
        TimeVal::new(Seconds(#[verifier::truncate] (secs as i32)), Microseconds(micros as i32))
    }

    /// The current time of day.  A clock set before the epoch gives the epoch.
    pub fn get_time_of_day() -> (r: TimeVal)
        ensures
            0 <= r.usec.0 < 1000000,
    {
        let now = system_time_now();
        match duration_since_unix_epoch(now) {
            Some(d) => TimeVal::from_epoch_parts(duration_as_secs(&d), duration_subsec_micros(&d)),
            None => TimeVal::default(),
        }
    }

    /// The wire form: seconds then microseconds, each a big-endian `i32`.
    pub open spec fn wire_spec(self) -> Seq<u8> {
        i32_wire(self.sec.0) + i32_wire(self.usec.0)
    }
}

/// The time read from the first 8 bytes of `s`.
pub open spec fn timeval_parse(s: Seq<u8>) -> TimeVal {
    TimeVal { sec: Seconds(i32_parse(s)), usec: Microseconds(i32_parse(s.skip(4))) }
}

impl Default for TimeVal {
    fn default() -> (r: TimeVal)
        ensures
            r.sec == Seconds(0),
            r.usec == Microseconds(0),
    {
        TimeVal::new(Seconds(0), Microseconds(0))
    }
}

impl ConstantBufferSize for TimeVal {
    fn constant_buffer_size() -> (r: usize)
        ensures
            r == 8,
    {
        8
    }
}

impl BufferSize for TimeVal {
    fn buffer_size(&self) -> (r: usize)
        ensures
            r == 8,
    {
        8
    }
}

impl Buffer for TimeVal {
    open spec fn buffered(&self) -> Seq<u8> {
        self.wire_spec()
    }

    open spec fn bufferable(&self) -> bool {
        true
    }

    fn buffer_ref(&self, buf: &mut Vec<u8>) -> (r: Result<(), BufferError>)
        ensures
            r is Ok <==> has_room_spec(old(buf)@.len(), 8),
            r is Ok ==> final(buf)@ == old(buf)@ + self.wire_spec(),
            r is Err ==> final(buf)@ == old(buf)@,
    {
        proof {
            lemma_timeval_wire_parse(*self, Seq::empty());
        }
        check_buffer_remaining(buf, 8)?;
        proof {
            lemma_be_bytes_len(to_unsigned(self.sec.0 as int, 4), 4);
        }
        let ghost start = buf@;
        self.sec.0.buffer_ref(buf)?;
        self.usec.0.buffer_ref(buf)?;
        assert(buf@ =~= start + self.wire_spec());
        Ok(())
    }
}

impl Unbuffer for TimeVal {
    open spec fn parses(s: Seq<u8>) -> bool {
        s.len() >= 8
    }

    open spec fn parses_as(s: Seq<u8>, v: TimeVal) -> bool {
        v == timeval_parse(s)
    }

    open spec fn consumed(s: Seq<u8>) -> nat {
        8
    }

    open spec fn needs_more(s: Seq<u8>) -> Option<BytesRequired> {
        if s.len() < 8 {
            Some(BytesRequired::Exactly((8 - s.len()) as usize))
        } else {
            None
        }
    }

    /// Reads a time; with fewer than 8 bytes nothing is consumed.
    fn unbuffer_ref(buf: &mut Bytes) -> (r: Result<TimeVal, UnbufferError>)
        ensures
            ({
                let s = bytes_view(*old(buf));
                if s.len() >= 8 {
                    &&& r == Ok::<TimeVal, UnbufferError>(timeval_parse(s))
                    &&& bytes_view(*final(buf)) == s.skip(8)
                } else {
                    &&& r == Err::<TimeVal, UnbufferError>(
                        UnbufferError::NeedMoreData(BytesRequired::Exactly((8 - s.len()) as usize)),
                    )
                    &&& bytes_view(*final(buf)) == s
                }
            }),
    {
        check_unbuffer_remaining(buf, 8)?;
        let ghost s = bytes_view(*buf);
        let sec = match i32::unbuffer_ref(buf) {
            Ok(v) => v,
            Err(e) => return Err(e),
        };
        let usec = match i32::unbuffer_ref(buf) {
            Ok(v) => v,
            Err(e) => return Err(e),
        };
        assert(s.skip(4).skip(4) =~= s.skip(8));
        Ok(TimeVal::new(Seconds(sec), Microseconds(usec)))
    }
}

/// Reading a time back from its wire form, followed by anything, gives the
/// time and leaves what follows.
pub proof fn lemma_timeval_wire_parse(t: TimeVal, rest: Seq<u8>)
    ensures
        t.wire_spec().len() == 8,
        (t.wire_spec() + rest).len() >= 8,
        timeval_parse(t.wire_spec() + rest) == t,
        (t.wire_spec() + rest).skip(8) == rest,
{
    let a = i32_wire(t.sec.0);
    let b = i32_wire(t.usec.0);
    lemma_i32_wire_parse(t.usec.0, rest);
    lemma_i32_wire_parse(t.sec.0, b + rest);
    assert(t.wire_spec() + rest =~= a + (b + rest));
    assert((a + (b + rest)).skip(8) =~= (b + rest).skip(4));
}

} // verus!
