//! Reports of the tracker device class.  Floating-point values are held as
//! their IEEE 754 bit patterns, which is also how they travel on the wire.
use crate::byte_buffer::bytes_view;
use crate::encoding::{
    be_value, i32_wire, lemma_be_bytes_len, lemma_be_prefix, lemma_be_value_of_bytes,
    lemma_pow256_values, to_unsigned, u64_wire,
};
use crate::message::{MessageTypeIdentifier, MessageTypeIdentity, TypedMessageBody};
use crate::types::StaticTypeName;
use crate::wire::{
    check_unbuffer_remaining, has_room, has_room_spec, i32_parse, lemma_i32_wire_parse, u64_parse,
    Buffer, BufferError, BufferSize, BytesRequired, ConstantBufferSize, Unbuffer, UnbufferError,
};
use bytes::Bytes;
use vstd::prelude::*;

verus! {

/// A sensor of a tracker.
#[derive(Debug, Clone, Copy, PartialEq, Eq, Structural, Hash)]
pub struct Sensor(pub i32);

/// A 3-vector of `f64` values, as bit patterns.
#[derive(Debug, Clone, Copy, PartialEq, Eq, Structural, Hash)]
pub struct Vec3 {
    /// Bits of x.
    pub x: u64,
    /// Bits of y.
    pub y: u64,
    /// Bits of z.
    pub z: u64,
}

/// A quaternion of `f64` values (vector part, then scalar), as bit patterns.
#[derive(Debug, Clone, Copy, PartialEq, Eq, Structural, Hash)]
pub struct Quat {
    /// Bits of x.
    pub x: u64,
    /// Bits of y.
    pub y: u64,
    /// Bits of z.
    pub z: u64,
    /// Bits of w.
    pub w: u64,
}

/// Position and orientation of a sensor.
#[derive(Debug, Clone, Copy, PartialEq, Eq, Structural)]
pub struct PoseReport {
    /// The sensor.
    pub sensor: Sensor,
    /// The position.
    pub pos: Vec3,
    /// The orientation.
    pub quat: Quat,
}

/// Linear and angular velocity of a sensor.
#[derive(Debug, Clone, Copy, PartialEq, Eq, Structural)]
pub struct VelocityReport {
    /// The sensor.
    pub sensor: Sensor,
    /// The velocity.
    pub vel: Vec3,
    /// The angular velocity, as a rotation over `vel_quat_dt`.
    pub vel_quat: Quat,
    /// Bits of the time span of `vel_quat`.
    pub vel_quat_dt: u64,
}

/// Linear and angular acceleration of a sensor.
#[derive(Debug, Clone, Copy, PartialEq, Eq, Structural)]
pub struct AccelReport {
    /// The sensor.
    pub sensor: Sensor,
    /// The acceleration.
    pub acc: Vec3,
    /// The angular acceleration, as a rotation over `acc_quat_dt`.
    pub acc_quat: Quat,
    /// Bits of the time span of `acc_quat`.
    pub acc_quat_dt: u64,
}

/// The name of the pose message type.
pub open spec fn pose_type_name() -> Seq<u8> {
    seq![118u8, 114u8, 112u8, 110u8, 95u8, 84u8, 114u8, 97u8, 99u8, 107u8, 101u8, 114u8, 32u8, 80u8, 111u8, 115u8, 95u8, 81u8, 117u8, 97u8, 116u8]
}

/// The name of the velocity message type.
pub open spec fn velocity_type_name() -> Seq<u8> {
    seq![118u8, 114u8, 112u8, 110u8, 95u8, 84u8, 114u8, 97u8, 99u8, 107u8, 101u8, 114u8, 32u8, 86u8, 101u8, 108u8, 111u8, 99u8, 105u8, 116u8, 121u8]
}

/// The name of the acceleration message type.
pub open spec fn accel_type_name() -> Seq<u8> {
    seq![118u8, 114u8, 112u8, 110u8, 95u8, 84u8, 114u8, 97u8, 99u8, 107u8, 101u8, 114u8, 32u8, 65u8, 99u8, 99u8, 101u8, 108u8, 101u8, 114u8, 97u8, 116u8, 105u8, 111u8, 110u8]
}

impl TypedMessageBody for PoseReport {
    open spec fn type_identity() -> MessageTypeIdentity {
        MessageTypeIdentity::UserMessageName(pose_type_name())
    }

    fn message_identifier() -> (r: MessageTypeIdentifier) {
        let n: &'static [u8] = &[118u8, 114u8, 112u8, 110u8, 95u8, 84u8, 114u8, 97u8, 99u8, 107u8, 101u8, 114u8, 32u8, 80u8, 111u8, 115u8, 95u8, 81u8, 117u8, 97u8, 116u8];
        assert(n@ =~= pose_type_name());
        MessageTypeIdentifier::UserMessageName(StaticTypeName(n))
    }
}

impl TypedMessageBody for VelocityReport {
    open spec fn type_identity() -> MessageTypeIdentity {
        MessageTypeIdentity::UserMessageName(velocity_type_name())
    }

    fn message_identifier() -> (r: MessageTypeIdentifier) {
        let n: &'static [u8] = &[118u8, 114u8, 112u8, 110u8, 95u8, 84u8, 114u8, 97u8, 99u8, 107u8, 101u8, 114u8, 32u8, 86u8, 101u8, 108u8, 111u8, 99u8, 105u8, 116u8, 121u8];
        assert(n@ =~= velocity_type_name());
        MessageTypeIdentifier::UserMessageName(StaticTypeName(n))
    }
}

impl TypedMessageBody for AccelReport {
    open spec fn type_identity() -> MessageTypeIdentity {
        MessageTypeIdentity::UserMessageName(accel_type_name())
    }

    fn message_identifier() -> (r: MessageTypeIdentifier) {
        let n: &'static [u8] = &[118u8, 114u8, 112u8, 110u8, 95u8, 84u8, 114u8, 97u8, 99u8, 107u8, 101u8, 114u8, 32u8, 65u8, 99u8, 99u8, 101u8, 108u8, 101u8, 114u8, 97u8, 116u8, 105u8, 111u8, 110u8];
        assert(n@ =~= accel_type_name());
        MessageTypeIdentifier::UserMessageName(StaticTypeName(n))
    }
}

impl PoseReport {
    /// The wire form: the sensor twice (the second time as padding), the
    /// position and the orientation, all big-endian.
    pub open spec fn wire_spec(self) -> Seq<u8> {
        i32_wire(self.sensor.0) + i32_wire(self.sensor.0) + u64_wire(self.pos.x) + u64_wire(
            self.pos.y,
        ) + u64_wire(self.pos.z) + u64_wire(self.quat.x) + u64_wire(self.quat.y) + u64_wire(
            self.quat.z,
        ) + u64_wire(self.quat.w)
    }
}

/// The pose report at the front of `s` (which must hold 64 bytes).
pub open spec fn pose_parse(s: Seq<u8>) -> PoseReport {
    PoseReport {
        sensor: Sensor(i32_parse(s)),
        pos: Vec3 { x: u64_parse(s.skip(8)), y: u64_parse(s.skip(16)), z: u64_parse(s.skip(24)) },
        quat: Quat {
            x: u64_parse(s.skip(32)),
            y: u64_parse(s.skip(40)),
            z: u64_parse(s.skip(48)),
            w: u64_parse(s.skip(56)),
        },
    }
}

impl ConstantBufferSize for PoseReport {
    fn constant_buffer_size() -> (r: usize)
        ensures
            r == 64,
    {
        64
    }
}

impl BufferSize for PoseReport {
    fn buffer_size(&self) -> (r: usize)
        ensures
            r == 64,
    {
        64
    }
}

/// The wire form of a `u64`, followed by anything, reads back as the value.
pub proof fn lemma_u64_wire_parse(v: u64, rest: Seq<u8>)
    ensures
        u64_wire(v).len() == 8,
        u64_parse(u64_wire(v) + rest) == v,
        (u64_wire(v) + rest).skip(8) == rest,
{
    lemma_pow256_values();
    lemma_be_prefix(v as nat, 8, rest);
}

impl Buffer for PoseReport {
    open spec fn buffered(&self) -> Seq<u8> {
        self.wire_spec()
    }

    open spec fn bufferable(&self) -> bool {
        true
    }

    /// Appends the wire form, if there is room for all 64 bytes.
    fn buffer_ref(&self, buf: &mut Vec<u8>) -> (r: Result<(), BufferError>)
        ensures
            r is Ok <==> has_room_spec(old(buf)@.len(), 64),
            r is Ok ==> final(buf)@ == old(buf)@ + self.wire_spec(),
            r is Err ==> final(buf)@ == old(buf)@ && r == Err::<(), BufferError>(
                BufferError::OutOfBuffer,
            ),
    {
        proof {
            lemma_pose_roundtrip(*self, Seq::empty());
        }
        if !has_room(buf, 64) {
            return Err(BufferError::OutOfBuffer);
        }
        proof {
            lemma_i32_wire_parse(self.sensor.0, Seq::empty());
            lemma_u64_wire_parse(self.pos.x, Seq::empty());
            lemma_u64_wire_parse(self.pos.y, Seq::empty());
            lemma_u64_wire_parse(self.pos.z, Seq::empty());
            lemma_u64_wire_parse(self.quat.x, Seq::empty());
            lemma_u64_wire_parse(self.quat.y, Seq::empty());
            lemma_u64_wire_parse(self.quat.z, Seq::empty());
            lemma_u64_wire_parse(self.quat.w, Seq::empty());
        }
        let ghost start = buf@;
        let _ = self.sensor.0.buffer_ref(buf);
        let _ = self.sensor.0.buffer_ref(buf);
        let _ = self.pos.x.buffer_ref(buf);
        let _ = self.pos.y.buffer_ref(buf);
        let _ = self.pos.z.buffer_ref(buf);
        let _ = self.quat.x.buffer_ref(buf);
        let _ = self.quat.y.buffer_ref(buf);
        let _ = self.quat.z.buffer_ref(buf);
        let _ = self.quat.w.buffer_ref(buf);
        assert(buf@ =~= start + self.wire_spec());
        Ok(())
    }
}

impl Unbuffer for PoseReport {
    open spec fn parses(s: Seq<u8>) -> bool {
        s.len() >= 64
    }

    open spec fn parses_as(s: Seq<u8>, v: PoseReport) -> bool {
        v == pose_parse(s)
    }

    open spec fn consumed(s: Seq<u8>) -> nat {
        64
    }

    open spec fn needs_more(s: Seq<u8>) -> Option<BytesRequired> {
        if s.len() < 64 {
            Some(BytesRequired::Exactly((64 - s.len()) as usize))
        } else {
            None
        }
    }

    /// Reads a pose report.  With fewer than 64 bytes nothing is consumed.
    fn unbuffer_ref(buf: &mut Bytes) -> (r: Result<PoseReport, UnbufferError>)
        ensures
            ({
                let s = bytes_view(*old(buf));
                &&& s.len() >= 64 ==> r == Ok::<PoseReport, UnbufferError>(pose_parse(s))
                    && bytes_view(*final(buf)) == s.skip(64)
                &&& s.len() < 64 ==> r == Err::<PoseReport, UnbufferError>(
                    UnbufferError::NeedMoreData(BytesRequired::Exactly((64 - s.len()) as usize)),
                ) && bytes_view(*final(buf)) == s
            }),
    {
        let ghost s = bytes_view(*buf);
        match check_unbuffer_remaining(buf, 64) {
            Ok(()) => {},
            Err(e) => return Err(e),
        }
        let sensor = match i32::unbuffer_ref(buf) {
            Ok(v) => v,
            Err(e) => return Err(e),
        };
        let _ = i32::unbuffer_ref(buf);
        let x = match u64::unbuffer_ref(buf) {
            Ok(v) => v,
            Err(e) => return Err(e),
        };
        let y = match u64::unbuffer_ref(buf) {
            Ok(v) => v,
            Err(e) => return Err(e),
        };
        let z = match u64::unbuffer_ref(buf) {
            Ok(v) => v,
            Err(e) => return Err(e),
        };
        let qx = match u64::unbuffer_ref(buf) {
            Ok(v) => v,
            Err(e) => return Err(e),
        };
        let qy = match u64::unbuffer_ref(buf) {
            Ok(v) => v,
            Err(e) => return Err(e),
        };
        let qz = match u64::unbuffer_ref(buf) {
            Ok(v) => v,
            Err(e) => return Err(e),
        };
        let qw = match u64::unbuffer_ref(buf) {
            Ok(v) => v,
            Err(e) => return Err(e),
        };
        proof {
            assert(s.skip(4).skip(4) =~= s.skip(8));
            assert(s.skip(8).skip(8) =~= s.skip(16));
            assert(s.skip(16).skip(8) =~= s.skip(24));
            assert(s.skip(24).skip(8) =~= s.skip(32));
            assert(s.skip(32).skip(8) =~= s.skip(40));
            assert(s.skip(40).skip(8) =~= s.skip(48));
            assert(s.skip(48).skip(8) =~= s.skip(56));
            assert(s.skip(56).skip(8) =~= s.skip(64));
        }
        Ok(
            PoseReport {
                sensor: Sensor(sensor),
                pos: Vec3 { x, y, z },
                quat: Quat { x: qx, y: qy, z: qz, w: qw },
            },
        )
    }
}

/// Reading a pose report back from its wire form, followed by anything,
/// gives the same report and leaves what follows.
pub proof fn lemma_pose_roundtrip(p: PoseReport, rest: Seq<u8>)
    ensures
        p.wire_spec().len() == 64,
        pose_parse(p.wire_spec() + rest) == p,
        (p.wire_spec() + rest).skip(64) == rest,
{
    let s = p.wire_spec() + rest;
    let a = i32_wire(p.sensor.0);
    let b = u64_wire(p.pos.x);
    let c = u64_wire(p.pos.y);
    let d = u64_wire(p.pos.z);
    let e = u64_wire(p.quat.x);
    let f = u64_wire(p.quat.y);
    let g = u64_wire(p.quat.z);
    let h = u64_wire(p.quat.w);
    lemma_u64_wire_parse(p.quat.w, rest);
    lemma_u64_wire_parse(p.quat.z, h + rest);
    lemma_u64_wire_parse(p.quat.y, g + (h + rest));
    lemma_u64_wire_parse(p.quat.x, f + (g + (h + rest)));
    lemma_u64_wire_parse(p.pos.z, e + (f + (g + (h + rest))));
    lemma_u64_wire_parse(p.pos.y, d + (e + (f + (g + (h + rest)))));
    lemma_u64_wire_parse(p.pos.x, c + (d + (e + (f + (g + (h + rest))))));
    let t8 = b + (c + (d + (e + (f + (g + (h + rest))))));
    lemma_i32_wire_parse(p.sensor.0, t8);
    lemma_i32_wire_parse(p.sensor.0, a + t8);
    assert(s =~= a + (a + t8));
    assert(s.skip(8) =~= t8);
    assert(s.skip(16) =~= c + (d + (e + (f + (g + (h + rest))))));
    assert(s.skip(24) =~= d + (e + (f + (g + (h + rest)))));
    assert(s.skip(32) =~= e + (f + (g + (h + rest))));
    assert(s.skip(40) =~= f + (g + (h + rest)));
    assert(s.skip(48) =~= g + (h + rest));
    assert(s.skip(56) =~= h + rest);
    assert(s.skip(64) =~= rest);
}


/// Where each field of a pose report stands on the wire: the sensor at
/// bytes 0..4 and again at 4..8, then `pos.x`, `pos.y`, `pos.z`, `quat.x`,
/// `quat.y`, `quat.z`, `quat.w`, eight bytes each from byte 8, each reading
/// back (big-endian) as the field.
pub proof fn lemma_pose_wire_layout(p: PoseReport)
    ensures
        ({
            let w = p.wire_spec();
            &&& w.len() == 64
            &&& w.subrange(0, 4) == i32_wire(p.sensor.0)
            &&& w.subrange(4, 8) == i32_wire(p.sensor.0)
            &&& w.subrange(8, 16) == u64_wire(p.pos.x)
            &&& w.subrange(16, 24) == u64_wire(p.pos.y)
            &&& w.subrange(24, 32) == u64_wire(p.pos.z)
            &&& w.subrange(32, 40) == u64_wire(p.quat.x)
            &&& w.subrange(40, 48) == u64_wire(p.quat.y)
            &&& w.subrange(48, 56) == u64_wire(p.quat.z)
            &&& w.subrange(56, 64) == u64_wire(p.quat.w)
            &&& be_value(w.subrange(8, 16)) == p.pos.x
            &&& be_value(w.subrange(16, 24)) == p.pos.y
            &&& be_value(w.subrange(24, 32)) == p.pos.z
            &&& be_value(w.subrange(32, 40)) == p.quat.x
            &&& be_value(w.subrange(40, 48)) == p.quat.y
            &&& be_value(w.subrange(48, 56)) == p.quat.z
            &&& be_value(w.subrange(56, 64)) == p.quat.w
        }),
{
    lemma_pow256_values();
    lemma_be_bytes_len(to_unsigned(p.sensor.0 as int, 4), 4);
    let vals = seq![p.pos.x, p.pos.y, p.pos.z, p.quat.x, p.quat.y, p.quat.z, p.quat.w];
    lemma_be_bytes_len(p.pos.x as nat, 8);
    lemma_be_bytes_len(p.pos.y as nat, 8);
    lemma_be_bytes_len(p.pos.z as nat, 8);
    lemma_be_bytes_len(p.quat.x as nat, 8);
    lemma_be_bytes_len(p.quat.y as nat, 8);
    lemma_be_bytes_len(p.quat.z as nat, 8);
    lemma_be_bytes_len(p.quat.w as nat, 8);
    lemma_be_value_of_bytes(p.pos.x as nat, 8);
    lemma_be_value_of_bytes(p.pos.y as nat, 8);
    lemma_be_value_of_bytes(p.pos.z as nat, 8);
    lemma_be_value_of_bytes(p.quat.x as nat, 8);
    lemma_be_value_of_bytes(p.quat.y as nat, 8);
    lemma_be_value_of_bytes(p.quat.z as nat, 8);
    lemma_be_value_of_bytes(p.quat.w as nat, 8);
    let w = p.wire_spec();
    let a = i32_wire(p.sensor.0);
    assert(w.subrange(0, 4) =~= a);
    assert(w.subrange(4, 8) =~= a);
    assert(w.subrange(8, 16) =~= u64_wire(p.pos.x));
    assert(w.subrange(16, 24) =~= u64_wire(p.pos.y));
    assert(w.subrange(24, 32) =~= u64_wire(p.pos.z));
    assert(w.subrange(32, 40) =~= u64_wire(p.quat.x));
    assert(w.subrange(40, 48) =~= u64_wire(p.quat.y));
    assert(w.subrange(48, 56) =~= u64_wire(p.quat.z));
    assert(w.subrange(56, 64) =~= u64_wire(p.quat.w));
}

} // verus!
