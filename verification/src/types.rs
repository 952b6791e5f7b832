//! Identifiers, names, sequence numbers and the class-of-service flags.
use crate::byte_buffer::{bytes_from_static, bytes_view};
use crate::wire::{
    Buffer, BufferError, BufferSize, BytesRequired, ConstantBufferSize, UnbufferError, Unbuffer, has_room_spec,
    i32_parse, u32_parse,
};
use crate::encoding::{i32_wire, u32_wire};
use bytes::Bytes;
use vstd::prelude::*;

verus! {

/// The integer wrapped by the identifier types (matches VRPN C++).
pub type IdType = i32;

/// The largest number of entries an identifier-indexed vector may hold.
pub const MAX_VEC_USIZE: usize = 2147483645usize;

/// An identifier that wraps an `IdType`.
pub trait TypeSafeId: Sized + Copy {
    /// The wrapped integer.
    spec fn id_value(self) -> IdType;

    /// Two identifiers that wrap the same integer are the same identifier.
    proof fn lemma_id_value_injective(a: Self, b: Self)
        requires
            a.id_value() == b.id_value(),
        ensures
            a == b,
    ;

    /// Gets the wrapped integer.
    fn get(&self) -> (r: IdType)
        ensures
            r == self.id_value(),
    ;

    /// Wraps an integer.
    fn new(val: IdType) -> (r: Self)
        ensures
            r.id_value() == val,
    ;
}

/// An identifier of one of the two base kinds (message type or sender),
/// each of which has a description message type.
pub trait BaseTypeSafeId: TypeSafeId {
    /// The (system) message type that describes identifiers of this kind.
    spec fn description_type_id() -> TypeId;

    /// Gets the (system) message type that describes identifiers of this kind.
    fn description_type() -> (r: TypeId)
        ensures
            r == Self::description_type_id(),
    ;
}

/// Local-side ID in the translation table.
#[derive(Debug, Clone, Copy, PartialEq, Eq, Structural, PartialOrd, Ord, Hash)]
pub struct LocalId<T>(pub T);

/// Remote-side ID in the translation table.
#[derive(Debug, Clone, Copy, PartialEq, Eq, Structural, PartialOrd, Ord, Hash)]
pub struct RemoteId<T>(pub T);

/// ID for a message type.
#[derive(Debug, Clone, Copy, PartialEq, Eq, Structural, PartialOrd, Ord, Hash)]
pub struct TypeId(pub IdType);

/// ID for a sender.
#[derive(Debug, Clone, Copy, PartialEq, Eq, Structural, PartialOrd, Ord, Hash)]
pub struct SenderId(pub IdType);

impl<T: TypeSafeId> TypeSafeId for LocalId<T> {
    open spec fn id_value(self) -> IdType {
        self.0.id_value()
    }

    proof fn lemma_id_value_injective(a: Self, b: Self) {
        T::lemma_id_value_injective(a.0, b.0);
    }

    fn get(&self) -> (r: IdType) {
        self.0.get()
    }

    fn new(val: IdType) -> (r: LocalId<T>) {
        LocalId(T::new(val))
    }
}

impl<T: TypeSafeId> TypeSafeId for RemoteId<T> {
    open spec fn id_value(self) -> IdType {
        self.0.id_value()
    }

    proof fn lemma_id_value_injective(a: Self, b: Self) {
        T::lemma_id_value_injective(a.0, b.0);
    }

    fn get(&self) -> (r: IdType) {
        self.0.get()
    }

    fn new(val: IdType) -> (r: RemoteId<T>) {
        RemoteId(T::new(val))
    }
}

impl TypeSafeId for TypeId {
    open spec fn id_value(self) -> IdType {
        self.0
    }

    proof fn lemma_id_value_injective(a: Self, b: Self) {
    }

    fn get(&self) -> (r: IdType) {
        self.0
    }

    fn new(val: IdType) -> (r: TypeId) {
        TypeId(val)
    }
}

impl BaseTypeSafeId for TypeId {
    open spec fn description_type_id() -> TypeId {
        TypeId(crate::constants::TYPE_DESCRIPTION)
    }

    fn description_type() -> (r: TypeId)
        ensures
            r == TypeId(crate::constants::TYPE_DESCRIPTION),
    {
        TypeId(crate::constants::TYPE_DESCRIPTION)
    }
}

impl TypeId {
    /// Identifies if this is a system message type (negative ID).
    ///
    /// If false, it is a normal (user) message type.
    pub fn is_system_message(&self) -> (r: bool)
        ensures
            r == (self.0 < 0),
    {
        self.0 < 0
    }
}

impl TypeSafeId for SenderId {
    open spec fn id_value(self) -> IdType {
        self.0
    }

    proof fn lemma_id_value_injective(a: Self, b: Self) {
    }

    fn get(&self) -> (r: IdType) {
        self.0
    }

    fn new(val: IdType) -> (r: SenderId) {
        SenderId(val)
    }
}

impl BaseTypeSafeId for SenderId {
    open spec fn description_type_id() -> TypeId {
        TypeId(crate::constants::SENDER_DESCRIPTION)
    }

    fn description_type() -> (r: TypeId)
        ensures
            r == TypeId(crate::constants::SENDER_DESCRIPTION),
    {
        TypeId(crate::constants::SENDER_DESCRIPTION)
    }
}

/// Wrapper for an id associated with a handler.
///
/// A bit like `Option<T>`, but the "None" variant is called `AnyId` and "Some"
/// is called `SomeId`.
#[derive(Debug, Clone, Copy, PartialEq, Eq, Structural, PartialOrd, Ord, Hash)]
pub enum IdToHandle<T> {
    /// Any ID
    AnyId,
    /// One specific ID
    SomeId(T),
}

impl<T: TypeSafeId> IdToHandle<T> {
    /// Whether `other` is accepted: any ID when `AnyId`, only the given one otherwise.
    pub fn matches(&self, other: &T) -> (r: bool)
        ensures
            r == match *self {
                IdToHandle::AnyId => true,
                IdToHandle::SomeId(i) => i == *other,
            },
    {
        match self {
            IdToHandle::AnyId => true,
            IdToHandle::SomeId(i) => {
                let same = i.get() == other.get();
                proof {
                    if same {
                        T::lemma_id_value_injective(*i, *other);
                    }
                }
                same
            },
        }
    }
}

/// Sequence number of a message on a connection.
#[derive(Debug, Clone, Copy, PartialEq, Eq, Structural, PartialOrd, Ord, Hash)]
pub struct SequenceNumber(pub u32);

/// A sender name known when the program is built.
#[derive(Debug, Clone, PartialEq, Eq, PartialOrd, Ord, Hash)]
pub struct StaticSenderName(pub &'static [u8]);

/// A sender name.
#[derive(Debug, Clone, PartialEq, Eq, PartialOrd, Ord, Hash)]
pub struct SenderName(pub Bytes);

/// A message type name known when the program is built.
#[derive(Debug, Clone, PartialEq, Eq, PartialOrd, Ord, Hash)]
pub struct StaticTypeName(pub &'static [u8]);

/// A message type name.
#[derive(Debug, Clone, PartialEq, Eq, PartialOrd, Ord, Hash)]
pub struct TypeName(pub Bytes);

impl SenderName {
    /// The bytes of the name.
    pub open spec fn name_bytes(self) -> Seq<u8> {
        bytes_view(self.0)
    }

    /// Converts a static name, without copying it.
    pub fn from_static(name: StaticSenderName) -> (r: SenderName)
        ensures
            r.name_bytes() == name.0@,
    {
        SenderName(bytes_from_static(name.0))
    }
}

impl TypeName {
    /// The bytes of the name.
    pub open spec fn name_bytes(self) -> Seq<u8> {
        bytes_view(self.0)
    }

    /// Converts a static name, without copying it.
    pub fn from_static(name: StaticTypeName) -> (r: TypeName)
        ensures
            r.name_bytes() == name.0@,
    {
        TypeName(bytes_from_static(name.0))
    }
}

/// Class of service flags for sending a message.
#[derive(Debug, Clone, Copy, PartialEq, Eq, Structural, Hash)]
pub struct ClassOfService {
    /// The flag bits.
    pub mask: u32,
}

impl ClassOfService {
    /// Reliable, in-order delivery.
    pub fn reliable() -> (r: ClassOfService)
        ensures
            r.mask == 1,
    {
        ClassOfService { mask: 1 }
    }

    /// Fixed latency.
    pub fn fixed_latency() -> (r: ClassOfService)
        ensures
            r.mask == 2,
    {
        ClassOfService { mask: 2 }
    }

    /// Low latency.
    pub fn low_latency() -> (r: ClassOfService)
        ensures
            r.mask == 4,
    {
        ClassOfService { mask: 4 }
    }

    /// Fixed throughput.
    pub fn fixed_throughput() -> (r: ClassOfService)
        ensures
            r.mask == 8,
    {
        ClassOfService { mask: 8 }
    }

    /// High throughput.
    pub fn high_throughput() -> (r: ClassOfService)
        ensures
            r.mask == 16,
    {
        ClassOfService { mask: 16 }
    }

    /// Whether every flag of `other` is set here.
    pub fn contains(&self, other: ClassOfService) -> (r: bool)
        ensures
            r == (self.mask & other.mask == other.mask),
    {
        self.mask & other.mask == other.mask
    }
}

impl ConstantBufferSize for SenderId {
    fn constant_buffer_size() -> (r: usize)
        ensures
            r == 4,
    {
        4
    }
}

impl BufferSize for SenderId {
    fn buffer_size(&self) -> (r: usize)
        ensures
            r == 4,
    {
        4
    }
}

impl Buffer for SenderId {
    open spec fn buffered(&self) -> Seq<u8> {
        i32_wire(self.0)
    }

    open spec fn bufferable(&self) -> bool {
        true
    }

    fn buffer_ref(&self, buf: &mut Vec<u8>) -> (r: Result<(), BufferError>)
        ensures
            r is Ok <==> has_room_spec(old(buf)@.len(), 4),
            r is Ok ==> final(buf)@ == old(buf)@ + i32_wire(self.0),
            r is Err ==> final(buf)@ == old(buf)@,
    {
        self.0.buffer_ref(buf)
    }
}

impl Unbuffer for SenderId {
    open spec fn parses(s: Seq<u8>) -> bool {
        s.len() >= 4
    }

    open spec fn parses_as(s: Seq<u8>, v: SenderId) -> bool {
        v == SenderId(i32_parse(s))
    }

    open spec fn consumed(s: Seq<u8>) -> nat {
        4
    }

    open spec fn needs_more(s: Seq<u8>) -> Option<BytesRequired> {
        if s.len() < 4 {
            Some(BytesRequired::Exactly((4 - s.len()) as usize))
        } else {
            None
        }
    }

    fn unbuffer_ref(buf: &mut Bytes) -> (r: Result<SenderId, UnbufferError>)
        ensures
            ({
                let s = bytes_view(*old(buf));
                if s.len() >= 4 {
                    &&& r == Ok::<SenderId, UnbufferError>(SenderId(i32_parse(s)))
                    &&& bytes_view(*final(buf)) == s.skip(4)
                } else {
                    &&& r == Err::<SenderId, UnbufferError>(
                        UnbufferError::NeedMoreData(crate::wire::BytesRequired::Exactly((4 - s.len()) as usize)),
                    )
                    &&& bytes_view(*final(buf)) == s
                }
            }),
    {
        match i32::unbuffer_ref(buf) {
            Ok(v) => Ok(SenderId(v)),
            Err(e) => Err(e),
        }
    }
}

impl ConstantBufferSize for TypeId {
    fn constant_buffer_size() -> (r: usize)
        ensures
            r == 4,
    {
        4
    }
}

impl BufferSize for TypeId {
    fn buffer_size(&self) -> (r: usize)
        ensures
            r == 4,
    {
        4
    }
}

impl Buffer for TypeId {
    open spec fn buffered(&self) -> Seq<u8> {
        i32_wire(self.0)
    }

    open spec fn bufferable(&self) -> bool {
        true
    }

    fn buffer_ref(&self, buf: &mut Vec<u8>) -> (r: Result<(), BufferError>)
        ensures
            r is Ok <==> has_room_spec(old(buf)@.len(), 4),
            r is Ok ==> final(buf)@ == old(buf)@ + i32_wire(self.0),
            r is Err ==> final(buf)@ == old(buf)@,
    {
        self.0.buffer_ref(buf)
    }
}

impl Unbuffer for TypeId {
    open spec fn parses(s: Seq<u8>) -> bool {
        s.len() >= 4
    }

    open spec fn parses_as(s: Seq<u8>, v: TypeId) -> bool {
        v == TypeId(i32_parse(s))
    }

    open spec fn consumed(s: Seq<u8>) -> nat {
        4
    }

    open spec fn needs_more(s: Seq<u8>) -> Option<BytesRequired> {
        if s.len() < 4 {
            Some(BytesRequired::Exactly((4 - s.len()) as usize))
        } else {
            None
        }
    }

    fn unbuffer_ref(buf: &mut Bytes) -> (r: Result<TypeId, UnbufferError>)
        ensures
            ({
                let s = bytes_view(*old(buf));
                if s.len() >= 4 {
                    &&& r == Ok::<TypeId, UnbufferError>(TypeId(i32_parse(s)))
                    &&& bytes_view(*final(buf)) == s.skip(4)
                } else {
                    &&& r == Err::<TypeId, UnbufferError>(
                        UnbufferError::NeedMoreData(crate::wire::BytesRequired::Exactly((4 - s.len()) as usize)),
                    )
                    &&& bytes_view(*final(buf)) == s
                }
            }),
    {
        match i32::unbuffer_ref(buf) {
            Ok(v) => Ok(TypeId(v)),
            Err(e) => Err(e),
        }
    }
}

impl ConstantBufferSize for SequenceNumber {
    fn constant_buffer_size() -> (r: usize)
        ensures
            r == 4,
    {
        4
    }
}

impl BufferSize for SequenceNumber {
    fn buffer_size(&self) -> (r: usize)
        ensures
            r == 4,
    {
        4
    }
}

impl Buffer for SequenceNumber {
    open spec fn buffered(&self) -> Seq<u8> {
        u32_wire(self.0)
    }

    open spec fn bufferable(&self) -> bool {
        true
    }

    fn buffer_ref(&self, buf: &mut Vec<u8>) -> (r: Result<(), BufferError>)
        ensures
            r is Ok <==> has_room_spec(old(buf)@.len(), 4),
            r is Ok ==> final(buf)@ == old(buf)@ + u32_wire(self.0),
            r is Err ==> final(buf)@ == old(buf)@,
    {
        self.0.buffer_ref(buf)
    }
}

impl Unbuffer for SequenceNumber {
    open spec fn parses(s: Seq<u8>) -> bool {
        s.len() >= 4
    }

    open spec fn parses_as(s: Seq<u8>, v: SequenceNumber) -> bool {
        v == SequenceNumber(u32_parse(s))
    }

    open spec fn consumed(s: Seq<u8>) -> nat {
        4
    }

    open spec fn needs_more(s: Seq<u8>) -> Option<BytesRequired> {
        if s.len() < 4 {
            Some(BytesRequired::Exactly((4 - s.len()) as usize))
        } else {
            None
        }
    }

    fn unbuffer_ref(buf: &mut Bytes) -> (r: Result<SequenceNumber, UnbufferError>)
        ensures
            ({
                let s = bytes_view(*old(buf));
                if s.len() >= 4 {
                    &&& r == Ok::<SequenceNumber, UnbufferError>(SequenceNumber(u32_parse(s)))
                    &&& bytes_view(*final(buf)) == s.skip(4)
                } else {
                    &&& r == Err::<SequenceNumber, UnbufferError>(
                        UnbufferError::NeedMoreData(crate::wire::BytesRequired::Exactly((4 - s.len()) as usize)),
                    )
                    &&& bytes_view(*final(buf)) == s
                }
            }),
    {
        match u32::unbuffer_ref(buf) {
            Ok(v) => Ok(SequenceNumber(v)),
            Err(e) => Err(e),
        }
    }
}

} // verus!
