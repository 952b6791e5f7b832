//! Dispatching messages to handlers by message type and sender, and the
//! registries of local message type and sender names.
use crate::byte_buffer::{bytes_equal, bytes_view};
use crate::constants::{
    control, control_spec, dropped_connection, dropped_connection_spec, dropped_last_connection,
    dropped_last_connection_spec, got_connection, got_connection_spec, got_first_connection,
    got_first_connection_spec,
};
use crate::constants::{SENDER_DESCRIPTION, TYPE_DESCRIPTION};
use crate::descriptions::{description_wire, into_description_message, name_fits};
use crate::error::Error;
use crate::message::{GenericMessage, MessageTypeIdentifier, MessageTypeIdentity, TypedMessageBody};
use crate::types::{
    IdType, LocalId, SenderId, SenderName, TypeId, TypeName, TypeSafeId, MAX_VEC_USIZE,
};
use bytes::Bytes;
use vstd::prelude::*;

verus! {

/// What a handler asks of the dispatcher after handling a message.
#[derive(Debug, Clone, Copy, PartialEq, Eq, Structural)]
pub enum HandlerCode {
    /// Keep the handler.
    ContinueProcessing,
    /// Remove the handler: it will not be called again.
    RemoveThisHandler,
}

/// A message handler, implemented by users of the dispatcher.
pub trait Handler {
    /// Whether `r` is an outcome this handler may give when handed `msg`.
    /// A handler that does not say may give any outcome.
    open spec fn handles(&self, msg: GenericMessage, r: Result<HandlerCode, Error>) -> bool {
        true
    }

    /// Handles a message.
    fn handle(&mut self, msg: &GenericMessage) -> (r: Result<HandlerCode, Error>)
        ensures
            old(self).handles(*msg, r),
    ;
}

impl<T: Handler + ?Sized> Handler for Box<T> {
    /// The outcomes of the boxed handler.
    open spec fn handles(&self, msg: GenericMessage, r: Result<HandlerCode, Error>) -> bool {
        (**self).handles(msg, r)
    }

    fn handle(&mut self, msg: &GenericMessage) -> (r: Result<HandlerCode, Error>) {
        (**self).handle(msg)
    }
}

/// The result of a handler's outcome for the dispatcher: its error, or
/// success whatever the code.
pub open spec fn outcome_result(o: Result<HandlerCode, Error>) -> Result<(), Error> {
    match o {
        Ok(_) => Ok(()),
        Err(e) => Err(e),
    }
}

/// What the dispatcher does after a handler gave `outcome`: whether it keeps
/// the handler (all but `RemoveThisHandler` keep it) and whether it stops
/// calling handlers (on an error).
pub fn after_handler(outcome: &Result<HandlerCode, Error>) -> (r: (bool, bool))
    ensures
        r.0 == !(outcome matches Ok(HandlerCode::RemoveThisHandler)),
        r.1 == outcome is Err,
{
    match outcome {
        Ok(code) => (!(*code == HandlerCode::RemoveThisHandler), false),
        Err(_) => (true, true),
    }
}

/// The outcome of registering a name.
#[derive(Debug, Copy, Clone, PartialEq, Eq, Structural)]
pub enum RegisterMapping<I> {
    /// The name was already registered, with the given ID.
    Found(LocalId<I>),
    /// The name is new and was registered with the given ID.
    NewMapping(LocalId<I>),
}

impl<I: TypeSafeId> RegisterMapping<I> {
    /// The ID, whether the name was new or not.
    pub fn into_inner(&self) -> (r: LocalId<I>)
        ensures
            r == match *self {
                RegisterMapping::Found(v) => v,
                RegisterMapping::NewMapping(v) => v,
            },
    {
        match self {
            RegisterMapping::Found(v) => *v,
            RegisterMapping::NewMapping(v) => *v,
        }
    }
}

/// A handle unique within one collection of handlers.
#[derive(Debug, Copy, Clone, PartialEq, Eq, Structural)]
pub struct HandlerHandleInner(pub IdType);

impl HandlerHandleInner {
    /// The dispatcher-wide handle: the message type filter and this handle.
    pub fn into_handler_handle(self, message_type_filter: Option<LocalId<TypeId>>) -> (r:
        HandlerHandle)
        ensures
            r == HandlerHandle(message_type_filter, self.0),
    {
        HandlerHandle(message_type_filter, self.0)
    }
}

/// Refers uniquely to a handler added to a dispatcher, to remove it later:
/// the message type filter it was added with, and its handle in that
/// collection.
#[derive(Debug, Copy, Clone, PartialEq, Eq, Structural)]
pub struct HandlerHandle(pub Option<LocalId<TypeId>>, pub IdType);

/// Whether a sender filter accepts a sender: no filter accepts every sender.
pub open spec fn filter_accepts(filter: Option<LocalId<SenderId>>, sender: SenderId) -> bool {
    match filter {
        None => true,
        Some(f) => f.0 == sender,
    }
}

/// Checks whether a sender filter accepts a sender.
pub fn id_filter_matches(filter: Option<LocalId<SenderId>>, id: LocalId<SenderId>) -> (r: bool)
    ensures
        r == filter_accepts(filter, id.0),
{
    match filter {
        None => true,
        Some(f) => f.0.0 == id.0.0,
    }
}

/// A handler with its handle and optional sender filter.
pub struct MsgCallbackEntry<H> {
    /// The handle.
    pub handle: HandlerHandleInner,
    /// The handler.
    pub handler: H,
    /// Only messages from this sender reach the handler, when set.
    pub sender_filter: Option<LocalId<SenderId>>,
}

impl<H> MsgCallbackEntry<H> {
    /// The handle.
    pub open spec fn handle_id(self) -> IdType {
        self.handle.0
    }
}

impl<H: Handler> MsgCallbackEntry<H> {
    /// An entry of the given handle, handler and sender filter.
    pub fn new(handle: HandlerHandleInner, handler: H, sender_filter: Option<LocalId<SenderId>>) -> (r:
        MsgCallbackEntry<H>)
        ensures
            r.handle_id() == handle.0,
            r.handler == handler,
            r.sender_filter == sender_filter,
    {
        MsgCallbackEntry { handle, handler, sender_filter }
    }

    /// Calls the handler with the message if the sender filter accepts the
    /// message's sender; otherwise asks to continue.
    pub fn call(&mut self, msg: &GenericMessage) -> (r: Result<HandlerCode, Error>)
        ensures
            final(self).handle_id() == old(self).handle_id(),
            final(self).sender_filter == old(self).sender_filter,
            !filter_accepts(old(self).sender_filter, msg.header.sender) ==> (r matches Ok(
                HandlerCode::ContinueProcessing,
            ) && *final(self) == *old(self)),
            filter_accepts(old(self).sender_filter, msg.header.sender) ==> old(self).handler.handles(
                *msg,
                r,
            ),
    {
        if id_filter_matches(self.sender_filter, LocalId(msg.header.sender)) {
            self.handler.handle(msg)
        } else {
            Ok(HandlerCode::ContinueProcessing)
        }
    }
}

/// What the collection knows of a handler: its handle and sender filter.
pub struct CallbackSlot {
    /// The handle.
    pub handle: IdType,
    /// The sender filter.
    pub sender_filter: Option<LocalId<SenderId>>,
}

/// The slot of an entry, if present.
pub open spec fn slot_of<H>(e: Option<MsgCallbackEntry<H>>) -> Option<CallbackSlot> {
    match e {
        Some(entry) => Some(CallbackSlot { handle: entry.handle_id(), sender_filter: entry.sender_filter }),
        None => None,
    }
}

/// Whether every present slot has a handle in `0..next`.
pub open spec fn handles_below(slots: Seq<Option<CallbackSlot>>, next: IdType) -> bool {
    &&& next >= 0
    &&& forall|i: int| 0 <= i < slots.len() ==> (#[trigger] slots[i] matches Some(s) ==> 0 <= s.handle
        < next)
}

/// Whether slot `i` is the first present slot with the given handle.
pub open spec fn is_first_handle(slots: Seq<Option<CallbackSlot>>, handle: IdType, i: int) -> bool {
    &&& 0 <= i < slots.len()
    &&& slots[i] matches Some(s) && s.handle == handle
    &&& forall|j: int| 0 <= j < i ==> !(#[trigger] slots[j] matches Some(s) && s.handle == handle)
}

/// Whether some present slot has the given handle.
pub open spec fn has_handle(slots: Seq<Option<CallbackSlot>>, handle: IdType) -> bool {
    exists|i: int| 0 <= i < slots.len() && (#[trigger] slots[i] matches Some(s) && s.handle == handle)
}

/// Whether a slot after calling the handlers is what it was, or is a slot
/// whose filter accepts the sender that is now removed.
pub open spec fn slot_after_call(
    before: Option<CallbackSlot>,
    after: Option<CallbackSlot>,
    sender: SenderId,
) -> bool {
    after == before || (after is None && slot_accepts(before, sender))
}

/// Whether a slot holds a handler whose sender filter accepts `sender`.
pub open spec fn slot_accepts(slot: Option<CallbackSlot>, sender: SenderId) -> bool {
    match slot {
        Some(s) => filter_accepts(s.sender_filter, sender),
        None => false,
    }
}

/// Whether no slot holds a handler that accepts `sender`, so that calling
/// the handlers for a message from `sender` calls none of them.
pub open spec fn none_accepts(slots: Seq<Option<CallbackSlot>>, sender: SenderId) -> bool {
    forall|i: int| 0 <= i < slots.len() ==> !slot_accepts(#[trigger] slots[i], sender)
}

/// Whether calling the handlers stopped at one that accepts `sender` (the
/// one that failed): its slot is kept, and the slots after it are as they
/// were, since their handlers were not called.
pub open spec fn stopped_at_handler(
    before: Seq<Option<CallbackSlot>>,
    after: Seq<Option<CallbackSlot>>,
    sender: SenderId,
) -> bool {
    exists|k: int|
        0 <= k < before.len() && #[trigger] slot_accepts(before[k], sender) && after[k] == before[k]
            && forall|j: int| k < j < before.len() ==> #[trigger] after[j] == before[j]
}

/// The slot after its handler gave `outcome` (`None` for a handler not
/// called): removed on `RemoveThisHandler`, else kept.
pub open spec fn slot_after_outcome(
    slot: Option<CallbackSlot>,
    outcome: Option<Result<HandlerCode, Error>>,
) -> Option<CallbackSlot> {
    match outcome {
        Some(Ok(HandlerCode::RemoveThisHandler)) => None,
        _ => slot,
    }
}

/// Whether calling the handlers of `before`, in order, for `msg` leaves the
/// slots `after` and gives `r`, where `outcomes[i]` is what handler `i` gave
/// (`None` for one not called).  Only handlers whose sender filter accepts
/// the sender are called, each with `msg` and giving one of its outcomes;
/// each keeps its slot unless it asked to be removed.  On success every
/// accepting handler was called and none failed; on failure the calls
/// stopped at the first handler that failed, whose error is the result.
pub open spec fn handlers_ran<H: Handler>(
    before: Seq<Option<MsgCallbackEntry<H>>>,
    after: Seq<Option<CallbackSlot>>,
    msg: GenericMessage,
    outcomes: Seq<Option<Result<HandlerCode, Error>>>,
    r: Result<(), Error>,
) -> bool {
    let sender = msg.header.sender;
    &&& outcomes.len() == before.len()
    &&& after.len() == before.len()
    &&& forall|i: int|
        0 <= i < before.len() ==> (#[trigger] outcomes[i] matches Some(o) ==> slot_accepts(
            slot_of(before[i]),
            sender,
        ) && before[i]->Some_0.handler.handles(msg, o))
    &&& forall|i: int|
        0 <= i < before.len() ==> #[trigger] after[i] == slot_after_outcome(
            slot_of(before[i]),
            outcomes[i],
        )
    &&& match r {
        Ok(_) => forall|i: int|
            0 <= i < before.len() && slot_accepts(slot_of(before[i]), sender) ==> (
            #[trigger] outcomes[i]) matches Some(Ok(_)),
        Err(e) => exists|k: int|
            0 <= k < before.len() && #[trigger] outcomes[k] == Some(Err::<HandlerCode, Error>(e))
                && (forall|j: int|
                0 <= j < k && slot_accepts(slot_of(before[j]), sender) ==> (
                #[trigger] outcomes[j]) matches Some(Ok(_))) && (forall|j: int|
                k < j < before.len() ==> (#[trigger] outcomes[j]) is None),
    }
}

/// A collection of handlers, either for one message type or for every
/// message type.
pub struct CallbackCollection<H> {
    name: Bytes,
    callbacks: Vec<Option<MsgCallbackEntry<H>>>,
    next_handle: IdType,
}

impl<H: Handler> CallbackCollection<H> {
    /// The handlers with their handles and sender filters, in the order they
    /// are called (`None` where one was removed).
    pub closed spec fn entries(self) -> Seq<Option<MsgCallbackEntry<H>>> {
        self.callbacks@
    }

    /// The slots of the handlers, in the order they are called.
    pub closed spec fn slots(self) -> Seq<Option<CallbackSlot>> {
        self.callbacks@.map_values(|e: Option<MsgCallbackEntry<H>>| slot_of(e))
    }

    /// The handle the next added handler gets.
    pub closed spec fn next_handle(self) -> IdType {
        self.next_handle
    }

    /// The name of the collection.
    pub closed spec fn name(self) -> Seq<u8> {
        bytes_view(self.name)
    }

    /// Well-formedness: every handle is below the next one.
    pub open spec fn wf(self) -> bool {
        handles_below(self.slots(), self.next_handle())
    }

    /// An empty collection with an empty name.
    pub fn new() -> (r: CallbackCollection<H>)
        ensures
            r.wf(),
            r.slots() == Seq::<Option<CallbackSlot>>::empty(),
            r.next_handle() == 0,
            r.name() == Seq::<u8>::empty(),
    {
        let empty: &[u8] = &[];
        assert(empty@ =~= Seq::<u8>::empty());
        let r = CallbackCollection {
            name: crate::byte_buffer::bytes_copy_from_slice(empty),
            callbacks: Vec::new(),
            next_handle: 0,
        };
        assert(r.slots() =~= Seq::<Option<CallbackSlot>>::empty());
        r
    }

    /// An empty collection with the given name.
    pub fn named(name: Bytes) -> (r: CallbackCollection<H>)
        ensures
            r.wf(),
            r.slots() == Seq::<Option<CallbackSlot>>::empty(),
            r.next_handle() == 0,
            r.name() == bytes_view(name),
    {
        let r = CallbackCollection { name, callbacks: Vec::new(), next_handle: 0 };
        assert(r.slots() =~= Seq::<Option<CallbackSlot>>::empty());
        r
    }

    /// The name of the collection.
    pub fn name_bytes(&self) -> (r: &Bytes)
        ensures
            bytes_view(*r) == self.name(),
    {
        &self.name
    }

    /// Adds a handler with an optional sender filter, after the others.
    /// Fails when the collection is full or has given out every handle.
    pub fn add(&mut self, handler: H, sender: Option<LocalId<SenderId>>) -> (r: Result<
        HandlerHandleInner,
        Error,
    >)
        requires
            old(self).wf(),
        ensures
            final(self).wf(),
            final(self).name() == old(self).name(),
            (old(self).slots().len() > MAX_VEC_USIZE || old(self).next_handle() == IdType::MAX)
                ==> (r matches Err(Error::TooManyHandlers) && *final(self) == *old(self)),
            !(old(self).slots().len() > MAX_VEC_USIZE || old(self).next_handle() == IdType::MAX)
                ==> r == Ok::<HandlerHandleInner, Error>(HandlerHandleInner(old(self).next_handle()))
                && final(self).slots() == old(self).slots().push(
                Some(CallbackSlot { handle: old(self).next_handle(), sender_filter: sender }),
            ) && final(self).next_handle() == old(self).next_handle() + 1,
    {
        if self.callbacks.len() > MAX_VEC_USIZE || self.next_handle == IdType::MAX {
            return Err(Error::TooManyHandlers);
        }
        let handle = HandlerHandleInner(self.next_handle);
        let ghost old_slots = self.slots();
        self.callbacks.push(Some(MsgCallbackEntry::new(handle, handler, sender)));
        self.next_handle = self.next_handle + 1;
        assert(self.slots() =~= old_slots.push(
            Some(CallbackSlot { handle: handle.0, sender_filter: sender }),
        ));
        Ok(handle)
    }

    /// Removes the handler with the given handle.
    pub fn remove(&mut self, handle: HandlerHandleInner) -> (r: Result<(), Error>)
        requires
            old(self).wf(),
        ensures
            final(self).wf(),
            final(self).name() == old(self).name(),
            final(self).next_handle() == old(self).next_handle(),
            !has_handle(old(self).slots(), handle.0) ==> (r matches Err(Error::HandlerNotFound)
                && final(self).slots() == old(self).slots()),
            has_handle(old(self).slots(), handle.0) ==> r is Ok && exists|i: int|
                is_first_handle(old(self).slots(), handle.0, i) && final(self).slots()
                    == old(self).slots().remove(i),
    {
        let ghost old_slots = self.slots();
        let len = self.callbacks.len();
        let mut i: usize = 0;
        while i < len
            invariant
                len == self.callbacks@.len(),
                i <= len,
                self.callbacks@ == old(self).callbacks@,
                self.name == old(self).name,
                self.next_handle == old(self).next_handle,
                old_slots == old(self).slots(),
                handles_below(old_slots, self.next_handle),
                forall|j: int|
                    0 <= j < i ==> !(#[trigger] old_slots[j] matches Some(s) && s.handle
                        == handle.0),
            decreases len - i,
        {
            let found = match &self.callbacks[i] {
                Some(entry) => entry.handle.0 == handle.0,
                None => false,
            };
            assert(found == (old_slots[i as int] matches Some(s) && s.handle == handle.0));
            if found {
                self.callbacks.remove(i);
                assert(self.slots() =~= old_slots.remove(i as int));
                assert forall|k: int| 0 <= k < self.slots().len() implies (
                #[trigger] self.slots()[k] matches Some(s) ==> 0 <= s.handle < self.next_handle) by {
                    if k < i {
                        assert(self.slots()[k] == old_slots[k]);
                    } else {
                        assert(self.slots()[k] == old_slots[k + 1]);
                    }
                }
                assert(is_first_handle(old_slots, handle.0, i as int));
                assert(has_handle(old_slots, handle.0));
                return Ok(());
            }
            i = i + 1;
        }
        Err(Error::HandlerNotFound)
    }

    /// Calls every handler whose sender filter accepts the message's sender,
    /// in order, removing those that ask for it.  Stops at the first handler
    /// that fails.
    pub fn call(&mut self, msg: &GenericMessage) -> (r: Result<(), Error>)
        requires
            old(self).wf(),
        ensures
            final(self).wf(),
            final(self).name() == old(self).name(),
            final(self).next_handle() == old(self).next_handle(),
            final(self).slots().len() == old(self).slots().len(),
            forall|i: int|
                0 <= i < old(self).slots().len() ==> slot_after_call(
                    old(self).slots()[i],
                    #[trigger] final(self).slots()[i],
                    msg.header.sender,
                ),
            none_accepts(old(self).slots(), msg.header.sender) ==> (r is Ok && final(self).slots()
                == old(self).slots()),
            r is Err ==> stopped_at_handler(old(self).slots(), final(self).slots(), msg.header.sender),
            exists|outcomes: Seq<Option<Result<HandlerCode, Error>>>|
                #[trigger] handlers_ran(old(self).entries(), final(self).slots(), *msg, outcomes, r),
    {
        let ghost old_slots = self.slots();
        let ghost old_entries = self.callbacks@;
        let ghost sender = msg.header.sender;
        let len = self.callbacks.len();
        let ghost mut outcomes: Seq<Option<Result<HandlerCode, Error>>> = Seq::new(
            len as nat,
            |j: int| None,
        );
        assert(old_slots =~= old_entries.map_values(|e: Option<MsgCallbackEntry<H>>| slot_of(e)));
        let mut i: usize = 0;
        while i < len
            invariant
                old_entries == old(self).entries(),
                old_slots == old_entries.map_values(|e: Option<MsgCallbackEntry<H>>| slot_of(e)),
                sender == msg.header.sender,
                outcomes.len() == len,
                forall|j: int| i <= j < len ==> #[trigger] self.callbacks@[j] == old_entries[j],
                forall|j: int| i <= j < len ==> (#[trigger] outcomes[j]) is None,
                forall|j: int|
                    0 <= j < len ==> (#[trigger] outcomes[j] matches Some(o) ==> slot_accepts(
                        slot_of(old_entries[j]),
                        sender,
                    ) && old_entries[j]->Some_0.handler.handles(*msg, o)),
                forall|j: int|
                    0 <= j < len ==> #[trigger] self.slots()[j] == slot_after_outcome(
                        slot_of(old_entries[j]),
                        outcomes[j],
                    ),
                forall|j: int|
                    0 <= j < i && slot_accepts(slot_of(old_entries[j]), sender) ==> (
                    #[trigger] outcomes[j]) matches Some(Ok(_)),
                len == self.callbacks@.len(),
                i <= len,
                old_slots == old(self).slots(),
                old_slots.len() == len,
                self.next_handle == old(self).next_handle,
                self.name == old(self).name,
                handles_below(old_slots, self.next_handle),
                handles_below(self.slots(), self.next_handle),
                forall|j: int|
                    0 <= j < len ==> slot_after_call(
                        old_slots[j],
                        #[trigger] self.slots()[j],
                        msg.header.sender,
                    ),
                forall|j: int| i <= j < len ==> #[trigger] self.slots()[j] == old_slots[j],
            decreases len - i,
        {
            let ghost before = self.callbacks@;
            assert(old_slots[i as int] == self.slots()[i as int]);
            assert(self.slots()[i as int] == slot_of(before[i as int]));
            let ghost before_outcomes = outcomes;
            let mut failure: Option<Error> = None;
            let taken = self.callbacks[i].take();
            assert(taken == old_entries[i as int]);
            match taken {
                Some(mut entry) => {
                    let res = entry.call(msg);
                    proof {
                        if slot_accepts(slot_of(old_entries[i as int]), sender) {
                            outcomes = outcomes.update(i as int, Some(res));
                        }
                    }
                    let (keep, stop) = after_handler(&res);
                    if keep {
                        self.callbacks.set(i, Some(entry));
                    }
                    if stop {
                        match res {
                            Ok(_) => {},
                            Err(e) => {
                                failure = Some(e);
                            },
                        }
                    }
                },
                None => {},
            }
            proof {
                assert forall|j: int| 0 <= j < len implies #[trigger] self.slots()[j] == slot_after_outcome(
                    slot_of(old_entries[j]),
                    outcomes[j],
                ) by {
                    assert(self.slots()[j] == slot_of(self.callbacks@[j]));
                    if j != i {
                        assert(self.callbacks@[j] == before[j]);
                        assert(outcomes[j] == before_outcomes[j]);
                        assert(before.map_values(|e: Option<MsgCallbackEntry<H>>| slot_of(e))[j]
                            == slot_of(before[j]));
                    }
                }
            }
            assert forall|j: int| 0 <= j < len implies slot_after_call(
                old_slots[j],
                #[trigger] self.slots()[j],
                msg.header.sender,
            ) && (j > i ==> self.slots()[j] == old_slots[j]) by {
                assert(self.slots()[j] == slot_of(self.callbacks@[j]));
                assert(before.map_values(|e: Option<MsgCallbackEntry<H>>| slot_of(e))[j] == slot_of(
                    before[j],
                ));
                if j != i {
                    assert(self.callbacks@[j] == before[j]);
                }
            }
            assert forall|k: int| 0 <= k < self.slots().len() implies (
            #[trigger] self.slots()[k] matches Some(s) ==> 0 <= s.handle < self.next_handle) by {
                assert(slot_after_call(old_slots[k], self.slots()[k], msg.header.sender));
            }
            proof {
                if failure is Some {
                    assert(slot_accepts(old_slots[i as int], msg.header.sender));
                    assert(self.slots()[i as int] == old_slots[i as int]);
                    assert(stopped_at_handler(old_slots, self.slots(), msg.header.sender));
                    let e = failure->Some_0;
                    assert(outcomes[i as int] == Some(Err::<HandlerCode, Error>(e)));
                    assert(handlers_ran(old_entries, self.slots(), *msg, outcomes, Err(e)));
                }
            }
            match failure {
                Some(e) => {
                    return Err(e);
                },
                None => {},
            }
            i = i + 1;
        }
        assert(handlers_ran(old_entries, self.slots(), *msg, outcomes, Ok(())));
        proof {
            if none_accepts(old_slots, msg.header.sender) {
                assert forall|j: int| 0 <= j < len implies #[trigger] self.slots()[j] == old_slots[j] by {
                    assert(!slot_accepts(old_slots[j], msg.header.sender));
                    assert(slot_after_call(old_slots[j], self.slots()[j], msg.header.sender));
                }
                assert(self.slots() =~= old_slots);
            }
        }
        Ok(())
    }
}

/// Removing a handler right after adding it gives back the handlers as they
/// were: the new handle is found, and it is found at the new slot only.
pub proof fn lemma_remove_after_add(
    slots: Seq<Option<CallbackSlot>>,
    next: IdType,
    sender_filter: Option<LocalId<SenderId>>,
)
    requires
        handles_below(slots, next),
    ensures
        has_handle(slots.push(Some(CallbackSlot { handle: next, sender_filter })), next),
        forall|i: int|
            is_first_handle(slots.push(Some(CallbackSlot { handle: next, sender_filter })), next, i)
                ==> slots.push(Some(CallbackSlot { handle: next, sender_filter })).remove(i)
                == slots,
{
    let added = slots.push(Some(CallbackSlot { handle: next, sender_filter }));
    assert(added[slots.len() as int] matches Some(s) && s.handle == next);
    assert forall|i: int| is_first_handle(added, next, i) implies added.remove(i) == slots by {
        if i < slots.len() {
            assert(slots[i] matches Some(s) ==> s.handle < next);
            assert(added[i] == slots[i]);
        }
        assert(i == slots.len());
        assert(added.remove(i) =~= slots);
    }
}

/// Whether `i` is the first index of `name` in `names`.
pub open spec fn is_first_name(names: Seq<Seq<u8>>, name: Seq<u8>, i: int) -> bool {
    &&& 0 <= i < names.len()
    &&& names[i] == name
    &&& forall|j: int| 0 <= j < i ==> #[trigger] names[j] != name
}

/// A name not yet registered gets the next index, and is found there first.
pub proof fn lemma_new_name_is_first(names: Seq<Seq<u8>>, name: Seq<u8>)
    requires
        !names.contains(name),
    ensures
        is_first_name(names.push(name), name, names.len() as int),
{
    assert forall|j: int| 0 <= j < names.len() implies #[trigger] names.push(name)[j] != name by {
        assert(names.push(name)[j] == names[j]);
        if names[j] == name {
            assert(names.contains(name));
        }
    }
}

/// Registering a name twice is the same as registering it once, and the
/// name is registered afterwards.
pub proof fn lemma_register_idempotent(names: Seq<Seq<u8>>, name: Seq<u8>)
    ensures
        with_name(with_name(names, name), name) == with_name(names, name),
        with_name(names, name).contains(name),
{
    if !names.contains(name) {
        assert(names.push(name)[names.len() as int] == name);
    }
}

/// The index of the handler collection that a message type filter selects,
/// when valid: `None` for the generic collection.
pub open spec fn filter_is_valid(filter: Option<LocalId<TypeId>>, num_types: nat) -> bool {
    match filter {
        None => true,
        Some(id) => 0 <= id.0.0 < num_types,
    }
}

/// The names after registering `name`: unchanged when it is already
/// there, else with `name` added at the end.
pub open spec fn with_name(names: Seq<Seq<u8>>, name: Seq<u8>) -> Seq<Seq<u8>> {
    if names.contains(name) {
        names
    } else {
        names.push(name)
    }
}

/// Whether `after` is `before` after calling its handlers for a message
/// from `sender`: same name, handles and slots, except that handlers whose
/// filter accepts the sender may have been removed.
pub open spec fn called<H: Handler>(
    before: CallbackCollection<H>,
    after: CallbackCollection<H>,
    sender: SenderId,
) -> bool {
    &&& after.wf()
    &&& after.name() == before.name()
    &&& after.next_handle() == before.next_handle()
    &&& after.slots().len() == before.slots().len()
    &&& forall|i: int|
        0 <= i < before.slots().len() ==> slot_after_call(
            before.slots()[i],
            #[trigger] after.slots()[i],
            sender,
        )
}

/// Whether `after` is `before` after dispatching a message of type `t` from
/// `sender`: the registries and system handlers are unchanged, the handlers
/// for every message type were called, and those of type `t` too when it is
/// a registered type; no other collection changed.
pub open spec fn call_effect<H: Handler>(
    before: TypeDispatcher<H>,
    after: TypeDispatcher<H>,
    t: int,
    sender: SenderId,
) -> bool {
    let n = before.type_collections().len();
    &&& after.sender_names() == before.sender_names()
    &&& after.system_handlers() == before.system_handlers()
    &&& called(before.generic(), after.generic(), sender)
    &&& after.type_collections().len() == n
    &&& forall|i: int|
        0 <= i < n && i != t ==> #[trigger] after.type_collections()[i]
            == before.type_collections()[i]
    &&& 0 <= t < n ==> called(before.type_collections()[t], after.type_collections()[t], sender)
}

/// What dispatching a message of type `t` from `sender` gives: success when
/// no handler accepts the message, and a failure only from a handler that
/// accepted it and stopped the calls, either among the handlers for every
/// message type (those of type `t` then not called) or among those of type
/// `t`.
pub open spec fn call_outcome<H: Handler>(
    before: TypeDispatcher<H>,
    after: TypeDispatcher<H>,
    t: int,
    sender: SenderId,
    r: Result<(), Error>,
) -> bool {
    let registered = 0 <= t < before.type_collections().len();
    &&& (none_accepts(before.generic().slots(), sender) && (registered ==> none_accepts(
        before.type_collections()[t].slots(),
        sender,
    ))) ==> r is Ok
    &&& r is Err ==> ((stopped_at_handler(before.generic().slots(), after.generic().slots(), sender)
        && after.type_collections() == before.type_collections()) || (registered
        && stopped_at_handler(
        before.type_collections()[t].slots(),
        after.type_collections()[t].slots(),
        sender,
    )))
}

/// Whether dispatching `msg` took `before` to `after` with result `r`: the
/// handlers for every message type ran first (see `handlers_ran`); if none
/// of them failed, those of the message's type ran next when it is a
/// registered type, and gave the result; a failure among the first left
/// every per-type collection as it was.
pub open spec fn dispatched<H: Handler>(
    before: TypeDispatcher<H>,
    after: TypeDispatcher<H>,
    msg: GenericMessage,
    r: Result<(), Error>,
) -> bool {
    let t = msg.header.message_type.0 as int;
    let registered = 0 <= t < before.type_collections().len();
    exists|og: Seq<Option<Result<HandlerCode, Error>>>, rg: Result<(), Error>|
        #[trigger] handlers_ran(before.generic().entries(), after.generic().slots(), msg, og, rg)
            && match rg {
            Err(_) => r == rg && after.type_collections() == before.type_collections(),
            Ok(_) => if registered {
                exists|ot: Seq<Option<Result<HandlerCode, Error>>>|
                    #[trigger] handlers_ran(
                        before.type_collections()[t].entries(),
                        after.type_collections()[t].slots(),
                        msg,
                        ot,
                        r,
                    )
            } else {
                r is Ok
            },
        }
}

/// `s` extended with `false` to at least `n` items.
pub open spec fn padded_flags(s: Seq<bool>, n: nat) -> Seq<bool> {
    if s.len() >= n {
        s
    } else {
        s + Seq::new((n - s.len()) as nat, |i: int| false)
    }
}

/// Holds and dispatches handlers for every message type and for particular
/// message types, filtered by sender, and keeps the registries of local
/// message type and sender names.  System message types get one handler
/// each, kept apart.
pub struct TypeDispatcher<H> {
    types: Vec<CallbackCollection<H>>,
    generic_callbacks: CallbackCollection<H>,
    senders: Vec<SenderName>,
    system_callbacks: Vec<Option<H>>,
}

impl<H: Handler> TypeDispatcher<H> {
    /// The handler collections of the message types, indexed by local type ID.
    pub closed spec fn type_collections(self) -> Seq<CallbackCollection<H>> {
        self.types@
    }

    /// The registered message type names, indexed by local type ID.
    pub open spec fn type_names(self) -> Seq<Seq<u8>> {
        self.type_collections().map_values(|c: CallbackCollection<H>| c.name())
    }

    /// The registered sender names, indexed by local sender ID.
    pub closed spec fn sender_names(self) -> Seq<Seq<u8>> {
        self.senders@.map_values(|n: SenderName| n.name_bytes())
    }

    /// The collection of handlers for every message type.
    pub closed spec fn generic(self) -> CallbackCollection<H> {
        self.generic_callbacks
    }

    /// Which system message types have a handler, indexed by the negated type ID.
    /// The handlers of the system message types, by the negated type ID.
    pub closed spec fn system_callbacks(self) -> Seq<Option<H>> {
        self.system_callbacks@
    }

    /// Which system message types have a handler, by the negated type ID.
    pub closed spec fn system_handlers(self) -> Seq<bool> {
        self.system_callbacks@.map_values(|h: Option<H>| h is Some)
    }

    /// Whether the two dispatchers hold the same registries and handlers.
    pub open spec fn same_as(self, other: TypeDispatcher<H>) -> bool {
        &&& self.type_collections() == other.type_collections()
        &&& self.generic() == other.generic()
        &&& self.sender_names() == other.sender_names()
        &&& self.system_handlers() == other.system_handlers()
    }

    /// Well-formedness of every handler collection.
    pub open spec fn wf(self) -> bool {
        &&& self.type_collections().len() <= MAX_VEC_USIZE + 1
        &&& self.sender_names().len() <= MAX_VEC_USIZE + 1
        &&& self.generic().wf()
        &&& forall|i: int|
            0 <= i < self.type_collections().len() ==> (#[trigger] self.type_collections()[i]).wf()
    }

    /// Returns the ID of the message type name, if registered.
    pub fn get_type_id(&self, name: &TypeName) -> (r: Option<LocalId<TypeId>>)
        requires
            self.wf(),
        ensures
            r is None <==> !self.type_names().contains(name.name_bytes()),
            r matches Some(id) ==> is_first_name(
                self.type_names(),
                name.name_bytes(),
                id.0.0 as int,
            ),
    {
        let len = self.types.len();
        let mut i: usize = 0;
        while i < len
            invariant
                len == self.types@.len() == self.type_names().len(),
                len <= MAX_VEC_USIZE + 1,
                i <= len,
                forall|j: int| 0 <= j < i ==> #[trigger] self.type_names()[j] != name.name_bytes(),
            decreases len - i,
        {
            if bytes_equal(self.types[i].name_bytes(), &name.0) {
                assert(is_first_name(self.type_names(), name.name_bytes(), i as int));
                return Some(LocalId(TypeId(i as IdType)));
            }
            i = i + 1;
        }
        assert forall|k: int| 0 <= k < self.type_names().len() implies #[trigger] self.type_names()[k]
            != name.name_bytes() by {}
        None
    }

    /// Returns the ID of the sender name, if registered.
    pub fn get_sender_id(&self, name: &SenderName) -> (r: Option<LocalId<SenderId>>)
        requires
            self.wf(),
        ensures
            r is None <==> !self.sender_names().contains(name.name_bytes()),
            r matches Some(id) ==> is_first_name(
                self.sender_names(),
                name.name_bytes(),
                id.0.0 as int,
            ),
    {
        let len = self.senders.len();
        let mut i: usize = 0;
        while i < len
            invariant
                len == self.senders@.len() == self.sender_names().len(),
                len <= MAX_VEC_USIZE + 1,
                i <= len,
                forall|j: int| 0 <= j < i ==> #[trigger] self.sender_names()[j] != name.name_bytes(),
            decreases len - i,
        {
            if bytes_equal(&self.senders[i].0, &name.0) {
                assert(is_first_name(self.sender_names(), name.name_bytes(), i as int));
                return Some(LocalId(SenderId(i as IdType)));
            }
            i = i + 1;
        }
        assert forall|k: int| 0 <= k < self.sender_names().len() implies #[trigger] self.sender_names()[k]
            != name.name_bytes() by {}
        None
    }

    /// Registers a new message type name with no handlers, under the next
    /// local type ID.
    pub fn add_type(&mut self, name: TypeName) -> (r: Result<LocalId<TypeId>, Error>)
        requires
            old(self).wf(),
        ensures
            final(self).wf(),
            final(self).generic() == old(self).generic(),
            final(self).sender_names() == old(self).sender_names(),
            final(self).system_handlers() == old(self).system_handlers(),
            old(self).type_names().len() > MAX_VEC_USIZE ==> (r matches Err(Error::TooManyMappings)
                && final(self).type_collections() == old(self).type_collections()),
            old(self).type_names().len() <= MAX_VEC_USIZE ==> (r matches Ok(id) && id.0.0
                == old(self).type_names().len() && final(self).type_names() == old(self).type_names().push(name.name_bytes()) && final(self).type_collections().len() == old(self).type_collections().len() + 1 && final(self).type_collections().drop_last()
                == old(self).type_collections() && final(self).type_collections().last().slots()
                == Seq::<Option<CallbackSlot>>::empty() && final(self).type_collections().last().next_handle() == 0),
    {
        if self.types.len() > MAX_VEC_USIZE {
            return Err(Error::TooManyMappings);
        }
        let ghost old_types = self.types@;
        self.types.push(CallbackCollection::named(name.0));
        assert(self.types@.drop_last() =~= old_types);
        assert(self.type_names() =~= old_types.map_values(|c: CallbackCollection<H>| c.name()).push(
            name.name_bytes(),
        ));
        assert forall|i: int| 0 <= i < self.type_collections().len() implies (#[trigger] self.type_collections()[i]).wf() by {
            if i < old_types.len() {
                assert(self.types@[i] == old_types[i]);
            }
        }
        Ok(LocalId(TypeId((self.types.len() - 1) as IdType)))
    }

    /// Registers a new sender name under the next local sender ID.
    pub fn add_sender(&mut self, name: SenderName) -> (r: Result<LocalId<SenderId>, Error>)
        requires
            old(self).wf(),
        ensures
            final(self).wf(),
            final(self).generic() == old(self).generic(),
            final(self).type_collections() == old(self).type_collections(),
            final(self).system_handlers() == old(self).system_handlers(),
            old(self).sender_names().len() > MAX_VEC_USIZE ==> (r matches Err(Error::TooManyMappings)
                && final(self).sender_names() == old(self).sender_names()),
            old(self).sender_names().len() <= MAX_VEC_USIZE ==> (r matches Ok(id) && id.0.0
                == old(self).sender_names().len() && final(self).sender_names() == old(self).sender_names().push(name.name_bytes())),
    {
        if self.senders.len() > MAX_VEC_USIZE {
            return Err(Error::TooManyMappings);
        }
        let ghost old_senders = self.senders@;
        self.senders.push(name);
        assert(self.sender_names() =~= old_senders.map_values(|n: SenderName| n.name_bytes()).push(
            name.name_bytes(),
        ));
        Ok(LocalId(SenderId((self.senders.len() - 1) as IdType)))
    }

    /// Returns the ID of a message type name, registering it first when it
    /// is new.
    pub fn register_type(&mut self, name: TypeName) -> (r: Result<RegisterMapping<TypeId>, Error>)
        requires
            old(self).wf(),
        ensures
            final(self).wf(),
            final(self).generic() == old(self).generic(),
            final(self).sender_names() == old(self).sender_names(),
            final(self).system_handlers() == old(self).system_handlers(),
            old(self).type_names().contains(name.name_bytes()) ==> (r matches Ok(
                RegisterMapping::Found(id),
            ) && is_first_name(old(self).type_names(), name.name_bytes(), id.0.0 as int)
                && final(self).type_collections() == old(self).type_collections()),
            !old(self).type_names().contains(name.name_bytes()) && old(self).type_names().len()
                > MAX_VEC_USIZE ==> (r matches Err(Error::TooManyMappings) && final(self).type_collections() == old(self).type_collections()),
            !old(self).type_names().contains(name.name_bytes()) && old(self).type_names().len()
                <= MAX_VEC_USIZE ==> (r matches Ok(RegisterMapping::NewMapping(id)) && id.0.0
                == old(self).type_names().len() && final(self).type_names() == old(self).type_names().push(name.name_bytes()) && final(self).type_collections().len() == old(self).type_collections().len() + 1 && final(self).type_collections().drop_last()
                == old(self).type_collections() && final(self).type_collections().last().slots()
                == Seq::<Option<CallbackSlot>>::empty() && final(self).type_collections().last().next_handle() == 0),
    {
        match self.get_type_id(&name) {
            Some(i) => Ok(RegisterMapping::Found(i)),
            None => match self.add_type(name) {
                Ok(i) => Ok(RegisterMapping::NewMapping(i)),
                Err(e) => Err(e),
            },
        }
    }

    /// Returns the ID of a sender name, registering it first when it is new.
    pub fn register_sender(&mut self, name: SenderName) -> (r: Result<
        RegisterMapping<SenderId>,
        Error,
    >)
        requires
            old(self).wf(),
        ensures
            final(self).wf(),
            final(self).generic() == old(self).generic(),
            final(self).type_collections() == old(self).type_collections(),
            final(self).system_handlers() == old(self).system_handlers(),
            old(self).sender_names().contains(name.name_bytes()) ==> (r matches Ok(
                RegisterMapping::Found(id),
            ) && is_first_name(old(self).sender_names(), name.name_bytes(), id.0.0 as int)
                && final(self).sender_names() == old(self).sender_names()),
            !old(self).sender_names().contains(name.name_bytes()) && old(self).sender_names().len()
                > MAX_VEC_USIZE ==> (r matches Err(Error::TooManyMappings) && final(self).sender_names() == old(self).sender_names()),
            !old(self).sender_names().contains(name.name_bytes()) && old(self).sender_names().len()
                <= MAX_VEC_USIZE ==> (r matches Ok(RegisterMapping::NewMapping(id)) && id.0.0
                == old(self).sender_names().len() && final(self).sender_names() == old(self).sender_names().push(name.name_bytes())),
    {
        match self.get_sender_id(&name) {
            Some(i) => Ok(RegisterMapping::Found(i)),
            None => match self.add_sender(name) {
                Ok(i) => Ok(RegisterMapping::NewMapping(i)),
                Err(e) => Err(e),
            },
        }
    }

    /// The handler collection that a message type filter selects: the
    /// generic one for no filter, else that of the message type.
    pub open spec fn selected(self, filter: Option<LocalId<TypeId>>) -> CallbackCollection<H>
        recommends
            filter_is_valid(filter, self.type_collections().len()),
    {
        match filter {
            None => self.generic(),
            Some(id) => self.type_collections()[id.0.0 as int],
        }
    }

    /// Whether the dispatcher is `old` with the collection that `filter`
    /// selects replaced by `c`.
    pub open spec fn is_with_selected(
        self,
        old: TypeDispatcher<H>,
        filter: Option<LocalId<TypeId>>,
        c: CallbackCollection<H>,
    ) -> bool {
        &&& self.sender_names() == old.sender_names()
        &&& self.system_handlers() == old.system_handlers()
        &&& match filter {
            None => self.generic() == c && self.type_collections() == old.type_collections(),
            Some(id) => self.generic() == old.generic() && self.type_collections()
                == old.type_collections().update(id.0.0 as int, c),
        }
    }

    /// The handler collection that a message type filter selects.
    pub fn get_type_callbacks(&self, type_id_filter: Option<LocalId<TypeId>>) -> (r: Result<
        &CallbackCollection<H>,
        Error,
    >)
        ensures
            filter_is_valid(type_id_filter, self.type_collections().len()) ==> (r matches Ok(c)
                && *c == self.selected(type_id_filter)),
            !filter_is_valid(type_id_filter, self.type_collections().len()) ==> (r matches Err(
                Error::InvalidTypeId(id),
            ) && type_id_filter == Some(LocalId(TypeId(id)))),
    {
        match type_id_filter {
            None => Ok(&self.generic_callbacks),
            Some(id) => {
                let t = id.0.0;
                if t < 0 || t as usize >= self.types.len() {
                    Err(Error::InvalidTypeId(t))
                } else {
                    Ok(&self.types[t as usize])
                }
            },
        }
    }

    /// `self` is `old` after adding a handler for the message type that
    /// `filter` selects, with `sender_filter`, and `r` is the outcome: an
    /// invalid type ID is refused, a full collection is refused, else the
    /// collection's next handle is returned and a slot with it is appended.
    pub open spec fn handler_added(
        self,
        old: TypeDispatcher<H>,
        filter: Option<LocalId<TypeId>>,
        sender_filter: Option<LocalId<SenderId>>,
        r: Result<HandlerHandle, Error>,
    ) -> bool {
        &&& !filter_is_valid(filter, old.type_collections().len()) ==> (r matches Err(
            Error::InvalidTypeId(_),
        ) && self.same_as(old))
        &&& filter_is_valid(filter, old.type_collections().len()) ==> ({
            let c = old.selected(filter);
            let full = c.slots().len() > MAX_VEC_USIZE || c.next_handle() == IdType::MAX;
            &&& full ==> (r matches Err(Error::TooManyHandlers) && self.same_as(old))
            &&& !full ==> (r == Ok::<HandlerHandle, Error>(HandlerHandle(filter, c.next_handle()))
                && self.is_with_selected(old, filter, self.selected(filter)) && self.selected(
                filter,
            ).slots() == c.slots().push(Some(CallbackSlot { handle: c.next_handle(), sender_filter }))
                && self.selected(filter).next_handle() == c.next_handle() + 1 && self.selected(
                filter,
            ).name() == c.name())
        })
    }

    /// Adds a handler for the message type that the filter selects (every
    /// message type for no filter), optionally filtered by sender.
    pub fn add_handler(
        &mut self,
        handler: H,
        message_type_filter: Option<LocalId<TypeId>>,
        sender_filter: Option<LocalId<SenderId>>,
    ) -> (r: Result<HandlerHandle, Error>)
        requires
            old(self).wf(),
        ensures
            final(self).wf(),
            final(self).handler_added(*old(self), message_type_filter, sender_filter, r),
    {
        match message_type_filter {
            None => {
                let inner = self.generic_callbacks.add(handler, sender_filter);
                match inner {
                    Ok(h) => Ok(h.into_handler_handle(message_type_filter)),
                    Err(e) => Err(e),
                }
            },
            Some(id) => {
                let t = id.0.0;
                if t < 0 || t as usize >= self.types.len() {
                    return Err(Error::InvalidTypeId(t));
                }
                let ghost old_types = self.types@;
                assert(old_types[t as int].wf());
                let inner = self.types[t as usize].add(handler, sender_filter);
                proof {
                    assert forall|i: int| 0 <= i < self.type_collections().len() implies (#[trigger] self.type_collections()[i]).wf() by {
                        if i != t {
                            assert(self.types@[i] == old_types[i]);
                        }
                    }
                    if inner is Err {
                        assert(self.types@ =~= old_types);
                    }
                }
                match inner {
                    Ok(h) => Ok(h.into_handler_handle(message_type_filter)),
                    Err(e) => Err(e),
                }
            },
        }
    }

    /// Removes a handler, given the handle it was added with.
    pub fn remove_handler(&mut self, handler_handle: HandlerHandle) -> (r: Result<(), Error>)
        requires
            old(self).wf(),
        ensures
            final(self).wf(),
            !filter_is_valid(handler_handle.0, old(self).type_collections().len()) ==> (r matches Err(
                Error::InvalidTypeId(_),
            ) && final(self).same_as(*old(self))),
            filter_is_valid(handler_handle.0, old(self).type_collections().len()) ==> ({
                let c = old(self).selected(handler_handle.0);
                let after = final(self).selected(handler_handle.0);
                &&& final(self).is_with_selected(*old(self), handler_handle.0, after)
                &&& after.name() == c.name()
                &&& after.next_handle() == c.next_handle()
                &&& !has_handle(c.slots(), handler_handle.1) ==> (r matches Err(Error::HandlerNotFound)
                    && after.slots() == c.slots())
                &&& has_handle(c.slots(), handler_handle.1) ==> (r is Ok && exists|i: int|
                    is_first_handle(c.slots(), handler_handle.1, i) && after.slots()
                        == c.slots().remove(i))
            }),
    {
        let HandlerHandle(message_type, inner) = handler_handle;
        match message_type {
            None => self.generic_callbacks.remove(HandlerHandleInner(inner)),
            Some(id) => {
                let t = id.0.0;
                if t < 0 || t as usize >= self.types.len() {
                    return Err(Error::InvalidTypeId(t));
                }
                let ghost old_types = self.types@;
                assert(old_types[t as int].wf());
                let r = self.types[t as usize].remove(HandlerHandleInner(inner));
                proof {
                    assert forall|i: int| 0 <= i < self.type_collections().len() implies (#[trigger] self.type_collections()[i]).wf() by {
                        if i != t {
                            assert(self.types@[i] == old_types[i]);
                        }
                    }
                }
                r
            },
        }
    }

    /// Calls the handlers for every message type, then those of the
    /// message's type when it is a registered one; each collection as in
    /// `CallbackCollection::call`.  Stops at the first handler that fails.
    pub fn call(&mut self, msg: &GenericMessage) -> (r: Result<(), Error>)
        requires
            old(self).wf(),
        ensures
            final(self).wf(),
            call_effect(*old(self), *final(self), msg.header.message_type.0 as int, msg.header.sender),
            call_outcome(
                *old(self),
                *final(self),
                msg.header.message_type.0 as int,
                msg.header.sender,
                r,
            ),
            dispatched(*old(self), *final(self), *msg, r),
    {
        let ghost old_types = self.types@;
        let ghost g0 = self.generic_callbacks;
        let rg = self.generic_callbacks.call(msg);
        let ghost og = choose|o: Seq<Option<Result<HandlerCode, Error>>>|
            handlers_ran(g0.entries(), self.generic_callbacks.slots(), *msg, o, rg);
        assert(handlers_ran(g0.entries(), self.generic_callbacks.slots(), *msg, og, rg));
        match rg {
            Ok(()) => {},
            Err(e) => {
                return Err(e);
            },
        }
        assert(old(self).generic() == g0);
        let t = msg.header.message_type.0;
        if t >= 0 && (t as usize) < self.types.len() {
            assert(old_types[t as int].wf());
            let ghost before_t = old_types[t as int];
            let r = self.types[t as usize].call(msg);
            proof {
                assert forall|i: int| 0 <= i < self.type_collections().len() implies (#[trigger] self.type_collections()[i]).wf() by {
                    if i != t {
                        assert(self.types@[i] == old_types[i]);
                    }
                }
                let ot = choose|o: Seq<Option<Result<HandlerCode, Error>>>|
                    handlers_ran(before_t.entries(), self.types@[t as int].slots(), *msg, o, r);
                assert(handlers_ran(before_t.entries(), self.types@[t as int].slots(), *msg, ot, r));
                assert(old(self).type_collections()[t as int] == before_t);
                assert(self.type_collections()[t as int] == self.types@[t as int]);
                assert(handlers_ran(old(self).generic().entries(), self.generic().slots(), *msg, og, rg));
            }
            return r;
        }
        assert(handlers_ran(old(self).generic().entries(), self.generic().slots(), *msg, og, rg));
        Ok(())
    }

    /// Dispatches a user message: system messages are skipped; a message of
    /// an unregistered type is an error; otherwise the handlers for every
    /// message type are called, then those of the message's type.
    pub fn do_callbacks_for(&mut self, msg: GenericMessage) -> (r: Result<(), Error>)
        requires
            old(self).wf(),
        ensures
            final(self).wf(),
            final(self).sender_names() == old(self).sender_names(),
            final(self).system_handlers() == old(self).system_handlers(),
            ({
                let t = msg.header.message_type.0 as int;
                let n = old(self).type_collections().len();
                &&& t < 0 ==> (r is Ok && final(self).same_as(*old(self)))
                &&& t >= n ==> (r matches Err(Error::InvalidTypeId(id)) && id == t && final(self).same_as(*old(self)))
                &&& 0 <= t < n ==> call_effect(*old(self), *final(self), t, msg.header.sender)
                    && dispatched(*old(self), *final(self), msg, r)
            }),
    {
        let t = msg.header.message_type.0;
        if t < 0 {
            return Ok(());
        }
        if t as usize >= self.types.len() {
            return Err(Error::InvalidTypeId(t));
        }
        self.call(&msg)
    }

    /// Sets the handler of a system message type, replacing any earlier one.
    /// A non-negative type ID is refused.
    pub fn set_system_handler(&mut self, message_type: TypeId, handler: H) -> (r: Result<
        (),
        Error,
    >)
        requires
            old(self).wf(),
        ensures
            final(self).wf(),
            final(self).type_collections() == old(self).type_collections(),
            final(self).generic() == old(self).generic(),
            final(self).sender_names() == old(self).sender_names(),
            message_type.0 >= 0 ==> (r matches Err(Error::InvalidTypeId(id)) && id == message_type.0
                && final(self).system_handlers() == old(self).system_handlers()),
            message_type.0 < 0 ==> (r is Ok && final(self).system_handlers() == padded_flags(
                old(self).system_handlers(),
                (-message_type.0 + 1) as nat,
            ).update(-message_type.0, true)),
            message_type.0 >= 0 ==> final(self).system_callbacks() == old(self).system_callbacks(),
            message_type.0 < 0 ==> ({
                let i = -message_type.0;
                let before = old(self).system_callbacks();
                let after = final(self).system_callbacks();
                &&& i < after.len()
                &&& after.len() >= before.len()
                &&& after[i] == Some(handler)
                &&& forall|j: int|
                    0 <= j < after.len() && j != i ==> #[trigger] after[j] == (if j < before.len() {
                        before[j]
                    } else {
                        None
                    })
            }),
    {
        let t = message_type.0;
        if t >= 0 {
            return Err(Error::InvalidTypeId(t));
        }
        let real_index = (-(t as i64)) as usize;
        let ghost start = self.system_handlers();
        let ghost start_cb = self.system_callbacks@;
        while real_index >= self.system_callbacks.len()
            invariant
                self.system_callbacks@.len() >= start_cb.len(),
                start_cb == old(self).system_callbacks(),
                forall|j: int|
                    0 <= j < self.system_callbacks@.len() ==> #[trigger] self.system_callbacks@[j] == (
                    if j < start_cb.len() {
                        start_cb[j]
                    } else {
                        None
                    }),
                self.system_handlers() == padded_flags(start, self.system_handlers().len()),
                self.system_handlers().len() >= start.len(),
                self.system_handlers().len() <= real_index + 1 || self.system_handlers().len()
                    == start.len(),
                self.types@ == old(self).types@,
                self.generic_callbacks == old(self).generic_callbacks,
                self.senders@ == old(self).senders@,
            decreases real_index + 1 - self.system_callbacks@.len(),
        {
            let ghost before = self.system_callbacks@;
            self.system_callbacks.push(None);
            assert forall|j: int|
                0 <= j < self.system_callbacks@.len() implies #[trigger] self.system_callbacks@[j]
                == (if j < start_cb.len() {
                start_cb[j]
            } else {
                None
            }) by {
                if j < before.len() {
                    assert(self.system_callbacks@[j] == before[j]);
                }
            }
            assert(self.system_handlers() =~= before.map_values(|h: Option<H>| h is Some).push(false));
            assert(self.system_handlers() =~= padded_flags(start, self.system_handlers().len()));
        }
        assert(self.system_handlers() =~= padded_flags(start, (real_index + 1) as nat));
        let ghost before = self.system_callbacks@;
        self.system_callbacks.set(real_index, Some(handler));
        assert(self.system_handlers() =~= padded_flags(start, (real_index + 1) as nat).update(
            real_index as int,
            true,
        ));
        Ok(())
    }

    /// Calls the handler of a system message's type, if it has one.  A
    /// message of a non-negative type is refused.
    pub fn do_system_callbacks_for(&mut self, msg: GenericMessage) -> (r: Result<(), Error>)
        requires
            old(self).wf(),
        ensures
            final(self).wf(),
            final(self).type_collections() == old(self).type_collections(),
            final(self).generic() == old(self).generic(),
            final(self).sender_names() == old(self).sender_names(),
            final(self).system_handlers() == old(self).system_handlers(),
            msg.header.message_type.0 >= 0 ==> (r matches Err(Error::InvalidTypeId(id)) && id
                == msg.header.message_type.0),
            (msg.header.message_type.0 < 0 && (-msg.header.message_type.0 >= old(self).system_handlers().len() || !old(self).system_handlers()[-msg.header.message_type.0]))
                ==> r is Ok,
            ({
                let i = -msg.header.message_type.0;
                (msg.header.message_type.0 < 0 && i < old(self).system_callbacks().len()
                    && old(self).system_callbacks()[i] is Some) ==> exists|o: Result<HandlerCode, Error>|
                    old(self).system_callbacks()[i]->Some_0.handles(msg, o) && r
                        == #[trigger] outcome_result(o)
            }),
    {
        let t = msg.header.message_type.0;
        if t >= 0 {
            return Err(Error::InvalidTypeId(t));
        }
        let real_index = (-(t as i64)) as usize;
        if real_index >= self.system_callbacks.len() {
            return Ok(());
        }
        let ghost before = self.system_callbacks@;
        let taken = self.system_callbacks[real_index].take();
        match taken {
            Some(mut handler) => {
                let res = handler.handle(&msg);
                let ghost o = res;
                assert(outcome_result(o) == match res {
                    Ok(_) => Ok::<(), Error>(()),
                    Err(e) => Err(e),
                });
                self.system_callbacks.set(real_index, Some(handler));
                assert(self.system_handlers() =~= before.map_values(|h: Option<H>| h is Some));
                match res {
                    Ok(_) => Ok(()),
                    Err(e) => Err(e),
                }
            },
            None => {
                assert(self.system_callbacks@ =~= before);
                Ok(())
            },
        }
    }

    /// A dispatcher with the system sender and message types registered (see
    /// `try_register_system_senders_and_messages`) and no handlers.
    pub fn new() -> (r: Result<TypeDispatcher<H>, Error>)
        ensures
            r matches Ok(d) && d.wf() && d.sender_names() == seq![control_spec()]
                && d.type_names() == seq![
                got_first_connection_spec(),
                got_connection_spec(),
                dropped_connection_spec(),
                dropped_last_connection_spec(),
            ] && d.generic().slots().len() == 0 && d.system_handlers().len() == 0 && (forall|i: int|
                0 <= i < d.type_collections().len() ==> (#[trigger] d.type_collections()[i]).slots().len()
                    == 0),
    {
        let mut disp: TypeDispatcher<H> = TypeDispatcher {
            types: Vec::new(),
            generic_callbacks: CallbackCollection::new(),
            senders: Vec::new(),
            system_callbacks: Vec::new(),
        };
        assert(disp.type_names() =~= Seq::<Seq<u8>>::empty());
        assert(disp.sender_names() =~= Seq::<Seq<u8>>::empty());
        assert(disp.system_handlers() =~= Seq::<bool>::empty());
        let ghost g = disp.generic();
        match try_register_system_senders_and_messages(&mut disp) {
            Ok(()) => {},
            Err(e) => return Err(e),
        }
        proof {
            let e = Seq::<Seq<u8>>::empty();
            assert(with_name(e, control_spec()) =~= seq![control_spec()]);
            let t1 = with_name(e, got_first_connection_spec());
            assert(t1 =~= seq![got_first_connection_spec()]);
            let t2 = with_name(t1, got_connection_spec());
            assert(!t1.contains(got_connection_spec())) by {
                assert(t1[0].len() != got_connection_spec().len());
            }
            assert(t2 =~= seq![got_first_connection_spec(), got_connection_spec()]);
            let t3 = with_name(t2, dropped_connection_spec());
            assert(!t2.contains(dropped_connection_spec())) by {
                assert(t2[0].len() != dropped_connection_spec().len());
                assert(t2[1].len() != dropped_connection_spec().len());
            }
            assert(t3 =~= seq![got_first_connection_spec(), got_connection_spec(), dropped_connection_spec()]);
            let t4 = with_name(t3, dropped_last_connection_spec());
            assert(!t3.contains(dropped_last_connection_spec())) by {
                assert(t3[0].len() != dropped_last_connection_spec().len());
                assert(t3[1].len() != dropped_last_connection_spec().len());
                assert(t3[2].len() != dropped_last_connection_spec().len());
            }
        }
        Ok(disp)
    }

    /// Adds a handler for the message type of bodies of type `B`: a user
    /// message type is registered by name first; a system message type is
    /// used as it is (and is refused, since it has no handler collection).
    pub fn add_typed_handler<B: TypedMessageBody>(
        &mut self,
        handler: H,
        sender_filter: Option<LocalId<SenderId>>,
    ) -> (r: Result<HandlerHandle, Error>)
        requires
            old(self).wf(),
        ensures
            final(self).wf(),
            match B::type_identity() {
                MessageTypeIdentity::SystemMessageId(id) => final(self).handler_added(
                    *old(self),
                    Some(LocalId(id)),
                    sender_filter,
                    r,
                ),
                MessageTypeIdentity::UserMessageName(name) => {
                    let names = old(self).type_names();
                    &&& names.contains(name) ==> exists|i: int|
                        is_first_name(names, name, i) && #[trigger] final(self).handler_added(
                            *old(self),
                            Some(LocalId(TypeId(i as IdType))),
                            sender_filter,
                            r,
                        )
                    &&& !names.contains(name) && names.len() > MAX_VEC_USIZE ==> (r matches Err(
                        Error::TooManyMappings,
                    ) && final(self).same_as(*old(self)))
                    &&& !names.contains(name) && names.len() <= MAX_VEC_USIZE ==> {
                        let c = final(self).type_collections().last();
                        &&& r == Ok::<HandlerHandle, Error>(
                            HandlerHandle(Some(LocalId(TypeId(names.len() as IdType))), 0),
                        )
                        &&& final(self).type_names() == names.push(name)
                        &&& final(self).type_collections().drop_last() == old(self).type_collections()
                        &&& c.slots() == seq![Some(CallbackSlot { handle: 0, sender_filter })]
                        &&& c.next_handle() == 1
                        &&& final(self).generic() == old(self).generic()
                        &&& final(self).sender_names() == old(self).sender_names()
                        &&& final(self).system_handlers() == old(self).system_handlers()
                    }
                },
            },
    {
        let ident = B::message_identifier();
        let ghost identifier = ident;
        let message_type = match ident {
            MessageTypeIdentifier::UserMessageName(name) => {
                let registered = self.register_type(TypeName::from_static(name));
                match registered {
                    Ok(m) => m.into_inner(),
                    Err(e) => return Err(e),
                }
            },
            MessageTypeIdentifier::SystemMessageId(id) => LocalId(id),
        };
        let ghost mid = *self;
        let r = self.add_handler(handler, Some(message_type), sender_filter);
        proof {
            if let MessageTypeIdentifier::UserMessageName(n) = identifier {
                let names = old(self).type_names();
                if names.contains(n.0@) {
                    assert(mid.same_as(*old(self)));
                    assert(self.handler_added(*old(self), Some(message_type), sender_filter, r));
                    let i = message_type.0.0 as int;
                    assert(is_first_name(names, n.0@, i));
                    assert(LocalId(TypeId(i as IdType)) == message_type);
                    assert(exists|j: int|
                        is_first_name(names, n.0@, j) && #[trigger] self.handler_added(
                            *old(self),
                            Some(LocalId(TypeId(j as IdType))),
                            sender_filter,
                            r,
                        ));
                } else {
                    let i = message_type.0.0 as int;
                    assert(i == names.len());
                    assert(mid.type_collections()[i] == mid.type_collections().last());
                    assert(self.type_collections().drop_last() =~= old(self).type_collections());
                    let c = self.type_collections().last();
                    assert(c.slots() =~= seq![Some(CallbackSlot { handle: 0, sender_filter })]);
                    assert(self.type_names() =~= names.push(n.0@));
                }
            } else {
                assert(Some(message_type) == Some(LocalId(identifier->SystemMessageId_0)));
            }
        }
        r
    }

    /// The description messages of every registered sender, then of every
    /// registered message type, in order of local ID.  Fails when a name is
    /// too long for a description.
    pub fn pack_all_descriptions(&self) -> (r: Result<Vec<GenericMessage>, Error>)
        requires
            self.wf(),
        ensures
            ({
                let s = self.sender_names();
                let t = self.type_names();
                &&& (forall|i: int| 0 <= i < s.len() ==> description_ok(#[trigger] s[i])) && (forall|
                    i: int,
                | 0 <= i < t.len() ==> description_ok(#[trigger] t[i])) ==> r is Ok
                &&& r matches Ok(v) ==> v@.len() == s.len() + t.len() && (forall|i: int|
                    0 <= i < s.len() ==> is_description_of(
                        #[trigger] v@[i],
                        TypeId(SENDER_DESCRIPTION),
                        i,
                        s[i],
                    )) && (forall|i: int|
                    0 <= i < t.len() ==> is_description_of(
                        #[trigger] v@[s.len() + i],
                        TypeId(TYPE_DESCRIPTION),
                        i,
                        t[i],
                    ))
            }),
    {
        let mut out: Vec<GenericMessage> = Vec::new();
        let ns = self.senders.len();
        let mut i: usize = 0;
        while i < ns
            invariant
                ns == self.senders@.len() == self.sender_names().len(),
                ns <= MAX_VEC_USIZE + 1,
                i <= ns,
                out@.len() == i,
                forall|k: int| 0 <= k < i ==> description_ok(#[trigger] self.sender_names()[k]),
                forall|k: int|
                    0 <= k < i ==> is_description_of(
                        #[trigger] out@[k],
                        TypeId(SENDER_DESCRIPTION),
                        k,
                        self.sender_names()[k],
                    ),
            decreases ns - i,
        {
            assert(self.sender_names()[i as int] == bytes_view(self.senders@[i as int].0));
            let m = match into_description_message(SenderId(i as IdType), &self.senders[i].0) {
                Ok(m) => m,
                Err(e) => {
                    assert(!description_ok(self.sender_names()[i as int]));
                    return Err(Error::BufferError(e));
                },
            };
            out.push(m);
            i = i + 1;
        }
        let nt = self.types.len();
        let mut j: usize = 0;
        while j < nt
            invariant
                ns == self.sender_names().len(),
                nt == self.types@.len() == self.type_names().len(),
                nt <= MAX_VEC_USIZE + 1,
                j <= nt,
                out@.len() == ns + j,
                forall|k: int| 0 <= k < ns ==> description_ok(#[trigger] self.sender_names()[k]),
                forall|k: int| 0 <= k < j ==> description_ok(#[trigger] self.type_names()[k]),
                forall|k: int|
                    0 <= k < ns ==> is_description_of(
                        #[trigger] out@[k],
                        TypeId(SENDER_DESCRIPTION),
                        k,
                        self.sender_names()[k],
                    ),
                forall|k: int|
                    0 <= k < j ==> is_description_of(
                        #[trigger] out@[ns + k],
                        TypeId(TYPE_DESCRIPTION),
                        k,
                        self.type_names()[k],
                    ),
            decreases nt - j,
        {
            assert(self.type_names()[j as int] == self.types@[j as int].name());
            let m = match into_description_message(TypeId(j as IdType), self.types[j].name_bytes()) {
                Ok(m) => m,
                Err(e) => {
                    assert(!description_ok(self.type_names()[j as int]));
                    return Err(Error::BufferError(e));
                },
            };
            out.push(m);
            j = j + 1;
        }
        Ok(out)
    }
}

/// Registers the system sender (`control`) and the system message types
/// (`got_first_connection`, `got_connection`, `dropped_connection`,
/// `dropped_last_connection`), each unless already registered.
pub fn try_register_system_senders_and_messages<H: Handler>(disp: &mut TypeDispatcher<H>) -> (r:
    Result<(), Error>)
    requires
        old(disp).wf(),
    ensures
        final(disp).wf(),
        final(disp).generic() == old(disp).generic(),
        final(disp).system_handlers() == old(disp).system_handlers(),
        (old(disp).sender_names().len() <= MAX_VEC_USIZE && old(disp).type_names().len() + 3
            <= MAX_VEC_USIZE) ==> (r is Ok && final(disp).sender_names() == with_name(
            old(disp).sender_names(),
            control_spec(),
        ) && final(disp).type_names() == with_name(
            with_name(
                with_name(
                    with_name(old(disp).type_names(), got_first_connection_spec()),
                    got_connection_spec(),
                ),
                dropped_connection_spec(),
            ),
            dropped_last_connection_spec(),
        )),
        grows(old(disp).type_collections(), final(disp).type_collections()),
{
    match disp.register_sender(SenderName::from_static(control())) {
        Ok(_) => {},
        Err(e) => return Err(e),
    }
    let ghost c0 = disp.type_collections();
    assert(grows(c0, c0));
    match disp.register_type(TypeName::from_static(got_first_connection())) {
        Ok(_) => {},
        Err(e) => return Err(e),
    }
    proof {
        lemma_grows_step(c0, c0, disp.type_collections());
    }
    let ghost c1 = disp.type_collections();
    match disp.register_type(TypeName::from_static(got_connection())) {
        Ok(_) => {},
        Err(e) => return Err(e),
    }
    proof {
        lemma_grows_step(c0, c1, disp.type_collections());
    }
    let ghost c2 = disp.type_collections();
    match disp.register_type(TypeName::from_static(dropped_connection())) {
        Ok(_) => {},
        Err(e) => return Err(e),
    }
    proof {
        lemma_grows_step(c0, c2, disp.type_collections());
    }
    let ghost c3 = disp.type_collections();
    match disp.register_type(TypeName::from_static(dropped_last_connection())) {
        Ok(_) => {},
        Err(e) => return Err(e),
    }
    proof {
        lemma_grows_step(c0, c3, disp.type_collections());
    }
    Ok(())
}

/// Whether `after` keeps every collection of `before` and adds only
/// collections without handlers.
pub open spec fn grows<H: Handler>(
    before: Seq<CallbackCollection<H>>,
    after: Seq<CallbackCollection<H>>,
) -> bool {
    &&& after.len() >= before.len()
    &&& forall|i: int| 0 <= i < before.len() ==> #[trigger] after[i] == before[i]
    &&& forall|i: int| before.len() <= i < after.len() ==> (#[trigger] after[i]).slots().len() == 0
}

/// Keeping every collection, or adding one without handlers, preserves `grows`.
proof fn lemma_grows_step<H: Handler>(
    a: Seq<CallbackCollection<H>>,
    b: Seq<CallbackCollection<H>>,
    c: Seq<CallbackCollection<H>>,
)
    requires
        grows(a, b),
        c == b || (c.len() > 0 && c.drop_last() == b && c.last().slots().len() == 0),
    ensures
        grows(a, c),
{
    if c != b {
        assert forall|i: int| 0 <= i < b.len() implies c[i] == b[i] by {
            assert(c.drop_last()[i] == c[i]);
        }
    }
}

/// Whether a name can be put in a description message.
pub open spec fn description_ok(name: Seq<u8>) -> bool {
    name_fits(name) && name.len() + 5 <= isize::MAX
}

/// Whether `m` is the description message of identifier `id` of the kind
/// that `desc_type` describes, with the given name.
pub open spec fn is_description_of(m: GenericMessage, desc_type: TypeId, id: int, name: Seq<u8>) -> bool {
    &&& m.header.message_type == desc_type
    &&& m.header.sender.0 == id
    &&& bytes_view(m.body.inner) == description_wire(name)
}

} // verus!
