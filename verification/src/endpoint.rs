//! What an endpoint decides about the messages it receives: translating
//! remote IDs to local ones, sending system messages to the endpoint and
//! the rest to the dispatcher, and whether it is still open.
use crate::byte_buffer::bytes_view;
use crate::descriptions::{description_wire, into_description_message, name_fits};
use crate::error::Error;
use crate::message::{GenericMessage, Message, MessageHeader};
use crate::system::{handle_system_message, system_answer, system_outcome, Endpoint};
use crate::translation_table::{
    entry_has_local, is_first_with_local, lookup_spec, TranslationTable, TranslationTableError,
    TranslationTables,
};
use crate::type_dispatcher::{call_effect, call_outcome, dispatched, Handler, TypeDispatcher};
use crate::types::{
    BaseTypeSafeId, ClassOfService, IdType, LocalId, RemoteId, SenderId, TypeId, TypeSafeId,
};
use crate::wire::BufferError;
use vstd::prelude::*;

verus! {

/// Whether an endpoint is still open.
#[derive(Debug, Clone, Copy, PartialEq, Eq, Structural)]
pub enum EndpointStatus {
    /// Open.
    Open,
    /// Closed.
    Closed,
}

impl EndpointStatus {
    /// `Closed` when `closed`, else `Open`.
    pub fn from_closed(closed: bool) -> (r: EndpointStatus)
        ensures
            r == (if closed {
                EndpointStatus::Closed
            } else {
                EndpointStatus::Open
            }),
    {
        if closed {
            EndpointStatus::Closed
        } else {
            EndpointStatus::Open
        }
    }

    /// Combines with another status: closed when either is.
    pub fn accumulate_closed(&mut self, other: EndpointStatus)
        ensures
            *final(self) == (if *old(self) == EndpointStatus::Closed || other
                == EndpointStatus::Closed {
                EndpointStatus::Closed
            } else {
                EndpointStatus::Open
            }),
    {
        if other == EndpointStatus::Closed {
            *self = EndpointStatus::Closed;
        }
    }
}

/// Whether `r` is the error for a failed translation table lookup.
pub open spec fn is_translation_error(e: TranslationTableError, r: Error) -> bool {
    match e {
        TranslationTableError::InvalidRemoteId(id) => r matches Error::InvalidRemoteId(x) && x == id,
        TranslationTableError::EmptyEntry => r matches Error::EmptyEntry,
    }
}

/// Converts a translation table error.
fn from_translation_error(e: TranslationTableError) -> (r: Error)
    ensures
        is_translation_error(e, r),
{
    match e {
        TranslationTableError::InvalidRemoteId(id) => Error::InvalidRemoteId(id),
        TranslationTableError::EmptyEntry => Error::EmptyEntry,
    }
}

/// The local value of a remote ID: system IDs (negative) stay as they are.
pub open spec fn local_value(found: Option<IdType>, remote: IdType) -> IdType {
    match found {
        Some(l) => l,
        None => remote,
    }
}

/// Translates the message type and sender of a received message from the
/// peer's IDs to local ones.  System IDs (negative) are kept.
pub fn map_remote_message_to_local(tables: &TranslationTables, msg: GenericMessage) -> (r: Result<
    GenericMessage,
    Error,
>)
    ensures
        ({
            let t = lookup_spec(tables.types.entries(), msg.header.message_type.0);
            let s = lookup_spec(tables.senders.entries(), msg.header.sender.0);
            &&& t matches Err(e) ==> (r matches Err(x) && is_translation_error(e, x))
            &&& t is Ok ==> (s matches Err(e) ==> (r matches Err(x) && is_translation_error(e, x)))
            &&& (t is Ok && s is Ok) ==> (r matches Ok(m) && m.body == msg.body && m.header.time
                == msg.header.time && m.header.message_type.0 == local_value(
                match t {
                    Ok(Some(l)) => Some(l.0.0),
                    _ => None,
                },
                msg.header.message_type.0,
            ) && m.header.sender.0 == local_value(
                match s {
                    Ok(Some(l)) => Some(l.0.0),
                    _ => None,
                },
                msg.header.sender.0,
            ))
        }),
{
    let message_type = match tables.types.map_to_local_id(RemoteId(msg.header.message_type)) {
        Ok(Some(l)) => l.0,
        Ok(None) => msg.header.message_type,
        Err(e) => return Err(from_translation_error(e)),
    };
    let sender = match tables.senders.map_to_local_id(RemoteId(msg.header.sender)) {
        Ok(Some(l)) => l.0,
        Ok(None) => msg.header.sender,
        Err(e) => return Err(from_translation_error(e)),
    };
    let header = MessageHeader { time: msg.header.time, message_type, sender };
    Ok(Message::from_header_and_body(header, msg.body))
}

/// The message `msg` with its type and sender IDs replaced.
pub open spec fn with_ids(msg: GenericMessage, message_type: IdType, sender: IdType) -> GenericMessage {
    Message {
        header: MessageHeader {
            time: msg.header.time,
            message_type: TypeId(message_type),
            sender: SenderId(sender),
        },
        body: msg.body,
    }
}

/// What receiving `msg` gives: its type and sender IDs are translated by
/// `tables` (a failed lookup is the result, with the dispatcher unchanged);
/// a message of a system type (negative) then goes to the endpoint (see
/// `system_outcome` and `system_answer`) and leaves the dispatcher as it
/// was; any other goes to the dispatcher's handlers (see `dispatched`).
pub open spec fn received_effect<E: Endpoint, H: Handler>(
    endpoint: E,
    tables: TranslationTables,
    before: TypeDispatcher<H>,
    after: TypeDispatcher<H>,
    msg: GenericMessage,
    r: Result<(), Error>,
) -> bool {
    let t = lookup_spec(tables.types.entries(), msg.header.message_type.0);
    let s = lookup_spec(tables.senders.entries(), msg.header.sender.0);
    let local_type = local_value(
        match t {
            Ok(Some(l)) => Some(l.0.0),
            _ => None,
        },
        msg.header.message_type.0,
    );
    let local_sender = local_value(
        match s {
            Ok(Some(l)) => Some(l.0.0),
            _ => None,
        },
        msg.header.sender.0,
    );
    let body = bytes_view(msg.body.inner);
    &&& t matches Err(e) ==> (r matches Err(x) && is_translation_error(e, x) && after.same_as(
        before,
    ))
    &&& t is Ok ==> (s matches Err(e) ==> (r matches Err(x) && is_translation_error(e, x)
        && after.same_as(before)))
    &&& (t is Ok && s is Ok && local_type < 0) ==> (after.same_as(before) && system_outcome(
        local_type,
        body,
        r,
    ) && system_answer(endpoint, local_type, local_sender, body, r))
    &&& (t is Ok && s is Ok && local_type >= 0) ==> (call_effect(
        before,
        after,
        local_type as int,
        SenderId(local_sender),
    ) && call_outcome(before, after, local_type as int, SenderId(local_sender), r) && dispatched(
        before,
        after,
        with_ids(msg, local_type, local_sender),
        r,
    ))
}

/// Handles one received message: translates its IDs, then sends a system
/// message's change to the endpoint (see `handle_system_message`), or
/// dispatches any other message to the handlers.
pub fn dispatch_received<E: Endpoint, H: Handler>(
    endpoint: &E,
    tables: &TranslationTables,
    dispatcher: &mut TypeDispatcher<H>,
    msg: GenericMessage,
) -> (r: Result<(), Error>)
    requires
        old(dispatcher).wf(),
    ensures
        final(dispatcher).wf(),
        received_effect(*endpoint, *tables, *old(dispatcher), *final(dispatcher), msg, r),
{
    let msg = match map_remote_message_to_local(tables, msg) {
        Ok(m) => m,
        Err(e) => return Err(e),
    };
    if msg.is_system_message() {
        handle_system_message(endpoint, msg)
    } else {
        dispatcher.call(&msg)
    }
}

/// `after` is the dispatcher `before` once `msg` was received without
/// failure (see `received_effect`).
pub open spec fn received_step<E: Endpoint, H: Handler>(
    endpoint: E,
    before: TypeDispatcher<H>,
    after: TypeDispatcher<H>,
    tables: TranslationTables,
    msg: GenericMessage,
) -> bool {
    received_effect(endpoint, tables, before, after, msg, Ok(()))
}

/// Handles received messages in order (see `dispatch_received`), stopping
/// at the first failure, which is the result: every message before it was
/// handled, and it was handled as far as its failure.
pub fn dispatch_all_received<E: Endpoint, H: Handler>(
    endpoint: &E,
    tables: &TranslationTables,
    dispatcher: &mut TypeDispatcher<H>,
    msgs: Vec<GenericMessage>,
) -> (r: Result<(), Error>)
    requires
        old(dispatcher).wf(),
    ensures
        final(dispatcher).wf(),
        msgs@.len() == 0 ==> r is Ok && final(dispatcher).same_as(*old(dispatcher)),
        r is Ok ==> exists|states: Seq<TypeDispatcher<H>>|
            {
                &&& states.len() == msgs@.len() + 1
                &&& states[0] == *old(dispatcher)
                &&& states.last() == *final(dispatcher)
                &&& forall|i: int|
                    0 <= i < msgs@.len() ==> #[trigger] received_step(
                        *endpoint,
                        states[i],
                        states[i + 1],
                        *tables,
                        msgs@[i],
                    )
            },
        r matches Err(e) ==> exists|k: int, states: Seq<TypeDispatcher<H>>|
            {
                &&& 0 <= k < msgs@.len()
                &&& states.len() == k + 1
                &&& states[0] == *old(dispatcher)
                &&& forall|i: int|
                    0 <= i < k ==> #[trigger] received_step(
                        *endpoint,
                        states[i],
                        states[i + 1],
                        *tables,
                        msgs@[i],
                    )
                &&& #[trigger] received_effect(
                    *endpoint,
                    *tables,
                    states[k],
                    *final(dispatcher),
                    msgs@[k],
                    Err(e),
                )
            },
{
    let mut queue = msgs;
    let ghost all = msgs@;
    let ghost mut states: Seq<TypeDispatcher<H>> = seq![*dispatcher];
    let ghost mut k: int = 0;
    while queue.len() > 0
        invariant
            dispatcher.wf(),
            0 <= k <= all.len(),
            queue@ == all.skip(k),
            all == msgs@,
            states.len() == k + 1,
            states[0] == *old(dispatcher),
            states.last() == *dispatcher,
            forall|i: int|
                0 <= i < k ==> #[trigger] received_step(
                    *endpoint,
                    states[i],
                    states[i + 1],
                    *tables,
                    all[i],
                ),
            all.len() == 0 ==> dispatcher.same_as(*old(dispatcher)),
        decreases queue@.len(),
    {
        let msg = queue.remove(0);
        assert(msg == all[k]);
        let ghost before = *dispatcher;
        let received = dispatch_received(endpoint, tables, dispatcher, msg);
        let ghost outcome = received;
        assert(received_effect(*endpoint, *tables, before, *dispatcher, all[k], outcome));
        match received {
            Ok(()) => {},
            Err(e) => {
                assert(outcome == Err::<(), Error>(e));
                assert(states[k] == before);
                assert(received_effect(*endpoint, *tables, states[k], *dispatcher, msgs@[k], Err(e)));
                return Err(e);
            },
        }
        assert(outcome is Ok);
        assert(outcome->Ok_0 == ());
        assert(outcome == Ok::<(), Error>(()));
        assert(received_step(*endpoint, before, *dispatcher, *tables, all[k]));
        proof {
            let next = states.push(*dispatcher);
            assert forall|i: int| 0 <= i < k + 1 implies #[trigger] received_step(
                *endpoint,
                next[i],
                next[i + 1],
                *tables,
                all[i],
            ) by {
                if i < k {
                    assert(next[i] == states[i]);
                    assert(next[i + 1] == states[i + 1]);
                }
            }
            states = next;
            k = k + 1;
            assert(queue@ =~= all.skip(k));
        }
    }
    assert(k == all.len());
    Ok(())
}

/// Sorts out endpoints after polling them: those still pending stay, those
/// that finished (whether closed or failed) go.  Also tells whether any
/// endpoint is still pending.
pub fn retain_pending<T>(endpoints: Vec<T>, pending: &Vec<bool>) -> (r: (Vec<T>, bool))
    requires
        endpoints@.len() == pending@.len(),
    ensures
        r.0@ == kept(endpoints@, pending@),
        r.1 == exists|k: int| 0 <= k < pending@.len() && #[trigger] pending@[k],
{
    let mut out: Vec<T> = Vec::new();
    let mut any = false;
    let mut rest = endpoints;
    let n = pending.len();
    let mut i: usize = 0;
    let ghost all = rest@;
    while i < n
        invariant
            n == pending@.len() == all.len(),
            i <= n,
            rest@ == all.skip(i as int),
            out@ == kept(all.take(i as int), pending@.take(i as int)),
            any == exists|k: int| 0 <= k < i && #[trigger] pending@[k],
        decreases n - i,
    {
        let ep = rest.remove(0);
        assert(ep == all[i as int]);
        assert(rest@ =~= all.skip(i + 1));
        assert(all.take(i + 1).drop_last() =~= all.take(i as int));
        assert(pending@.take(i + 1).drop_last() =~= pending@.take(i as int));
        if pending[i] {
            out.push(ep);
            any = true;
        }
        i = i + 1;
    }
    assert(all.take(n as int) =~= all);
    assert(pending@.take(n as int) =~= pending@);
    (out, any)
}

/// The items whose flag is set, in order.
pub open spec fn kept<T>(items: Seq<T>, flags: Seq<bool>) -> Seq<T>
    decreases items.len(),
{
    if items.len() == 0 || flags.len() == 0 {
        Seq::empty()
    } else {
        let rest = kept(items.drop_last(), flags.drop_last());
        if flags.last() {
            rest.push(items.last())
        } else {
            rest
        }
    }
}

/// The channel a message goes out on.
#[derive(Debug, Clone, Copy, PartialEq, Eq, Structural)]
pub enum Channel {
    /// The reliable (TCP) channel.
    Reliable,
    /// The low-latency (UDP) channel.
    LowLatency,
}

/// Chooses the channel for a message: the reliable one when the class of
/// service asks for reliability or there is no low-latency channel.
pub fn choose_channel(class: ClassOfService, has_low_latency: bool) -> (r: Channel)
    ensures
        r == (if class.mask & 1 == 1 || !has_low_latency {
            Channel::Reliable
        } else {
            Channel::LowLatency
        }),
{
    if class.contains(ClassOfService::reliable()) || !has_low_latency {
        Channel::Reliable
    } else {
        Channel::LowLatency
    }
}

/// The description message of a local ID, with the name the table records
/// for it.  A local ID the table does not hold is an error.
pub fn pack_description<T: BaseTypeSafeId>(table: &TranslationTable<T>, local_id: LocalId<T>) -> (r:
    Result<GenericMessage, Error>)
    ensures
        (forall|i: int|
            0 <= i < table.entries().len() ==> !entry_has_local(#[trigger] table.entries()[i], local_id))
            ==> (r matches Err(Error::InvalidLocalId(id)) && id == local_id.id_value()),
        r matches Ok(m) ==> exists|i: int|
            is_first_with_local(table.entries(), local_id, i) && m.header.message_type
                == T::description_type_id() && m.header.sender.0 == local_id.id_value()
                && bytes_view(m.body.inner) == description_wire(
                bytes_view(table.entries()[i]->Some_0.name),
            ),
        forall|i: int|
            #[trigger] is_first_with_local(table.entries(), local_id, i) ==> ({
                let name = bytes_view(table.entries()[i]->Some_0.name);
                &&& (name_fits(name) && name.len() + 5 <= isize::MAX) ==> (r matches Ok(m)
                    && m.header.message_type == T::description_type_id() && m.header.sender.0
                    == local_id.id_value() && bytes_view(m.body.inner) == description_wire(name))
                &&& !(name_fits(name) && name.len() + 5 <= isize::MAX) ==> (r matches Err(
                    Error::BufferError(BufferError::OutOfBuffer),
                ))
            }),
{
    let entry = match table.get_by_local_id(local_id) {
        Some(e) => e,
        None => return Err(Error::InvalidLocalId(local_id.get())),
    };
    proof {
        let k = choose|k: int|
            is_first_with_local(table.entries(), local_id, k) && table.entries()[k] == Some(*entry);
        assert forall|i: int| #[trigger] is_first_with_local(table.entries(), local_id, i) implies i
            == k by {
            if i < k {
                assert(!entry_has_local(table.entries()[i], local_id));
            }
            if k < i {
                assert(!entry_has_local(table.entries()[k], local_id));
            }
        }
    }
    match into_description_message(local_id.0, &entry.name) {
        Ok(m) => Ok(m),
        Err(e) => Err(Error::BufferError(e)),
    }
}

} // verus!
