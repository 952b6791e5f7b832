use bytes::Bytes;
use std::sync::{Arc, Mutex};
use vrpn::descriptions::InnerDescription;
use vrpn::endpoint::{dispatch_all_received, dispatch_received};
use vrpn::error::Error;
use vrpn::message::{GenericBody, GenericMessage, MessageHeader};
use vrpn::system::{unbuffer_typed_message_body, Endpoint, SystemMessage};
use vrpn::tracker::PoseReport;
use vrpn::time::TimeVal;
use vrpn::translation_table::{TranslationTable, TranslationTableError, TranslationTables};
use vrpn::type_dispatcher::{
    after_handler, CallbackCollection, Handler, HandlerCode, HandlerHandle, RegisterMapping,
    TypeDispatcher,
};
use vrpn::types::{LocalId, RemoteId, SenderId, SenderName, TypeId, TypeName};

#[test]
fn translation_table_simple() {
    let mut table: TranslationTable<SenderId> = TranslationTable::new();
    table
        .add_remote_entry(
            Bytes::from_static(b"asdf"),
            RemoteId(SenderId(0)),
            LocalId(SenderId(0)),
        )
        .expect("Failed adding remote entry");
}

#[test]
fn translationtable_simple() {
    let mut table: TranslationTable<SenderId> = TranslationTable::new();
    table
        .add_remote_entry(
            Bytes::from_static(b"asdf"),
            RemoteId(SenderId(0)),
            LocalId(SenderId(0)),
        )
        .expect("Failed adding remote entry");
}

#[test]
fn translation_lookups() {
    let mut table: TranslationTable<SenderId> = TranslationTable::default();
    assert_eq!(
        table.map_to_local_id(RemoteId(SenderId(0))),
        Err(TranslationTableError::InvalidRemoteId(0))
    );
    assert_eq!(table.map_to_local_id(RemoteId(SenderId(-1))), Ok(None));
    table
        .add_remote_entry(Bytes::from_static(b"b"), RemoteId(SenderId(2)), LocalId(SenderId(5)))
        .unwrap();
    assert_eq!(
        table.map_to_local_id(RemoteId(SenderId(2))),
        Ok(Some(LocalId(SenderId(5))))
    );
    // The entries before it exist but are empty.
    assert_eq!(
        table.map_to_local_id(RemoteId(SenderId(1))),
        Err(TranslationTableError::EmptyEntry)
    );
    assert_eq!(
        table.map_to_local_id(RemoteId(SenderId(3))),
        Err(TranslationTableError::InvalidRemoteId(3))
    );
    assert_eq!(
        table.add_remote_entry(Bytes::from_static(b"c"), RemoteId(SenderId(-4)), LocalId(SenderId(1))),
        Err(TranslationTableError::InvalidRemoteId(-4))
    );
    assert!(table.add_local_id(Bytes::from_static(b"b"), LocalId(SenderId(9))));
    assert!(!table.add_local_id(Bytes::from_static(b"zz"), LocalId(SenderId(9))));
    assert_eq!(
        table.map_to_local_id(RemoteId(SenderId(2))),
        Ok(Some(LocalId(SenderId(9))))
    );
    let entry = table.get_by_local_id(LocalId(SenderId(9))).expect("entry");
    assert_eq!(entry.remote_id(), RemoteId(SenderId(2)));
    assert_eq!(&entry.name()[..], b"b");
    assert!(table.get_by_local_id(LocalId(SenderId(5))).is_none());
    let found = table.find_by_predicate(|e| e.name()[..] == b"b"[..]).expect("found");
    assert_eq!(found.local_id(), LocalId(SenderId(9)));
    assert_eq!(table.iter().len(), 1);
    table.clear();
    assert_eq!(
        table.map_to_local_id(RemoteId(SenderId(2))),
        Err(TranslationTableError::InvalidRemoteId(2))
    );
    let mut tables = TranslationTables::new();
    tables
        .types
        .add_remote_entry(Bytes::from_static(b"t"), RemoteId(TypeId(0)), LocalId(TypeId(4)))
        .unwrap();
    tables.clear();
    assert_eq!(tables.types.iter().len(), 0);
}

#[derive(Debug, Clone)]
struct SetTo10 {
    val: Arc<Mutex<i8>>,
}
impl Handler for SetTo10 {
    fn handle(&mut self, _msg: &GenericMessage) -> Result<HandlerCode, Error> {
        let mut val = self.val.lock().unwrap();
        *val = 10;
        Ok(HandlerCode::ContinueProcessing)
    }
}
#[derive(Debug, Clone)]
struct SetTo15 {
    val: Arc<Mutex<i8>>,
}
impl Handler for SetTo15 {
    fn handle(&mut self, _msg: &GenericMessage) -> Result<HandlerCode, Error> {
        let mut val = self.val.lock().unwrap();
        *val = 15;
        Ok(HandlerCode::ContinueProcessing)
    }
}

fn message(type_id: i32, sender: i32) -> GenericMessage {
    GenericMessage::from_header_and_body(
        MessageHeader::new(Some(TimeVal::get_time_of_day()), TypeId(type_id), SenderId(sender)),
        GenericBody::default(),
    )
}

#[test]
fn typedispatcher_callback_collection() {
    let mut collection: CallbackCollection<Box<dyn Handler>> = CallbackCollection::new();
    collection.call(&message(0, 0)).unwrap();
}

#[test]
fn type_dispatcher_callback_collection() {
    let val: Arc<Mutex<i8>> = Arc::new(Mutex::new(5));
    let a = Arc::clone(&val);
    let sample_callback = SetTo10 { val: a };
    let b = Arc::clone(&val);
    let sample_callback2 = SetTo15 { val: b };

    let mut collection: CallbackCollection<Box<dyn Handler>> = CallbackCollection::new();
    let handler = collection
        .add(Box::new(sample_callback.clone()), None)
        .unwrap();
    let msg = message(0, 0);
    collection.call(&msg).unwrap();
    assert_eq!(*val.lock().unwrap(), 10);

    collection
        .remove(handler)
        .expect("Can't remove added callback");
    // No callbacks should fire now.
    *val.lock().unwrap() = 5;
    collection.call(&msg).unwrap();
    assert_eq!(*val.lock().unwrap(), 5);

    let _ = collection
        .add(Box::new(sample_callback2), Some(LocalId(SenderId(0))))
        .unwrap();
    *val.lock().unwrap() = 5;
    collection.call(&msg).unwrap();
    assert_eq!(*val.lock().unwrap(), 15);

    // Check that later-registered callbacks get run later
    let _ = collection.add(Box::new(sample_callback), None).unwrap();
    *val.lock().unwrap() = 5;
    collection.call(&msg).unwrap();
    assert_eq!(*val.lock().unwrap(), 10);

    // This shouldn't trigger callback 2
    let mut msg2 = msg.clone();
    msg2.header.sender = SenderId(1);
    *val.lock().unwrap() = 5;
    collection.call(&msg2).unwrap();
    assert_eq!(*val.lock().unwrap(), 10);
}

#[test]
fn type_dispatcher() {
    let val: Arc<Mutex<i8>> = Arc::new(Mutex::new(5));
    let a = Arc::clone(&val);
    let sample_callback = SetTo10 { val: a };
    let b = Arc::clone(&val);
    let sample_callback2 = SetTo15 { val: b };

    let mut dispatcher: TypeDispatcher<Box<dyn Handler>> = TypeDispatcher::new().unwrap();
    let handler = dispatcher
        .add_handler(Box::new(sample_callback.clone()), None, None)
        .unwrap();
    let msg = message(0, 0);
    dispatcher.call(&msg).unwrap();
    assert_eq!(*val.lock().unwrap(), 10);

    dispatcher
        .remove_handler(handler)
        .expect("Can't remove added callback");
    // No callbacks should fire now.
    *val.lock().unwrap() = 5;
    dispatcher.call(&msg).unwrap();
    assert_eq!(*val.lock().unwrap(), 5);

    let _ = dispatcher
        .add_handler(Box::new(sample_callback2), None, Some(LocalId(SenderId(0))))
        .unwrap();
    *val.lock().unwrap() = 5;
    dispatcher.call(&msg).unwrap();
    assert_eq!(*val.lock().unwrap(), 15);

    // Check that later-registered callbacks get run later
    let _ = dispatcher
        .add_handler(Box::new(sample_callback), None, None)
        .unwrap();
    *val.lock().unwrap() = 5;
    dispatcher.call(&msg).unwrap();
    assert_eq!(*val.lock().unwrap(), 10);

    // This shouldn't trigger callback 2
    let mut msg2 = msg.clone();
    msg2.header.sender = SenderId(1);
    *val.lock().unwrap() = 5;
    dispatcher.call(&msg2).unwrap();
    assert_eq!(*val.lock().unwrap(), 10);
}

struct RemoveMe {
    count: Arc<Mutex<u32>>,
}
impl Handler for RemoveMe {
    fn handle(&mut self, _msg: &GenericMessage) -> Result<HandlerCode, Error> {
        *self.count.lock().unwrap() += 1;
        Ok(HandlerCode::RemoveThisHandler)
    }
}

#[test]
fn handler_removing_itself_runs_once() {
    let count = Arc::new(Mutex::new(0u32));
    let mut dispatcher: TypeDispatcher<Box<dyn Handler>> = TypeDispatcher::new().unwrap();
    let t = dispatcher
        .register_type(TypeName(Bytes::from_static(b"my type")))
        .unwrap()
        .into_inner();
    dispatcher
        .add_handler(Box::new(RemoveMe { count: Arc::clone(&count) }), Some(t), None)
        .unwrap();
    let msg = message(t.0 .0, 0);
    dispatcher.call(&msg).unwrap();
    dispatcher.call(&msg).unwrap();
    assert_eq!(*count.lock().unwrap(), 1);
    // Messages of other types do not reach it.
    assert!(matches!(
        dispatcher.do_callbacks_for(message(99, 0)),
        Err(Error::InvalidTypeId(99))
    ));
    assert!(dispatcher.do_callbacks_for(message(-1, 0)).is_ok());
}

#[test]
fn registration_is_idempotent() {
    let mut dispatcher: TypeDispatcher<Box<dyn Handler>> = TypeDispatcher::new().unwrap();
    // The system sender and message types are already there.
    assert_eq!(
        dispatcher.get_sender_id(&SenderName(Bytes::from_static(b"VRPN Control"))),
        Some(LocalId(SenderId(0)))
    );
    assert_eq!(
        dispatcher.get_type_id(&TypeName(Bytes::from_static(b"VRPN_Connection_Got_Connection"))),
        Some(LocalId(TypeId(1)))
    );
    let first = dispatcher
        .register_sender(SenderName(Bytes::from_static(b"Tracker0")))
        .unwrap();
    assert_eq!(first, RegisterMapping::NewMapping(LocalId(SenderId(1))));
    let again = dispatcher
        .register_sender(SenderName(Bytes::from_static(b"Tracker0")))
        .unwrap();
    assert_eq!(again, RegisterMapping::Found(LocalId(SenderId(1))));
    assert_eq!(again.into_inner(), first.into_inner());
    let t = dispatcher
        .register_type(TypeName(Bytes::from_static(b"vrpn_Tracker Pos_Quat")))
        .unwrap();
    assert_eq!(t, RegisterMapping::NewMapping(LocalId(TypeId(4))));
    assert_eq!(
        dispatcher.get_type_id(&TypeName(Bytes::from_static(b"vrpn_Tracker Pos_Quat"))),
        Some(LocalId(TypeId(4)))
    );
}

#[test]
fn handler_handles_and_errors() {
    let mut dispatcher: TypeDispatcher<Box<dyn Handler>> = TypeDispatcher::new().unwrap();
    let count = Arc::new(Mutex::new(0u32));
    assert!(matches!(
        dispatcher.add_handler(Box::new(RemoveMe { count: Arc::clone(&count) }), Some(LocalId(TypeId(77))), None),
        Err(Error::InvalidTypeId(77))
    ));
    let h = dispatcher
        .add_handler(Box::new(RemoveMe { count: Arc::clone(&count) }), Some(LocalId(TypeId(2))), None)
        .unwrap();
    assert_eq!(h, HandlerHandle(Some(LocalId(TypeId(2))), 0));
    dispatcher.remove_handler(h).unwrap();
    assert!(matches!(dispatcher.remove_handler(h), Err(Error::HandlerNotFound)));
    assert!(matches!(
        dispatcher.set_system_handler(TypeId(3), Box::new(RemoveMe { count: Arc::clone(&count) })),
        Err(Error::InvalidTypeId(3))
    ));
    dispatcher
        .set_system_handler(TypeId(-5), Box::new(RemoveMe { count: Arc::clone(&count) }))
        .unwrap();
    dispatcher.do_system_callbacks_for(message(-5, 0)).unwrap();
    dispatcher.do_system_callbacks_for(message(-2, 0)).unwrap();
    assert_eq!(*count.lock().unwrap(), 1);
}

#[test]
fn all_descriptions_are_packed() {
    let mut dispatcher: TypeDispatcher<Box<dyn Handler>> = TypeDispatcher::new().unwrap();
    dispatcher
        .register_sender(SenderName(Bytes::from_static(b"Tracker0")))
        .unwrap();
    let msgs = dispatcher.pack_all_descriptions().unwrap();
    // Two senders and four message types.
    assert_eq!(msgs.len(), 6);
    assert_eq!(msgs[1].header.message_type, TypeId(-1));
    assert_eq!(msgs[1].header.sender, SenderId(1));
    assert_eq!(&msgs[1].body.inner[..], b"\0\0\0\x09Tracker0\0");
    assert_eq!(msgs[2].header.message_type, TypeId(-2));
    assert_eq!(msgs[2].header.sender, SenderId(0));
    let parsed = unbuffer_typed_message_body::<InnerDescription<SenderId>>(msgs[1].clone()).unwrap();
    assert_eq!(&parsed.body.name[..], b"Tracker0");
}

#[test]
fn typed_handlers_register_their_type() {
    let val: Arc<Mutex<i8>> = Arc::new(Mutex::new(5));
    let mut dispatcher: TypeDispatcher<Box<dyn Handler>> = TypeDispatcher::new().unwrap();
    let first = dispatcher
        .add_typed_handler::<PoseReport>(Box::new(SetTo10 { val: Arc::clone(&val) }), None)
        .unwrap();
    // Four connection message types are registered at start; the pose type comes next.
    assert_eq!(first, HandlerHandle(Some(LocalId(TypeId(4))), 0));
    let second = dispatcher
        .add_typed_handler::<PoseReport>(Box::new(SetTo15 { val: Arc::clone(&val) }), None)
        .unwrap();
    assert_eq!(second, HandlerHandle(Some(LocalId(TypeId(4))), 1));
    assert_eq!(
        dispatcher.get_type_id(&TypeName(Bytes::from_static(b"vrpn_Tracker Pos_Quat"))),
        Some(LocalId(TypeId(4)))
    );
    // System message types have negative IDs and cannot take ordinary handlers.
    assert!(matches!(
        dispatcher.add_typed_handler::<InnerDescription<SenderId>>(
            Box::new(SetTo10 { val: Arc::clone(&val) }),
            None
        ),
        Err(Error::InvalidTypeId(_))
    ));
    dispatcher.call(&message(4, 0)).unwrap();
    assert_eq!(*val.lock().unwrap(), 15);
}

struct NoSystemChanges;
impl Endpoint for NoSystemChanges {
    fn send_system_change(&self, _message: SystemMessage) -> Result<(), Error> {
        Ok(())
    }
}

#[test]
fn received_messages_are_dispatched_in_order() {
    let val: Arc<Mutex<i8>> = Arc::new(Mutex::new(5));
    let mut dispatcher: TypeDispatcher<Box<dyn Handler>> = TypeDispatcher::new().unwrap();
    dispatcher
        .add_handler(Box::new(SetTo10 { val: Arc::clone(&val) }), Some(LocalId(TypeId(0))), None)
        .unwrap();
    dispatcher
        .add_handler(Box::new(SetTo15 { val: Arc::clone(&val) }), Some(LocalId(TypeId(1))), None)
        .unwrap();
    let mut tables = TranslationTables::new();
    tables
        .types
        .add_remote_entry(Bytes::from_static(b"a"), RemoteId(TypeId(0)), LocalId(TypeId(1)))
        .unwrap();
    tables
        .types
        .add_remote_entry(Bytes::from_static(b"b"), RemoteId(TypeId(1)), LocalId(TypeId(0)))
        .unwrap();
    tables
        .senders
        .add_remote_entry(Bytes::from_static(b"s"), RemoteId(SenderId(0)), LocalId(SenderId(0)))
        .unwrap();
    // Remote type 1 is local type 0 (sets 10), then remote 0 is local 1 (sets 15).
    dispatch_all_received(
        &NoSystemChanges,
        &tables,
        &mut dispatcher,
        vec![message(1, 0), message(0, 0)],
    )
    .unwrap();
    assert_eq!(*val.lock().unwrap(), 15);
    dispatch_all_received(&NoSystemChanges, &tables, &mut dispatcher, vec![message(0, 0), message(1, 0)])
        .unwrap();
    assert_eq!(*val.lock().unwrap(), 10);
    // A message whose type the peer never described stops the run with an error.
    *val.lock().unwrap() = 5;
    assert!(matches!(
        dispatch_all_received(&NoSystemChanges, &tables, &mut dispatcher, vec![message(7, 0), message(1, 0)]),
        Err(Error::InvalidRemoteId(7))
    ));
    assert_eq!(*val.lock().unwrap(), 5);
    dispatch_all_received(&NoSystemChanges, &tables, &mut dispatcher, Vec::new()).unwrap();
}

struct Fails;
impl Handler for Fails {
    fn handle(&mut self, _msg: &GenericMessage) -> Result<HandlerCode, Error> {
        Err(Error::GenericErrorReturn)
    }
}

#[test]
fn a_failing_handler_stops_the_calls() {
    let val: Arc<Mutex<i8>> = Arc::new(Mutex::new(5));
    let mut dispatcher: TypeDispatcher<Box<dyn Handler>> = TypeDispatcher::new().unwrap();
    // Nothing accepts a message from sender 3: the call succeeds.
    dispatcher
        .add_handler(Box::new(Fails), None, Some(LocalId(SenderId(1))))
        .unwrap();
    dispatcher.call(&message(0, 3)).unwrap();
    dispatcher
        .add_handler(Box::new(SetTo10 { val: Arc::clone(&val) }), Some(LocalId(TypeId(0))), None)
        .unwrap();
    // The generic handler fails for sender 1, so the type's handler is not called.
    assert!(matches!(dispatcher.call(&message(0, 1)), Err(Error::GenericErrorReturn)));
    assert_eq!(*val.lock().unwrap(), 5);
    dispatcher.call(&message(0, 2)).unwrap();
    assert_eq!(*val.lock().unwrap(), 10);
}

#[test]
fn received_system_messages_without_a_change_succeed() {
    let mut dispatcher: TypeDispatcher<Box<dyn Handler>> = TypeDispatcher::new().unwrap();
    let tables = TranslationTables::new();
    dispatch_received(&NoSystemChanges, &tables, &mut dispatcher, message(-5, -1)).unwrap();
    dispatch_received(&NoSystemChanges, &tables, &mut dispatcher, message(-4, -1)).unwrap();
    assert!(matches!(
        dispatch_received(&NoSystemChanges, &tables, &mut dispatcher, message(-9, -1)),
        Err(Error::UnrecognizedSystemMessage(-9))
    ));
}

#[test]
fn outcomes_decide_keep_and_stop() {
    assert_eq!(after_handler(&Ok(HandlerCode::ContinueProcessing)), (true, false));
    assert_eq!(after_handler(&Ok(HandlerCode::RemoveThisHandler)), (false, false));
    assert_eq!(after_handler(&Err(Error::GenericErrorReturn)), (true, true));
}

#[test]
fn the_last_system_handler_set_is_called() {
    let val: Arc<Mutex<i8>> = Arc::new(Mutex::new(5));
    let mut dispatcher: TypeDispatcher<Box<dyn Handler>> = TypeDispatcher::new().unwrap();
    dispatcher
        .set_system_handler(TypeId(-3), Box::new(SetTo10 { val: Arc::clone(&val) }))
        .unwrap();
    dispatcher
        .set_system_handler(TypeId(-3), Box::new(SetTo15 { val: Arc::clone(&val) }))
        .unwrap();
    dispatcher.do_system_callbacks_for(message(-3, 0)).unwrap();
    assert_eq!(*val.lock().unwrap(), 15);
}

#[test]
fn a_failure_midway_stops_the_received_messages() {
    let val: Arc<Mutex<i8>> = Arc::new(Mutex::new(5));
    let mut dispatcher: TypeDispatcher<Box<dyn Handler>> = TypeDispatcher::new().unwrap();
    dispatcher
        .add_handler(Box::new(SetTo10 { val: Arc::clone(&val) }), Some(LocalId(TypeId(0))), None)
        .unwrap();
    let mut tables = TranslationTables::new();
    tables
        .types
        .add_remote_entry(Bytes::from_static(b"a"), RemoteId(TypeId(0)), LocalId(TypeId(0)))
        .unwrap();
    tables
        .senders
        .add_remote_entry(Bytes::from_static(b"s"), RemoteId(SenderId(0)), LocalId(SenderId(0)))
        .unwrap();
    // A log description (no change), then an unknown remote type, then a message that would set 10.
    assert!(matches!(
        dispatch_all_received(
            &NoSystemChanges,
            &tables,
            &mut dispatcher,
            vec![message(-4, -1), message(9, 0), message(0, 0)]
        ),
        Err(Error::InvalidRemoteId(9))
    ));
    assert_eq!(*val.lock().unwrap(), 5);
}
