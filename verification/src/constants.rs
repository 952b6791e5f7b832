//! Constants that must match the VRPN C++ implementation.
use crate::cookie::Version;
use crate::types::{IdType, StaticSenderName, StaticTypeName};
use vstd::prelude::*;

verus! {

/// Message type ID of sender descriptions.
pub const SENDER_DESCRIPTION: IdType = -1i32;

/// Message type ID of type descriptions.
pub const TYPE_DESCRIPTION: IdType = -2i32;

/// Message type ID of UDP descriptions.
pub const UDP_DESCRIPTION: IdType = -3i32;

/// Message type ID of log descriptions.
pub const LOG_DESCRIPTION: IdType = -4i32;

/// Message type ID of the disconnect message.
pub const DISCONNECT_MESSAGE: IdType = -5i32;

/// TCP buffer length.
pub const TCP_BUFLEN: usize = 64000usize;

/// UDP buffer length.
pub const UDP_BUFLEN: usize = 1472usize;

/// Length of names in VRPN.
pub const CNAME_LEN: usize = 100usize;

/// Length of the text part of the magic cookie (a multiple of `ALIGN`).
pub const MAGICLEN: usize = 16usize;

/// Alignment of message headers and bodies on the wire.
pub const ALIGN: usize = 8usize;

/// Size of the magic cookie on the wire; fixed unless the major version changes.
pub const COOKIE_SIZE: usize = 24usize;

/// The text that begins the magic cookie.
pub open spec fn magic_prefix_spec() -> Seq<u8> {
    seq![118u8, 114u8, 112u8, 110u8, 58u8, 32u8, 118u8, 101u8, 114u8, 46u8, 32u8]
}

/// The text that begins the magic cookie.
pub fn magic_prefix() -> (r: &'static [u8])
    ensures
        r@ == magic_prefix_spec(),
{
    let r: &'static [u8] = &[118u8, 114u8, 112u8, 110u8, 58u8, 32u8, 118u8, 101u8, 114u8, 46u8, 32u8];
    assert(r@ =~= magic_prefix_spec());
    r
}

/// The protocol version spoken by network connections.
pub open spec fn magic_data_spec() -> Version {
    Version { major: 7, minor: 35 }
}

/// The protocol version spoken by network connections.
pub fn magic_data() -> (r: Version)
    ensures
        r == magic_data_spec(),
{
    Version { major: 7, minor: 35 }
}

/// The protocol version of log files.
pub open spec fn file_magic_data_spec() -> Version {
    Version { major: 4, minor: 0 }
}

/// The protocol version of log files.
pub fn file_magic_data() -> (r: Version)
    ensures
        r == file_magic_data_spec(),
{
    Version { major: 4, minor: 0 }
}

/// Message type sent when the first connection is made.
pub open spec fn got_first_connection_spec() -> Seq<u8> {
    seq![86u8, 82u8, 80u8, 78u8, 95u8, 67u8, 111u8, 110u8, 110u8, 101u8, 99u8, 116u8, 105u8, 111u8, 110u8, 95u8, 71u8, 111u8, 116u8, 95u8, 70u8, 105u8, 114u8, 115u8, 116u8, 95u8, 67u8, 111u8, 110u8, 110u8, 101u8, 99u8, 116u8, 105u8, 111u8, 110u8]
}

/// Message type sent when the first connection is made.
pub fn got_first_connection() -> (r: StaticTypeName)
    ensures
        r.0@ == got_first_connection_spec(),
{
    let r: &'static [u8] = &[86u8, 82u8, 80u8, 78u8, 95u8, 67u8, 111u8, 110u8, 110u8, 101u8, 99u8, 116u8, 105u8, 111u8, 110u8, 95u8, 71u8, 111u8, 116u8, 95u8, 70u8, 105u8, 114u8, 115u8, 116u8, 95u8, 67u8, 111u8, 110u8, 110u8, 101u8, 99u8, 116u8, 105u8, 111u8, 110u8];
    assert(r@ =~= got_first_connection_spec());
    StaticTypeName(r)
}

/// Message type sent when a connection is made.
pub open spec fn got_connection_spec() -> Seq<u8> {
    seq![86u8, 82u8, 80u8, 78u8, 95u8, 67u8, 111u8, 110u8, 110u8, 101u8, 99u8, 116u8, 105u8, 111u8, 110u8, 95u8, 71u8, 111u8, 116u8, 95u8, 67u8, 111u8, 110u8, 110u8, 101u8, 99u8, 116u8, 105u8, 111u8, 110u8]
}

/// Message type sent when a connection is made.
pub fn got_connection() -> (r: StaticTypeName)
    ensures
        r.0@ == got_connection_spec(),
{
    let r: &'static [u8] = &[86u8, 82u8, 80u8, 78u8, 95u8, 67u8, 111u8, 110u8, 110u8, 101u8, 99u8, 116u8, 105u8, 111u8, 110u8, 95u8, 71u8, 111u8, 116u8, 95u8, 67u8, 111u8, 110u8, 110u8, 101u8, 99u8, 116u8, 105u8, 111u8, 110u8];
    assert(r@ =~= got_connection_spec());
    StaticTypeName(r)
}

/// Message type sent when a connection is dropped.
pub open spec fn dropped_connection_spec() -> Seq<u8> {
    seq![86u8, 82u8, 80u8, 78u8, 95u8, 67u8, 111u8, 110u8, 110u8, 101u8, 99u8, 116u8, 105u8, 111u8, 110u8, 95u8, 68u8, 114u8, 111u8, 112u8, 112u8, 101u8, 100u8, 95u8, 67u8, 111u8, 110u8, 110u8, 101u8, 99u8, 116u8, 105u8, 111u8, 110u8]
}

/// Message type sent when a connection is dropped.
pub fn dropped_connection() -> (r: StaticTypeName)
    ensures
        r.0@ == dropped_connection_spec(),
{
    let r: &'static [u8] = &[86u8, 82u8, 80u8, 78u8, 95u8, 67u8, 111u8, 110u8, 110u8, 101u8, 99u8, 116u8, 105u8, 111u8, 110u8, 95u8, 68u8, 114u8, 111u8, 112u8, 112u8, 101u8, 100u8, 95u8, 67u8, 111u8, 110u8, 110u8, 101u8, 99u8, 116u8, 105u8, 111u8, 110u8];
    assert(r@ =~= dropped_connection_spec());
    StaticTypeName(r)
}

/// Message type sent when the last connection is dropped.
pub open spec fn dropped_last_connection_spec() -> Seq<u8> {
    seq![86u8, 82u8, 80u8, 78u8, 95u8, 67u8, 111u8, 110u8, 110u8, 101u8, 99u8, 116u8, 105u8, 111u8, 110u8, 95u8, 68u8, 114u8, 111u8, 112u8, 112u8, 101u8, 100u8, 95u8, 76u8, 97u8, 115u8, 116u8, 95u8, 67u8, 111u8, 110u8, 110u8, 101u8, 99u8, 116u8, 105u8, 111u8, 110u8]
}

/// Message type sent when the last connection is dropped.
pub fn dropped_last_connection() -> (r: StaticTypeName)
    ensures
        r.0@ == dropped_last_connection_spec(),
{
    let r: &'static [u8] = &[86u8, 82u8, 80u8, 78u8, 95u8, 67u8, 111u8, 110u8, 110u8, 101u8, 99u8, 116u8, 105u8, 111u8, 110u8, 95u8, 68u8, 114u8, 111u8, 112u8, 112u8, 101u8, 100u8, 95u8, 76u8, 97u8, 115u8, 116u8, 95u8, 67u8, 111u8, 110u8, 110u8, 101u8, 99u8, 116u8, 105u8, 111u8, 110u8];
    assert(r@ =~= dropped_last_connection_spec());
    StaticTypeName(r)
}

/// The sender of connection control messages.
pub open spec fn control_spec() -> Seq<u8> {
    seq![86u8, 82u8, 80u8, 78u8, 32u8, 67u8, 111u8, 110u8, 116u8, 114u8, 111u8, 108u8]
}

/// The sender of connection control messages.
pub fn control() -> (r: StaticSenderName)
    ensures
        r.0@ == control_spec(),
{
    let r: &'static [u8] = &[86u8, 82u8, 80u8, 78u8, 32u8, 67u8, 111u8, 110u8, 116u8, 114u8, 111u8, 108u8];
    assert(r@ =~= control_spec());
    StaticSenderName(r)
}

/// Name of the collection of handlers for every message type.
pub open spec fn generic_spec() -> Seq<u8> {
    seq![103u8, 101u8, 110u8, 101u8, 114u8, 105u8, 99u8]
}

/// Name of the collection of handlers for every message type.
pub fn generic() -> (r: StaticTypeName)
    ensures
        r.0@ == generic_spec(),
{
    let r: &'static [u8] = &[103u8, 101u8, 110u8, 101u8, 114u8, 105u8, 99u8];
    assert(r@ =~= generic_spec());
    StaticTypeName(r)
}

} // verus!
