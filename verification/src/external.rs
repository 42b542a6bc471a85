//! Declarations of the outside types that the library carries or fills.

use vstd::prelude::*;

verus! {

/// The sending half of a bounded tokio channel, carried through the broker's
/// decisions as the address of a reply.
#[verifier::external_type_specification]
#[verifier::external_body]
#[verifier::reject_recursive_types(T)]
pub struct ExSender<T>(tokio::sync::mpsc::Sender<T>);

/// The slab that holds a service's delivered-but-unacknowledged messages.
#[verifier::external_type_specification]
#[verifier::external_body]
#[verifier::reject_recursive_types(T)]
pub struct ExSlab<T>(slab::Slab<T>);

/// The byte buffer that the codec frames messages into and out of.
#[verifier::external_type_specification]
#[verifier::external_body]
pub struct ExBytesMut(bytes::BytesMut);

} // verus!
