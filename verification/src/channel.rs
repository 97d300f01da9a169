//! Subscribing writers to the broadcast channel that fans one source out: the
//! engine gives every destination its own stream of the same channel, so each
//! writer sees every published chunk, in publish order, at its own pace.

use vstd::prelude::*;
use crate::engine::Chunk;

verus! {

#[verifier::external_type_specification]
#[verifier::external_body]
#[verifier::reject_recursive_types(T)]
pub struct ExBroadcastReceiver<T: Clone>(multiqueue2::BroadcastReceiver<T>);

/// Relies on multiqueue2::BroadcastReceiver::add_stream: returns a receiver on
/// a new stream of the same channel, which is handed every chunk published
/// after this call, in publish order, independently of the other streams.
#[verifier::external_body]
fn add_stream(recv: &multiqueue2::BroadcastReceiver<Chunk>) -> multiqueue2::BroadcastReceiver<
    Chunk,
> {
    recv.add_stream()
}

/// One subscription per destination: exactly `output_count` fresh streams of
/// the channel, one for each writer to consume on its own.
pub fn subscribe_writers(recv: &multiqueue2::BroadcastReceiver<Chunk>, output_count: usize) -> (streams: Vec<
    multiqueue2::BroadcastReceiver<Chunk>,
>)
    ensures
        streams@.len() == output_count,
{
    let mut streams: Vec<multiqueue2::BroadcastReceiver<Chunk>> = Vec::new();
    let mut i: usize = 0;
    while i < output_count
        invariant
            i <= output_count,
            streams@.len() == i,
        decreases output_count - i,
    {
        streams.push(add_stream(recv));
        i = i + 1;
    }
    streams
}

} // verus!
