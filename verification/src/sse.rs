//! Server-sent events: the decoder of the `tokio_sse_codec` crate.

use tokio_util::codec::Decoder;
use vstd::prelude::*;

#[allow(unused_imports)]
use crate::byte_buffers::{held, held_mut};

verus! {

/// A decoder of server-sent events.
#[verifier::external_type_specification]
#[verifier::external_body]
#[verifier::reject_recursive_types(T)]
pub struct ExSseDecoder<T>(tokio_sse_codec::SseDecoder<T>);

/// What a decoder hands out.
#[derive(Debug)]
pub enum SseItem {
    /// An event, with its data.
    Event(bytes::Bytes),
    /// A comment or a reconnection time.
    Other,
    /// Nothing: it takes more bytes.
    NeedMore,
    /// Nothing: the bytes are no server-sent events, or they are too many.
    Failed,
}

/// What a decoder hands out, as plain values.
pub ghost enum SseItemView {
    Event(Seq<u8>),
    Other,
    NeedMore,
    Failed,
}

impl View for SseItem {
    type V = SseItemView;

    open spec fn view(&self) -> SseItemView {
        match *self {
            SseItem::Event(data) => SseItemView::Event(held(data)),
            SseItem::Other => SseItemView::Other,
            SseItem::NeedMore => SseItemView::NeedMore,
            SseItem::Failed => SseItemView::Failed,
        }
    }
}

/// A decoder that holds at most `max_size` bytes.
pub uninterp spec fn sse_fresh(max_size: nat) -> tokio_sse_codec::SseDecoder<bytes::Bytes>;

/// How far a decoder has looked into the bytes that it was last shown.
pub uninterp spec fn sse_scanned(d: tokio_sse_codec::SseDecoder<bytes::Bytes>) -> nat;

/// What a decoder makes of bytes: the decoder afterwards, the bytes that it has not taken, and
/// what it hands out.
pub uninterp spec fn sse_decoded(
    d: tokio_sse_codec::SseDecoder<bytes::Bytes>,
    src: Seq<u8>,
) -> (tokio_sse_codec::SseDecoder<bytes::Bytes>, Seq<u8>, SseItemView);

/// What a decoder makes of the last bytes of a stream.
pub uninterp spec fn sse_decoded_eof(
    d: tokio_sse_codec::SseDecoder<bytes::Bytes>,
    src: Seq<u8>,
) -> (tokio_sse_codec::SseDecoder<bytes::Bytes>, Seq<u8>, SseItemView);

/// A decoder that holds at most `max_size` bytes (`SseDecoder::with_max_size`, which panics where
/// they are not more than 7).
///
/// Trusted: it depends on the size alone, and has looked at nothing.
#[verifier::external_body]
pub(crate) fn sse_new(max_size: usize) -> (r: tokio_sse_codec::SseDecoder<bytes::Bytes>)
    requires
        max_size > 7,
    ensures
        r == sse_fresh(max_size as nat),
        sse_scanned(r) == 0,
{
    tokio_sse_codec::SseDecoder::with_max_size(max_size)
}

/// Decodes (`SseDecoder::decode`, which panics where bytes have been taken away that the decoder
/// has looked at).
///
/// Trusted: what it hands out, what it leaves, and the decoder afterwards depend on the decoder
/// and the bytes alone; whatever it hands out has taken bytes; it has looked at no more than it
/// leaves.
#[verifier::external_body]
pub(crate) fn sse_decode(
    d: &mut tokio_sse_codec::SseDecoder<bytes::Bytes>,
    src: &mut bytes::BytesMut,
) -> (r: SseItem)
    requires
        sse_scanned(*old(d)) <= held_mut(*old(src)).len(),
    ensures
        (*final(d), held_mut(*final(src)), r@) == sse_decoded(*old(d), held_mut(*old(src))),
        r is Event || r is Other ==> held_mut(*final(src)).len() < held_mut(*old(src)).len(),
        sse_scanned(*final(d)) <= held_mut(*final(src)).len(),
{
    match d.decode(src) {
        Ok(Some(tokio_sse_codec::Frame::Event(event))) => SseItem::Event(event.data),
        Ok(Some(_)) => SseItem::Other,
        Ok(None) => SseItem::NeedMore,
        Err(_) => SseItem::Failed,
    }
}

/// Decodes at the end of a stream (`SseDecoder::decode_eof`, with the panic of `decode`).
///
/// Trusted: as for [`sse_decode`].
#[verifier::external_body]
pub(crate) fn sse_decode_eof(
    d: &mut tokio_sse_codec::SseDecoder<bytes::Bytes>,
    src: &mut bytes::BytesMut,
) -> (r: SseItem)
    requires
        sse_scanned(*old(d)) <= held_mut(*old(src)).len(),
    ensures
        (*final(d), held_mut(*final(src)), r@) == sse_decoded_eof(*old(d), held_mut(*old(src))),
        r is Event || r is Other ==> held_mut(*final(src)).len() < held_mut(*old(src)).len(),
        sse_scanned(*final(d)) <= held_mut(*final(src)).len(),
{
    match d.decode_eof(src) {
        Ok(Some(tokio_sse_codec::Frame::Event(event))) => SseItem::Event(event.data),
        Ok(Some(_)) => SseItem::Other,
        Ok(None) => SseItem::NeedMore,
        Err(_) => SseItem::Failed,
    }
}

} // verus!
