//! Buffering of request bodies up to a limit.

use vstd::prelude::*;

#[allow(unused_imports)]
use crate::byte_buffers::{bytes_len, bytes_take, held};

verus! {

/// The number of bytes that are buffered where nothing is configured.
pub const DEFAULT_MAX_REQUEST_BYTES: u32 = 8192;

/// How a request body is buffered.
#[derive(Debug, Clone, Copy, PartialEq, Eq, Structural)]
pub struct BodyOptions {
    /// The number of bytes that are buffered at most.
    pub max_request_bytes: u32,
    /// Whether a longer body is cut off at the limit instead of being rejected.
    pub allow_partial_message: bool,
    /// Whether the body is sent as raw bytes.
    pub pack_as_bytes: bool,
}

impl Default for BodyOptions {
    fn default() -> (r: Self)
        ensures
            r == (BodyOptions {
                max_request_bytes: DEFAULT_MAX_REQUEST_BYTES,
                allow_partial_message: false,
                pack_as_bytes: false,
            }),
    {
        BodyOptions {
            max_request_bytes: DEFAULT_MAX_REQUEST_BYTES,
            allow_partial_message: false,
            pack_as_bytes: false,
        }
    }
}

/// A request body that has been buffered.
#[derive(Debug)]
pub struct BufferedRequestBody {
    pub body: bytes::Bytes,
    pub is_partial: bool,
    /// The length of the whole body, or -1 where it was cut off.
    pub original_size: i64,
}

/// Why a request body was not buffered.
#[derive(Debug)]
pub enum BufferRequestBodyError {
    /// The body is longer than the limit.
    TooLarge,
    /// The body could not be read.
    Read(String),
}

/// How many bytes are to be read from a body before [`buffer_request_body`] decides: one more
/// than are kept, which shows whether the body is longer.
pub fn peek_limit(body_opts: &BodyOptions) -> (r: usize)
    ensures
        r == if body_opts.max_request_bytes < usize::MAX {
            body_opts.max_request_bytes + 1
        } else {
            usize::MAX as int
        },
{
    (body_opts.max_request_bytes as usize).saturating_add(1)
}

/// Keeps what may be kept of a body of which [`peek_limit`] bytes have been read, or all of it
/// where it is shorter. What has been read stays as it is.
pub fn buffer_request_body(
    read: Result<&bytes::Bytes, String>,
    body_opts: &BodyOptions,
) -> (r: Result<BufferedRequestBody, BufferRequestBodyError>)
    ensures
        match read {
            Err(e) => r == Err::<BufferedRequestBody, BufferRequestBodyError>(
                BufferRequestBodyError::Read(e),
            ),
            Ok(body) => {
                let bytes = held(*body);
                let max = body_opts.max_request_bytes as int;
                if bytes.len() <= max {
                    r matches Ok(b) && held(b.body) == bytes && !b.is_partial
                        && b.original_size == bytes.len()
                } else if body_opts.allow_partial_message {
                    r matches Ok(b) && held(b.body) == bytes.take(max)
                        && b.is_partial && b.original_size == -1
                } else {
                    r matches Err(BufferRequestBodyError::TooLarge)
                }
            },
        },
        read matches Ok(body) ==> match kept_of(held(*body), *body_opts) {
            Some((kept, partial)) => r matches Ok(b) && held(b.body) == kept && b.is_partial
                == partial,
            None => r is Err,
        },
{
    let max_size: usize = body_opts.max_request_bytes as usize;
    let body = match read {
        Ok(body) => body,
        Err(e) => {
            return Err(BufferRequestBodyError::Read(e));
        },
    };
    let len: usize = bytes_len(body);
    let is_partial = len > max_size;
    if is_partial && !body_opts.allow_partial_message {
        return Err(BufferRequestBodyError::TooLarge);
    }
    let kept = if is_partial {
        bytes_take(body, max_size)
    } else {
        bytes_take(body, len)
    };
    assert(held(*body).take(len as int) =~= held(*body));
    let original_size: i64 = if is_partial {
        -1
    } else {
        len as i64
    };
    Ok(BufferedRequestBody { body: kept, is_partial, original_size })
}

/// What is kept of a body, and whether it is only a part of it, if the body is not refused.
pub open spec fn kept_of(body: Seq<u8>, opts: BodyOptions) -> Option<(Seq<u8>, bool)> {
    if body.len() <= opts.max_request_bytes {
        Some((body, false))
    } else if opts.allow_partial_message {
        Some((body.take(opts.max_request_bytes as int), true))
    } else {
        None
    }
}

/// A body is kept whole where it fits; a longer one is cut off at the limit where that is allowed,
/// and refused where it is not. What is kept is the beginning of the body, and never more than the
/// limit.
pub proof fn law_bodies_are_kept_up_to_the_limit(body: Seq<u8>, opts: BodyOptions)
    ensures
        kept_of(body, opts) is None <==> body.len() > opts.max_request_bytes
            && !opts.allow_partial_message,
        kept_of(body, opts) matches Some((kept, partial)) ==> kept.len() <= opts.max_request_bytes
            && kept.len() <= body.len() && body.take(kept.len() as int) == kept && (partial
            <==> kept.len() < body.len()) && (partial ==> kept.len() == opts.max_request_bytes),
{
    assert(body.take(body.len() as int) =~= body);
}

/// Reading one byte more than are kept is enough to decide about the whole body.
pub proof fn law_peeking_is_enough(body: Seq<u8>, opts: BodyOptions)
    ensures
        ({
            let n = opts.max_request_bytes as int + 1;
            let read = if body.len() <= n {
                body
            } else {
                body.take(n)
            };
            kept_of(read, opts) == kept_of(body, opts)
        }),
{
    let n = opts.max_request_bytes as int + 1;
    if body.len() > n {
        assert(body.take(n).take(n - 1) =~= body.take(n - 1));
    }
}

} // verus!
