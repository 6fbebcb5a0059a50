use std::cell::RefCell;
use std::rc::Rc;

use agentgateway::bufferbody::{
    buffer_request_body, peek_limit, BodyOptions, BufferRequestBodyError,
};
use agentgateway::idle_timeout::{BodyTimeoutError, IdleTimeout, Poll};
use bytes::Bytes;

/// The first bytes of a body, as a peek of `limit` bytes sees them.
fn peeked(body: &'static [u8], limit: usize) -> Bytes {
    Bytes::from_static(&body[..body.len().min(limit)])
}

#[test]
fn test_body_truncation() {
    let body_opts = BodyOptions {
        max_request_bytes: 10,
        allow_partial_message: true,
        pack_as_bytes: false,
    };

    let long_body = b"This is a very long body that exceeds max size";
    assert!(long_body.len() > body_opts.max_request_bytes as usize);

    let mut truncated = long_body.to_vec();
    truncated.truncate(body_opts.max_request_bytes as usize);
    assert_eq!(truncated.len(), 10);
    assert_eq!(&truncated, b"This is a ");

    let read = peeked(long_body, peek_limit(&body_opts));
    let buffered = buffer_request_body(Ok(&read), &body_opts).unwrap();
    assert_eq!(&buffered.body[..], &truncated[..]);
    assert!(buffered.is_partial);
    assert_eq!(buffered.original_size, -1);
}

#[test]
fn test_buffer_request_body_rejects_oversized_body_when_partial_disabled() {
    let body_opts = BodyOptions {
        max_request_bytes: 10,
        allow_partial_message: false,
        pack_as_bytes: false,
    };
    let limit = peek_limit(&body_opts);
    let body = peeked(b"hello world", limit);

    let result = buffer_request_body(Ok(&body), &body_opts);

    assert!(matches!(result, Err(BufferRequestBodyError::TooLarge)));
    assert_eq!(body, Bytes::from_static(b"hello world"));
}

#[test]
fn test_buffer_request_body_allows_partial_when_enabled() {
    let body_opts = BodyOptions {
        max_request_bytes: 10,
        allow_partial_message: true,
        pack_as_bytes: false,
    };
    let body = peeked(b"hello world", peek_limit(&body_opts));

    let result = buffer_request_body(Ok(&body), &body_opts).unwrap();

    assert!(result.is_partial);
    assert_eq!(result.original_size, -1);
    assert_eq!(result.body, Bytes::from_static(b"hello worl"));
    assert_eq!(body, Bytes::from_static(b"hello world"));
}

#[test]
fn a_body_at_the_limit_is_whole() {
    let opts = BodyOptions {
        max_request_bytes: 11,
        allow_partial_message: false,
        pack_as_bytes: true,
    };
    assert_eq!(peek_limit(&opts), 12);
    let result = buffer_request_body(Ok(&peeked(b"hello world", 12)), &opts).unwrap();
    assert!(!result.is_partial);
    assert_eq!(result.original_size, 11);
    assert_eq!(result.body, Bytes::from_static(b"hello world"));
}

#[test]
fn an_unreadable_body_is_reported() {
    let opts = BodyOptions::default();
    assert_eq!(opts.max_request_bytes, 8192);
    let result = buffer_request_body(Err("reset".to_string()), &opts);
    assert!(matches!(result, Err(BufferRequestBodyError::Read(e)) if e == "reset"));
}

#[test]
fn a_silent_body_expires() {
    let mut timeout = IdleTimeout::new(100, 1000);
    assert_eq!(timeout.check(1099), Ok(()));
    assert_eq!(timeout.check(1100), Err(BodyTimeoutError));
    assert_eq!(timeout.poll_expired(1099), Poll::WakeAt(1100));
    timeout.on_frame(1099);
    assert_eq!(timeout.check(1100), Ok(()));
    assert_eq!(timeout.poll_expired(1198), Poll::WakeAt(1199));
    assert_eq!(timeout.poll_expired(1199), Poll::Expired);
}

#[test]
fn those_who_hold_a_body_share_its_progress() {
    let owner = Rc::new(RefCell::new(IdleTimeout::new(100, 1000)));
    let other = owner.clone();
    other.borrow_mut().on_frame(1060);
    for holder in [&owner, &other] {
        assert_eq!(holder.borrow().check(1100), Ok(()));
        assert_eq!(holder.borrow().check(1159), Ok(()));
        assert_eq!(holder.borrow().check(1160), Err(BodyTimeoutError));
        assert_eq!(holder.borrow().poll_expired(1100), Poll::WakeAt(1160));
    }
    owner.borrow_mut().on_frame(1159);
    assert_eq!(other.borrow().check(1258), Ok(()));
    assert_eq!(other.borrow().check(1259), Err(BodyTimeoutError));
}
