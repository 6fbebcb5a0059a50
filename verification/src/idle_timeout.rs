//! Giving up on a body that makes no progress.
//!
//! Times are nanoseconds on a clock that does not go back.

use vstd::prelude::*;

verus! {

/// A body made no progress for too long.
#[derive(Debug, Clone, Copy, PartialEq, Eq, Structural)]
pub struct BodyTimeoutError;

/// How long a body may make no progress, and until when it is still good.
///
/// There is one of these for a body. Everyone who holds a part of the body shares it, so that a
/// frame that one of them sees counts for all; it cannot be copied.
#[derive(Debug, PartialEq, Eq, Structural)]
pub struct IdleTimeout {
    pub duration: u64,
    pub expires_at: u64,
}

/// What a poll finds.
#[derive(Debug, Clone, Copy, PartialEq, Eq, Structural)]
pub enum Poll {
    /// The body made no progress for too long.
    Expired,
    /// There is time left until then.
    WakeAt(u64),
}

impl IdleTimeout {
    /// Whether the body has made no progress for too long.
    pub open spec fn expired(self, now: u64) -> bool {
        now >= self.expires_at
    }

    /// The body once a frame has been seen.
    pub open spec fn progressed(self, now: u64) -> IdleTimeout {
        IdleTimeout { duration: self.duration, expires_at: (now + self.duration) as u64 }
    }

    /// A body that is good from `now` on.
    pub fn new(duration: u64, now: u64) -> (r: Self)
        requires
            now + duration <= u64::MAX,
        ensures
            r.duration == duration,
            r.expires_at == now + duration,
    {
        IdleTimeout { duration, expires_at: now + duration }
    }

    /// Checks that the body is still good.
    pub fn check(&self, now: u64) -> (r: Result<(), BodyTimeoutError>)
        ensures
            r == if self.expired(now) {
                Err::<(), BodyTimeoutError>(BodyTimeoutError)
            } else {
                Ok(())
            },
    {
        if now >= self.expires_at {
            return Err(BodyTimeoutError);
        }
        Ok(())
    }

    /// Whether the body has made no progress for too long, and when to look again where it has
    /// not.
    pub fn poll_expired(&self, now: u64) -> (r: Poll)
        ensures
            r == if self.expired(now) {
                Poll::Expired
            } else {
                Poll::WakeAt(self.expires_at)
            },
    {
        if now >= self.expires_at {
            Poll::Expired
        } else {
            Poll::WakeAt(self.expires_at)
        }
    }

    /// Takes note of a frame. Every frame shows that the body is alive, also one without data.
    pub fn on_frame(&mut self, now: u64)
        requires
            now + old(self).duration <= u64::MAX,
        ensures
            *final(self) == old(self).progressed(now),
    {
        self.expires_at = now + self.duration;
    }
}

/// A body is good exactly as long as less than its duration has passed since its last frame, or
/// since it was made.
pub proof fn law_expires_after_silence(last: u64, duration: u64, now: u64)
    requires
        last + duration <= u64::MAX,
        last <= now,
    ensures
        (IdleTimeout { duration, expires_at: (last + duration) as u64 }).expired(now) == (now - last
            >= duration),
{
}

/// A body after frames have been seen at these times.
pub open spec fn after_frames(body: IdleTimeout, frames: Seq<u64>) -> IdleTimeout
    decreases frames.len(),
{
    if frames.len() == 0 {
        body
    } else {
        after_frames(body, frames.drop_last()).progressed(frames.last())
    }
}

/// A body is good until its duration has passed since the last frame, whatever came before that
/// one. Those who hold parts of a body share its timeout, so that is the last frame that any of
/// them saw.
pub proof fn law_last_frame_sets_the_deadline(body: IdleTimeout, frames: Seq<u64>, now: u64)
    requires
        frames.len() > 0,
        frames.last() + body.duration <= u64::MAX,
    ensures
        after_frames(body, frames).expired(now) == (now >= frames.last() + body.duration),
        after_frames(body, frames) == body.progressed(frames.last()),
{
    lemma_duration_stays(body, frames.drop_last());
}

proof fn lemma_duration_stays(body: IdleTimeout, frames: Seq<u64>)
    ensures
        after_frames(body, frames).duration == body.duration,
    decreases frames.len(),
{
    if frames.len() > 0 {
        lemma_duration_stays(body, frames.drop_last());
    }
}

} // verus!
