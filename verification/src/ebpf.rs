use vstd::prelude::*;

use crate::common::{MAX_INLINE_PAYLOAD, RawBinderEvent};

verus! {

/// What a kernel-side probe may capture.
#[derive(Debug, Clone, Copy, PartialEq, Eq, Structural)]
pub struct CapturePolicy {
    /// Payload bytes kept per event at most.
    pub max_payload_bytes: usize,
    /// Only this process, when set.
    pub target_pid: Option<u32>,
    /// Only this user, when set.
    pub target_uid: Option<u32>,
}

impl CapturePolicy {
    /// A policy that keeps no payload and follows every process.
    pub fn metadata_only() -> (r: CapturePolicy)
        ensures
            r == (CapturePolicy { max_payload_bytes: 0, target_pid: None, target_uid: None }),
    {
        CapturePolicy { max_payload_bytes: 0, target_pid: None, target_uid: None }
    }

    /// Whether a process and user pass the policy's targets.
    pub open spec fn spec_allows_identity(self, pid: u32, uid: u32) -> bool {
        (self.target_pid matches Some(t) ==> t == pid) && (self.target_uid matches Some(t) ==> t == uid)
    }

    /// Whether a process and user pass the policy's targets.
    pub fn allows_identity(self, pid: u32, uid: u32) -> (r: bool)
        ensures
            r == self.spec_allows_identity(pid, uid),
    {
        let pid_ok = match self.target_pid {
            Some(t) => t == pid,
            None => true,
        };
        let uid_ok = match self.target_uid {
            Some(t) => t == uid,
            None => true,
        };
        pid_ok && uid_ok
    }
}

impl Default for CapturePolicy {
    /// A policy that keeps the whole inline payload and follows every process.
    fn default() -> (r: CapturePolicy)
        ensures
            r == (CapturePolicy { max_payload_bytes: MAX_INLINE_PAYLOAD, target_pid: None, target_uid: None }),
    {
        CapturePolicy { max_payload_bytes: MAX_INLINE_PAYLOAD, target_pid: None, target_uid: None }
    }
}

/// How many payload bytes a probe copies (never more than the policy or the
/// inline buffer allow) and whether that cuts the payload.
pub fn bounded_payload_len(payload_size: usize, policy: CapturePolicy) -> (r: (usize, bool))
    ensures
        r.0 == (if payload_size <= policy.max_payload_bytes && payload_size <= MAX_INLINE_PAYLOAD {
            payload_size
        } else if policy.max_payload_bytes <= MAX_INLINE_PAYLOAD {
            policy.max_payload_bytes
        } else {
            MAX_INLINE_PAYLOAD
        }),
        r.1 == (r.0 < payload_size),
        r.0 <= payload_size,
        r.0 <= MAX_INLINE_PAYLOAD,
{
    let max_capture = if policy.max_payload_bytes <= MAX_INLINE_PAYLOAD {
        policy.max_payload_bytes
    } else {
        MAX_INLINE_PAYLOAD
    };
    let captured = if payload_size <= max_capture {
        payload_size
    } else {
        max_capture
    };
    (captured, captured < payload_size)
}

/// A zeroed diagnostic event on an unknown device, for a probe to fill in.
pub fn empty_event() -> (r: RawBinderEvent)
    ensures
        r.header.kind == 0,
        r.header.device == 0xffff,
        r.header.pid == 0 && r.header.tid == 0 && r.header.uid == 0,
        r.header.flags == 0 && r.header.timestamp_ns == 0 && r.header.sequence == 0,
        r.transaction.is_zeroed(),
{
    RawBinderEvent::default_event()
}

} // verus!
