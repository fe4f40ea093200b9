//! Closing the connection: who asks for it, the error code and the reason
//! that travel to the peer.

use vstd::prelude::*;
use vstd::slice::slice_to_vec;
use vstd::string::StringSliceAdditionalSpecFns;

verus! {

/// Why a connection is being closed.
#[derive(Clone, Copy, Debug, PartialEq, Eq)]
pub enum CloseCause {
    /// The connection refused to produce a datagram: the session is lost.
    ProtocolFailure,
    /// The exchange is over and the application says goodbye.
    SessionEnd,
}

/// The arguments of one close call on the connection.
#[derive(Debug, PartialEq, Eq)]
pub struct CloseRequest {
    /// True when the application closes, false when the transport does.
    pub app: bool,
    /// The error code sent to the peer.
    pub code: u64,
    /// The reason phrase sent to the peer.
    pub reason: Vec<u8>,
}

impl CloseCause {
    /// Only the end of the session is an application-level close.
    pub open spec fn app(self) -> bool {
        self is SessionEnd
    }

    /// The error code of each cause.
    pub open spec fn code(self) -> u64 {
        match self {
            CloseCause::ProtocolFailure => 1,
            CloseCause::SessionEnd => 0,
        }
    }

    /// The reason phrase of each cause, as the bytes of its text.
    pub open spec fn reason(self) -> Seq<u8> {
        match self {
            CloseCause::ProtocolFailure => "fail".spec_bytes(),
            CloseCause::SessionEnd => "kthxbye".spec_bytes(),
        }
    }

    /// The close call that this cause stands for.
    pub fn request(self) -> (request: CloseRequest)
        ensures
            request.app == self.app(),
            request.code == self.code(),
            request.reason@ == self.reason(),
    {
        match self {
            CloseCause::ProtocolFailure => CloseRequest {
                app: false,
                code: 1,
                reason: slice_to_vec("fail".as_bytes()),
            },
            CloseCause::SessionEnd => CloseRequest {
                app: true,
                code: 0,
                reason: slice_to_vec("kthxbye".as_bytes()),
            },
        }
    }
}

/// The close that ends a session: asked for by the application, with code
/// zero and the reason `kthxbye`.
pub fn close_conn() -> (request: CloseRequest)
    ensures
        request.app,
        request.code == 0,
        request.reason@ == "kthxbye".spec_bytes(),
{
    CloseCause::SessionEnd.request()
}

} // verus!
