//! A probe request: what one run is asked to do, within the bounds that a
//! request may hold, and the socket options that follow from it.

use vstd::prelude::*;

use crate::args::ProbeOptions;
use crate::packet::{AddressFamily, HEADER_LEN};

verus! {

/// The greatest TTL or hop limit that a packet can carry.
pub const MAX_TTL: i32 = 255;

/// What one run is asked to do. It does not change while the run lasts.
#[derive(Clone, Copy, Debug, PartialEq, Eq, Structural)]
pub struct ProbeRequest {
    /// The address family of the target.
    pub family: AddressFamily,
    /// Attempts to make, unless the run is continuous.
    pub count: i32,
    /// Payload bytes per packet.
    pub payload_size: usize,
    /// Milliseconds to wait for each reply.
    pub timeout_ms: u64,
    /// TTL or hop limit of the packets.
    pub ttl: u32,
    /// Whether the run goes on until it is stopped from outside.
    pub continuous: bool,
}

/// One option to apply to the probe socket.
#[derive(Clone, Copy, Debug, PartialEq, Eq, Structural)]
pub enum SocketOption {
    /// Give up a receive after this many milliseconds.
    ReadTimeoutMs(u64),
    /// Give up a send after this many milliseconds.
    WriteTimeoutMs(u64),
    /// The TTL option of an IPv4 socket.
    MulticastTtlV4(u32),
    /// The hop-limit option of an IPv6 socket.
    UnicastHopsV6(u32),
}

impl ProbeRequest {
    /// The bounds of a request: a timeout above zero, a TTL from 1 to 255,
    /// and a payload that leaves room for the header in a buffer.
    pub open spec fn well_formed(&self) -> bool {
        &&& self.timeout_ms > 0
        &&& 1 <= self.ttl <= MAX_TTL
        &&& HEADER_LEN + self.payload_size <= usize::MAX
    }

    /// Whether `options` lie within the bounds of a request: no negative
    /// payload size, a timeout above zero, and a TTL from 1 to 255. The
    /// count is free: a bounded run with a count of zero or less attempts
    /// nothing.
    pub open spec fn admits(options: ProbeOptions) -> bool {
        &&& options.payload_size >= 0
        &&& options.timeout_ms > 0
        &&& 1 <= options.ttl <= MAX_TTL
    }

    /// The request for a target of `family` with `options`, where the
    /// options lie within the bounds of a request, and `None` where they do
    /// not.
    pub fn new(family: AddressFamily, options: ProbeOptions) -> (request: Option<ProbeRequest>)
        ensures
            request is Some <==> Self::admits(options),
            request matches Some(made) ==> {
                &&& made.well_formed()
                &&& made.family == family
                &&& made.count == options.count
                &&& made.payload_size == options.payload_size
                &&& made.timeout_ms == options.timeout_ms
                &&& made.ttl == options.ttl
                &&& made.continuous == options.continuous
            },
    {
        if options.payload_size >= 0 && options.timeout_ms > 0 && 1 <= options.ttl && options.ttl
            <= MAX_TTL {
            Some(
                ProbeRequest {
                    family,
                    count: options.count,
                    payload_size: options.payload_size as usize,
                    timeout_ms: options.timeout_ms as u64,
                    ttl: options.ttl as u32,
                    continuous: options.continuous,
                },
            )
        } else {
            None
        }
    }

    /// The options that the probe socket of this request gets, in the
    /// order in which they are applied: the timeout for receiving and for
    /// sending, then the TTL by the option of the target's family.
    pub open spec fn spec_socket_options(&self) -> Seq<SocketOption> {
        seq![
            SocketOption::ReadTimeoutMs(self.timeout_ms),
            SocketOption::WriteTimeoutMs(self.timeout_ms),
            match self.family {
                AddressFamily::V4 => SocketOption::MulticastTtlV4(self.ttl),
                AddressFamily::V6 => SocketOption::UnicastHopsV6(self.ttl),
            },
        ]
    }

    /// Lists the options to apply to the probe socket of this request, in
    /// order.
    pub fn socket_options(&self) -> (options: Vec<SocketOption>)
        ensures
            options@ == self.spec_socket_options(),
    {
        let mut options: Vec<SocketOption> = Vec::new();
        options.push(SocketOption::ReadTimeoutMs(self.timeout_ms));
        options.push(SocketOption::WriteTimeoutMs(self.timeout_ms));
        match self.family {
            AddressFamily::V4 => options.push(SocketOption::MulticastTtlV4(self.ttl)),
            AddressFamily::V6 => options.push(SocketOption::UnicastHopsV6(self.ttl)),
        }
        assert(options@ =~= self.spec_socket_options());
        options
    }
}

} // verus!
