//! TCP forwarding: every route listens on a port of its own and passes bytes to one upstream.

use vstd::prelude::*;
use vstd::string::*;

use crate::config::TcpRoute;
use crate::http_proxy::ListenEvent;

verus! {

/// What the listener of a TCP route does next.
#[derive(Debug, Clone)]
pub enum TcpAction {
    /// Stop listening.
    Stop,
    /// Connect to this upstream, copy bytes both ways until either side closes, and go on
    /// listening.
    Connect(String),
    /// Go on listening.
    Listen,
}

/// The loop of a TCP route's listener, one turn: each connection goes to the route's upstream, and
/// the loop ends on shutdown and on nothing else.
pub fn run(route: &TcpRoute, event: ListenEvent) -> (r: TcpAction)
    ensures
        match event {
            ListenEvent::Cancelled => r is Stop,
            ListenEvent::Accepted(_) => r matches TcpAction::Connect(upstream) && upstream@
                == route.upstream@,
            ListenEvent::AcceptFailed => r is Listen,
        },
{
    match event {
        ListenEvent::Cancelled => TcpAction::Stop,
        ListenEvent::Accepted(_) => TcpAction::Connect(route.upstream.clone()),
        ListenEvent::AcceptFailed => TcpAction::Listen,
    }
}

}
