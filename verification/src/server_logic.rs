//! The decisions of the client's WebRTC server, which listens for offers on
//! the signalling server: whether it starts, and what it does with each event
//! of its loop (a signalling message, a finished connect, a finished run).

use vstd::prelude::*;

use crate::client_config::{
    get_signalling_server_http_url_for_route, get_signalling_server_ws_url_for_route, http_url_spec,
    ws_url_spec, ClientBuildConfig,
};
use crate::text::push_str;

verus! {

/// How the server starts.
#[derive(Clone, Debug)]
pub enum StartPlan {
    /// It is running already: answer so and do nothing.
    AlreadyRunning,
    /// Listen on the signalling server under `key`, at these URLs.
    Listen { key: String, ws_url: String, http_url: String },
}

/// Why the server could not start.
#[derive(Clone, Debug)]
pub enum ServerStartError {
    /// The current user has no signalling id or route; the text says which.
    Signalling(String),
}

/// The text of the error for a peer `peer` without a signalling id.
pub open spec fn no_id_text(peer: Seq<char>) -> Seq<char> {
    "No signalling id for peer "@ + peer
}

/// The text of the error for a peer `peer` without a signalling route.
pub open spec fn no_route_text(peer: Seq<char>) -> Seq<char> {
    "No signalling route for peer "@ + peer
}

/// Whether the server starts, for the current user `peer` with signalling id
/// `signalling_id` and route `route`. A running server answers that it runs
/// already; otherwise a user without an id, then one without a route, is an
/// error; else the server listens under the id at the signalling URLs of the
/// route. The server counts as running from then on whatever the outcome.
pub fn server_start_check(
    cfg: &ClientBuildConfig,
    running: bool,
    peer: &str,
    signalling_id: Option<&str>,
    route: Option<&str>,
) -> (r: Result<StartPlan, ServerStartError>)
    ensures
        running ==> r matches Ok(StartPlan::AlreadyRunning),
        !running && signalling_id is None ==> (r matches Err(ServerStartError::Signalling(m)) && m@
            == no_id_text(peer@)),
        !running && signalling_id is Some && route is None ==> (r matches Err(
            ServerStartError::Signalling(m),
        ) && m@ == no_route_text(peer@)),
        !running && signalling_id is Some && route is Some ==> (r matches Ok(
            StartPlan::Listen { key, ws_url, http_url },
        ) && key@ == signalling_id.unwrap()@ && ws_url@ == ws_url_spec(*cfg, route.unwrap()@) && http_url@
            == http_url_spec(*cfg, route.unwrap()@)),
{
    if running {
        return Ok(StartPlan::AlreadyRunning);
    }
    let id = match signalling_id {
        Some(id) => id,
        None => {
            let mut m = String::new();
            push_str(&mut m, "No signalling id for peer ");
            push_str(&mut m, peer);
            proof {
                reveal_strlit("No signalling id for peer ");
            }
            return Err(ServerStartError::Signalling(m));
        },
    };
    let route = match route {
        Some(r) => r,
        None => {
            let mut m = String::new();
            push_str(&mut m, "No signalling route for peer ");
            push_str(&mut m, peer);
            proof {
                reveal_strlit("No signalling route for peer ");
            }
            return Err(ServerStartError::Signalling(m));
        },
    };
    let mut key = String::new();
    push_str(&mut key, id);
    let ws_url = get_signalling_server_ws_url_for_route(cfg, route);
    let http_url = get_signalling_server_http_url_for_route(cfg, route);
    Ok(StartPlan::Listen { key, ws_url, http_url })
}

/// An event of the server's loop.
#[derive(Clone, Copy, Debug, PartialEq, Eq, Structural)]
pub enum ServerEvent {
    /// The signalling connection reported an error.
    SignallingError,
    /// A signalling message arrived; whether it has a request id and an offer.
    Message { has_request_id: bool, has_offer: bool },
    /// A connect finished; whether it gave a client.
    Connected { client: bool },
    /// The run of a client finished.
    RunFinished,
}

/// What the server's loop does for an event.
#[derive(Clone, Copy, Debug, PartialEq, Eq, Structural)]
pub enum ServerAction {
    /// Nothing; go on listening.
    Skip,
    /// Start connecting to the peer that sent the offer.
    Connect,
    /// Register the connected client and spawn its run.
    RegisterAndRun,
    /// Tell the user the peer left, and forget the client.
    CleanUp,
}

/// The server's action for `ev`: a message is answered only when it has a
/// request id and an offer; a connect that gave a client registers it; a
/// finished run is cleaned up; the rest is skipped.
pub open spec fn server_step_spec(ev: ServerEvent) -> ServerAction {
    match ev {
        ServerEvent::SignallingError => ServerAction::Skip,
        ServerEvent::Message { has_request_id, has_offer } => if has_request_id && has_offer {
            ServerAction::Connect
        } else {
            ServerAction::Skip
        },
        ServerEvent::Connected { client } => if client {
            ServerAction::RegisterAndRun
        } else {
            ServerAction::Skip
        },
        ServerEvent::RunFinished => ServerAction::CleanUp,
    }
}

/// The server's action for `ev` (see `server_step_spec`).
pub fn server_step(ev: ServerEvent) -> (a: ServerAction)
    ensures
        a == server_step_spec(ev),
{
    match ev {
        ServerEvent::SignallingError => ServerAction::Skip,
        ServerEvent::Message { has_request_id, has_offer } => if has_request_id && has_offer {
            ServerAction::Connect
        } else {
            ServerAction::Skip
        },
        ServerEvent::Connected { client } => if client {
            ServerAction::RegisterAndRun
        } else {
            ServerAction::Skip
        },
        ServerEvent::RunFinished => ServerAction::CleanUp,
    }
}

} // verus!
