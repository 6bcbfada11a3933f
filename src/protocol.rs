//! A model of one whole session: both engines and the two directions of the
//! channel, moved by the transitions that the typestates of `server` and
//! `client` offer. It states which side may touch the arena in each state of
//! the session, and proves that the two never may at once.
use vstd::prelude::*;

verus! {

/// The server's state, as its typestate tracks it.
#[derive(PartialEq, Eq, Structural)]
pub enum ServerStage {
    /// `ServerHandshake`: the initialize message is out.
    Handshake,
    /// `FrameServer`: the arena belongs to the server.
    Ready,
    /// `ServerRendering`: a render request is out.
    Rendering,
    /// The session is over.
    Closed,
}

/// The client's state, as its typestate tracks it.
#[derive(PartialEq, Eq, Structural)]
pub enum ClientStage {
    /// No initialize message taken yet.
    AwaitingInit,
    /// `FrameClient`: waiting for the next message.
    Idle,
    /// `RenderRequest`: the arena belongs to the client.
    Active,
    /// The worker has stopped.
    Exited,
}

/// A message in flight, by kind.
#[derive(PartialEq, Eq, Structural)]
pub enum Signal {
    Initialize,
    /// An acknowledgement, of the handshake or of a render.
    Ack,
    /// An acknowledgement that refuses the handshake.
    AckFailed,
    Request,
    Terminate,
}

/// The state of a whole session.
pub struct Session {
    pub server: ServerStage,
    pub client: ClientStage,
    /// Messages sent to the client and not yet taken, oldest first.
    pub to_client: Seq<Signal>,
    /// Messages sent to the server and not yet taken, oldest first.
    pub to_server: Seq<Signal>,
    /// Render requests the server has sent.
    pub requests_sent: nat,
    /// Render requests the client has taken.
    pub requests_taken: nat,
    /// Render acknowledgements the client has sent.
    pub acks_sent: nat,
    /// Render acknowledgements the server has taken.
    pub acks_taken: nat,
}

/// One move of one side.
pub enum Action {
    /// `FrameClient::accept`: the client opened the arena.
    ClientAccepts,
    /// The client could not open the arena and refuses.
    ClientRefuses,
    /// `ServerHandshake::on_ack` on a success.
    ServerConnects,
    /// `ServerHandshake::on_ack` on a failure.
    ServerGivesUp,
    /// `FrameServer::render`.
    ServerRequests,
    /// `FrameClient::render_frame` on a render request.
    ClientStarts,
    /// `RenderRequest::commit` or `RenderRequest::fail`.
    ClientAcks,
    /// `ServerRendering::on_ack`.
    ServerCompletes,
    /// `FrameServer::terminate`.
    ServerTerminates,
    /// `FrameClient::render_frame` on the terminate message.
    ClientExits,
    /// The server kills the worker after the channel broke.
    ServerKills,
}

/// A session just opened: the initialize message is on its way.
pub open spec fn initial() -> Session {
    Session {
        server: ServerStage::Handshake,
        client: ClientStage::AwaitingInit,
        to_client: seq![Signal::Initialize],
        to_server: seq![],
        requests_sent: 0,
        requests_taken: 0,
        acks_sent: 0,
        acks_taken: 0,
    }
}

/// Whether the oldest message in `q` is `m`.
pub open spec fn next_is(q: Seq<Signal>, m: Signal) -> bool {
    q.len() > 0 && q[0] == m
}

/// The session after action `a`, or `None` where `a` is not possible.
pub open spec fn step(s: Session, a: Action) -> Option<Session> {
    match a {
        Action::ClientAccepts => if s.client == ClientStage::AwaitingInit && next_is(
            s.to_client,
            Signal::Initialize,
        ) {
            Some(
                Session {
                    client: ClientStage::Idle,
                    to_client: s.to_client.drop_first(),
                    to_server: s.to_server.push(Signal::Ack),
                    ..s
                },
            )
        } else {
            None
        },
        Action::ClientRefuses => if s.client == ClientStage::AwaitingInit && next_is(
            s.to_client,
            Signal::Initialize,
        ) {
            Some(
                Session {
                    client: ClientStage::Exited,
                    to_client: s.to_client.drop_first(),
                    to_server: s.to_server.push(Signal::AckFailed),
                    ..s
                },
            )
        } else {
            None
        },
        Action::ServerConnects => if s.server == ServerStage::Handshake && next_is(
            s.to_server,
            Signal::Ack,
        ) {
            Some(Session { server: ServerStage::Ready, to_server: s.to_server.drop_first(), ..s })
        } else {
            None
        },
        Action::ServerGivesUp => if s.server == ServerStage::Handshake && next_is(
            s.to_server,
            Signal::AckFailed,
        ) {
            Some(Session { server: ServerStage::Closed, to_server: s.to_server.drop_first(), ..s })
        } else {
            None
        },
        Action::ServerRequests => if s.server == ServerStage::Ready {
            Some(
                Session {
                    server: ServerStage::Rendering,
                    to_client: s.to_client.push(Signal::Request),
                    requests_sent: s.requests_sent + 1,
                    ..s
                },
            )
        } else {
            None
        },
        Action::ClientStarts => if s.client == ClientStage::Idle && next_is(
            s.to_client,
            Signal::Request,
        ) {
            Some(
                Session {
                    client: ClientStage::Active,
                    to_client: s.to_client.drop_first(),
                    requests_taken: s.requests_taken + 1,
                    ..s
                },
            )
        } else {
            None
        },
        Action::ClientAcks => if s.client == ClientStage::Active {
            Some(
                Session {
                    client: ClientStage::Idle,
                    to_server: s.to_server.push(Signal::Ack),
                    acks_sent: s.acks_sent + 1,
                    ..s
                },
            )
        } else {
            None
        },
        Action::ServerCompletes => if s.server == ServerStage::Rendering && next_is(
            s.to_server,
            Signal::Ack,
        ) {
            Some(
                Session {
                    server: ServerStage::Ready,
                    to_server: s.to_server.drop_first(),
                    acks_taken: s.acks_taken + 1,
                    ..s
                },
            )
        } else {
            None
        },
        Action::ServerTerminates => if s.server == ServerStage::Ready {
            Some(
                Session {
                    server: ServerStage::Closed,
                    to_client: s.to_client.push(Signal::Terminate),
                    ..s
                },
            )
        } else {
            None
        },
        Action::ClientExits => if s.client == ClientStage::Idle && next_is(
            s.to_client,
            Signal::Terminate,
        ) {
            Some(
                Session {
                    client: ClientStage::Exited,
                    to_client: s.to_client.drop_first(),
                    ..s
                },
            )
        } else {
            None
        },
        Action::ServerKills => if s.server != ServerStage::Closed {
            Some(Session { server: ServerStage::Closed, client: ClientStage::Exited, ..s })
        } else {
            None
        },
    }
}

/// The session after the actions of `actions` in turn, or `None` where one
/// of them was not possible.
pub open spec fn run(actions: Seq<Action>) -> Option<Session>
    decreases actions.len(),
{
    if actions.len() == 0 {
        Some(initial())
    } else {
        match run(actions.drop_last()) {
            None => None,
            Some(s) => step(s, actions.last()),
        }
    }
}

/// Whether the server may write the source frames and read the output frame.
pub open spec fn server_owns_arena(s: Session) -> bool {
    s.server == ServerStage::Ready
}

/// Whether the client may read the source frames and write the output frame.
pub open spec fn client_owns_arena(s: Session) -> bool {
    s.client == ClientStage::Active
}

/// What the protocol guarantees in every state: never do both sides own the
/// arena; the server owns it only once the client has acknowledged every
/// render request sent; the client owns it only for a request the server has
/// sent.
pub open spec fn safe(s: Session) -> bool {
    &&& !(server_owns_arena(s) && client_owns_arena(s))
    &&& server_owns_arena(s) ==> s.acks_sent == s.requests_sent
    &&& client_owns_arena(s) ==> s.requests_taken == s.requests_sent
    &&& s.acks_taken <= s.acks_sent <= s.requests_taken <= s.requests_sent
}

spec fn inv(s: Session) -> bool {
    &&& s.acks_taken <= s.acks_sent <= s.requests_taken <= s.requests_sent
    &&& match s.server {
        ServerStage::Handshake => {
            &&& s.requests_sent == 0
            &&& match s.client {
                ClientStage::AwaitingInit => s.to_client == seq![Signal::Initialize]
                    && s.to_server == Seq::<Signal>::empty(),
                ClientStage::Idle => s.to_client == Seq::<Signal>::empty() && s.to_server
                    == seq![Signal::Ack],
                ClientStage::Exited => s.to_client == Seq::<Signal>::empty() && s.to_server
                    == seq![Signal::AckFailed],
                ClientStage::Active => false,
            }
        },
        ServerStage::Ready => {
            &&& s.client == ClientStage::Idle
            &&& s.to_client == Seq::<Signal>::empty()
            &&& s.to_server == Seq::<Signal>::empty()
            &&& s.acks_taken == s.requests_sent
        },
        ServerStage::Rendering => {
            &&& s.requests_sent == s.acks_taken + 1
            &&& match s.client {
                ClientStage::Idle => (s.to_client == seq![Signal::Request] && s.to_server
                    == Seq::<Signal>::empty() && s.requests_taken == s.acks_taken) || (
                s.to_client == Seq::<Signal>::empty() && s.to_server == seq![Signal::Ack]
                    && s.acks_sent == s.requests_sent),
                ClientStage::Active => s.to_client == Seq::<Signal>::empty() && s.to_server
                    == Seq::<Signal>::empty() && s.requests_taken == s.requests_sent
                    && s.acks_sent == s.acks_taken,
                _ => false,
            }
        },
        ServerStage::Closed => match s.client {
            ClientStage::Idle => s.to_client == seq![Signal::Terminate],
            ClientStage::Exited => true,
            _ => false,
        },
    }
}

proof fn lemma_step_keeps_inv(s: Session, a: Action)
    requires
        inv(s),
        step(s, a) is Some,
    ensures
        inv(step(s, a)->Some_0),
{
    let t = step(s, a)->Some_0;
    let empty = Seq::<Signal>::empty();
    assert(seq![Signal::Initialize].drop_first() =~= empty);
    assert(seq![Signal::Request].drop_first() =~= empty);
    assert(seq![Signal::Terminate].drop_first() =~= empty);
    assert(seq![Signal::Ack].drop_first() =~= empty);
    assert(seq![Signal::AckFailed].drop_first() =~= empty);
    assert(empty.push(Signal::Ack) =~= seq![Signal::Ack]);
    assert(empty.push(Signal::AckFailed) =~= seq![Signal::AckFailed]);
    assert(empty.push(Signal::Request) =~= seq![Signal::Request]);
    assert(empty.push(Signal::Terminate) =~= seq![Signal::Terminate]);
}

proof fn lemma_run_keeps_inv(actions: Seq<Action>)
    ensures
        run(actions) matches Some(s) ==> inv(s),
    decreases actions.len(),
{
    if actions.len() > 0 {
        lemma_run_keeps_inv(actions.drop_last());
        if let Some(s) = run(actions.drop_last()) {
            if step(s, actions.last()) is Some {
                lemma_step_keeps_inv(s, actions.last());
            }
        }
    }
}

/// Whatever the two sides do, in whatever order the channel lets them, the
/// arena is never owned by both at once; the server owns it only once the
/// client has acknowledged every render request sent, so it cannot see the
/// output of a render before its acknowledgement; and the client owns it only
/// for a render request the server has already sent.
pub proof fn lemma_protocol_safety(actions: Seq<Action>)
    ensures
        run(actions) matches Some(s) ==> safe(s),
{
    lemma_run_keeps_inv(actions);
}

} // verus!
