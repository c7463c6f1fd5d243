//! The per-connection protocol: room membership, chat relay and requests for
//! paid messages.
use vstd::prelude::*;
use vstd::string::*;
use crate::text::{decimal, decimal_string};
use crate::types::{BoostMessageInvoice, Publication, Video, VideoStatus, WsPacket};

verus! {

/// The room a connection has joined, if any.
#[derive(Debug)]
pub struct State {
    pub room: Option<String>,
}

impl Default for State {
    fn default() -> (r: State)
        ensures
            r.room is None,
    {
        State { room: None }
    }
}

/// What a frame asks of the connection handler.
#[derive(Debug)]
pub enum Action {
    /// Nothing to do.
    NoOp,
    Subscribe(String),
    Broadcast(String),
    CreateInvoice(u64, String),
}

#[derive(Clone, Copy, Debug, PartialEq, Eq)]
pub enum MyErrorKind {
    /// The frame is not acceptable in the connection's state. Only that
    /// frame is refused: the connection may go on.
    Rejected,
}

#[derive(Clone, Copy, Debug, PartialEq, Eq)]
pub struct MyError {
    pub kind: MyErrorKind,
}

impl MyError {
    /// A rejection with nothing more to say.
    pub fn empty() -> (r: MyError)
        ensures
            r.kind is Rejected,
    {
        MyError { kind: MyErrorKind::Rejected }
    }
}

/// A room can be joined while its video is scheduled or live.
pub open spec fn joinable(video: Option<Video>) -> bool {
    match video {
        Some(v) => v.status is Live || v.status is Scheduled,
        None => false,
    }
}

/// The transition table. `video` is the stored video whose id is the room a
/// `Join` names; other frames ignore it. `Err(())` is a rejection, which
/// leaves the state as it was.
pub open spec fn step(room: Option<String>, msg: WsPacket, video: Option<Video>) -> Result<
    (Option<String>, Action),
    (),
> {
    match room {
        None => match msg {
            WsPacket::Join { room: r } => if joinable(video) {
                Ok((Some(r), Action::Subscribe(r)))
            } else {
                Err(())
            },
            _ => Err(()),
        },
        Some(current) => match msg {
            WsPacket::ClientMessage { message } => if message@.len() > 0 {
                Ok((Some(current), Action::Broadcast(message)))
            } else {
                Err(())
            },
            WsPacket::GetInvoice { amount, message } => Ok(
                (Some(current), Action::CreateInvoice(amount, message)),
            ),
            _ => Err(()),
        },
    }
}

impl State {
    /// Applies one inbound frame. `video` is what the store holds under the
    /// room that a `Join` names (the caller looks it up before the call).
    pub fn apply(self, msg: WsPacket, video: Option<Video>) -> (r: Result<(State, Action), MyError>)
        ensures
            match step(self.room, msg, video) {
                Ok((room, action)) => r matches Ok((s, a)) && s.room == room && a == action,
                Err(_) => r matches Err(e) && e.kind is Rejected,
            },
    {
        match self.room {
            None => match msg {
                WsPacket::Join { room } => {
                    let ok = match &video {
                        Some(v) => match v.status {
                            VideoStatus::Live { .. } | VideoStatus::Scheduled { .. } => true,
                            _ => false,
                        },
                        None => false,
                    };
                    if ok {
                        let subscribed = room.clone();
                        Ok((State { room: Some(room) }, Action::Subscribe(subscribed)))
                    } else {
                        Err(MyError::empty())
                    }
                },
                _ => Err(MyError::empty()),
            },
            Some(current) => match msg {
                WsPacket::ClientMessage { message } => {
                    if !message.as_str().is_empty() {
                        Ok((State { room: Some(current) }, Action::Broadcast(message)))
                    } else {
                        Err(MyError::empty())
                    }
                },
                WsPacket::GetInvoice { amount, message } => Ok(
                    (State { room: Some(current) }, Action::CreateInvoice(amount, message)),
                ),
                _ => Err(MyError::empty()),
            },
        }
    }
}

/// Before a room is joined, no frame leads to a broadcast or an invoice:
/// the only action an unjoined connection can reach is joining.
pub proof fn unjoined_session_only_joins(msg: WsPacket, video: Option<Video>)
    ensures
        match step(None, msg, video) {
            Ok((room, action)) => action is Subscribe && room is Some,
            Err(_) => true,
        },
{
}

/// The accepted frames of a connection that starts in `room` and receives
/// `frames` (each with the video its lookup found), each action paired with
/// the room the connection had joined when it came. Rejected frames leave no
/// trace and change nothing.
pub open spec fn trace(room: Option<String>, frames: Seq<(WsPacket, Option<Video>)>) -> Seq<
    (Option<String>, Action),
>
    decreases frames.len(),
{
    if frames.len() == 0 {
        Seq::empty()
    } else {
        match step(room, frames[0].0, frames[0].1) {
            Ok((next, action)) => seq![(room, action)] + trace(next, frames.drop_first()),
            Err(_) => trace(room, frames.drop_first()),
        }
    }
}

/// Along any sequence of frames, every broadcast and every invoice request is
/// made by a connection that has joined a room: an unjoined connection emits
/// neither.
pub proof fn no_broadcast_or_invoice_before_join(room: Option<String>, frames: Seq<(WsPacket, Option<Video>)>)
    ensures
        forall|k: int|
            0 <= k < trace(room, frames).len() && (#[trigger] trace(room, frames)[k]).1 is Broadcast
                ==> trace(room, frames)[k].0 is Some,
        forall|k: int|
            0 <= k < trace(room, frames).len() && (#[trigger] trace(room, frames)[k]).1 is CreateInvoice
                ==> trace(room, frames)[k].0 is Some,
    decreases frames.len(),
{
    if frames.len() > 0 {
        match step(room, frames[0].0, frames[0].1) {
            Ok((next, action)) => {
                no_broadcast_or_invoice_before_join(next, frames.drop_first());
                let rest = trace(next, frames.drop_first());
                let t = seq![(room, action)] + rest;
                assert forall|k: int| 0 <= k < t.len() && (#[trigger] t[k]).1 is Broadcast implies t[k].0 is Some by {
                    if k > 0 {
                        assert(t[k] == rest[k - 1]);
                    }
                }
                assert forall|k: int| 0 <= k < t.len() && (#[trigger] t[k]).1 is CreateInvoice implies t[k].0 is Some by {
                    if k > 0 {
                        assert(t[k] == rest[k - 1]);
                    }
                }
            },
            Err(_) => {
                no_broadcast_or_invoice_before_join(room, frames.drop_first());
            },
        }
    }
}

/// Relies on rand::random: some `u16`, drawn from the thread-local generator.
#[verifier::external_body]
fn random_u16() -> u16 {
    rand::random::<u16>()
}

/// The display name of anonymous user number `n`.
pub open spec fn anonymous_name_spec(n: u16) -> Seq<char> {
    "Anon"@ + decimal(n as nat)
}

/// The display name of anonymous user number `n`: `Anon` and the number.
pub fn anonymous_name(n: u16) -> (r: String)
    ensures
        r@ == anonymous_name_spec(n),
{
    let digits = decimal_string(n as u64);
    let mut name = String::from_str("Anon");
    name.append(digits.as_str());
    name
}

/// A fresh anonymous display name, with a random number.
pub fn new_session_id() -> (r: String)
    ensures
        exists|n: u16| r@ == anonymous_name_spec(n),
{
    let n = random_u16();
    anonymous_name(n)
}

/// What the connection handler must do for one accepted frame.
#[derive(Debug)]
pub enum Effect {
    /// Register the connection's queue for `room` and send `greeting` to the client.
    Subscribe { room: String, greeting: WsPacket },
    /// Publish a packet to a room through the broker.
    Publish(Publication),
    /// Ask the payment processor for an invoice of `amount` smallest units.
    RequestInvoice { amount: u64, message: String },
}

/// One realtime connection: its user's display name and its protocol state.
#[derive(Debug)]
pub struct Session {
    pub id: String,
    pub state: State,
}

impl Session {
    pub fn new(id: String) -> (r: Session)
        ensures
            r.id == id,
            r.state.room is None,
    {
        Session { id, state: State { room: None } }
    }

    /// Handles one inbound frame. On a rejection the state stays as it was
    /// and the connection may go on.
    pub fn handle(&mut self, msg: WsPacket, video: Option<Video>) -> (r: Result<Effect, MyError>)
        ensures
            final(self).id == old(self).id,
            match step(old(self).state.room, msg, video) {
                Ok((room, Action::Subscribe(joined))) => final(self).state.room == room
                    && (r matches Ok(Effect::Subscribe { room: rr, greeting: WsPacket::AssignedUsername { username } })
                    && rr == joined && username == old(self).id),
                Ok((room, Action::Broadcast(message))) => final(self).state.room == room
                    && (r matches Ok(Effect::Publish(p)) && room == Some(p.room)
                    && p.packet == (WsPacket::ServerMessage { from: old(self).id, message, extra: None })),
                Ok((room, Action::CreateInvoice(amount, message))) => final(self).state.room == room
                    && (r matches Ok(Effect::RequestInvoice { amount: a, message: m }) && a == amount && m == message),
                Ok((_, Action::NoOp)) => false,
                Err(_) => final(self).state.room == old(self).state.room && (r matches Err(e) && e.kind is Rejected),
            },
    {
        let current = match &self.state.room {
            Some(room) => Some(room.clone()),
            None => None,
        };
        match (State { room: current }).apply(msg, video) {
            Err(e) => Err(e),
            Ok((next, action)) => {
                let effect = match action {
                    Action::Subscribe(room) => Effect::Subscribe {
                        room,
                        greeting: WsPacket::AssignedUsername { username: self.id.clone() },
                    },
                    Action::Broadcast(message) => {
                        let room = match &next.room {
                            Some(r) => r.clone(),
                            None => {
                                self.state = next;
                                return Err(MyError::empty());
                            },
                        };
                        Effect::Publish(
                            Publication {
                                room,
                                packet: WsPacket::ServerMessage {
                                    from: self.id.clone(),
                                    message,
                                    extra: None,
                                },
                            },
                        )
                    },
                    Action::CreateInvoice(amount, message) => Effect::RequestInvoice { amount, message },
                    Action::NoOp => {
                        self.state = next;
                        return Err(MyError::empty());
                    },
                };
                self.state = next;
                Ok(effect)
            },
        }
    }

    /// Once the payment processor has issued invoice `invoice_id` for a paid
    /// message: the record to store and the frame that tells the client.
    /// Only a session that has joined a room has a room to record.
    pub fn invoice_created(&self, invoice_id: String, message: String) -> (r: Result<
        (BoostMessageInvoice, WsPacket),
        MyError,
    >)
        ensures
            match self.state.room {
                Some(room) => r matches Ok((inv, WsPacket::Invoice { id })) && inv.id@ == invoice_id@
                    && id == invoice_id && inv.message == message && inv.from == self.id && inv.room == room,
                None => r matches Err(e) && e.kind is Rejected,
            },
    {
        match &self.state.room {
            Some(room) => {
                let record = BoostMessageInvoice {
                    id: invoice_id.clone(),
                    message,
                    from: self.id.clone(),
                    room: room.clone(),
                };
                Ok((record, WsPacket::Invoice { id: invoice_id }))
            },
            None => Err(MyError::empty()),
        }
    }
}

} // verus!
