//! Records and wire messages shared by every part of the backend.
use vstd::prelude::*;

verus! {

/// A frame of the realtime protocol, also the payload published on a room.
#[derive(Clone, Debug, PartialEq, Eq)]
pub enum WsPacket {
    Join { room: String },
    AssignedUsername { username: String },
    ServerMessage { from: String, message: String, extra: Option<MessageExtra> },
    ClientMessage { message: String },
    GetInvoice { amount: u64, message: String },
    Invoice { id: String },
    UpdateViewers { viewers: usize },
}

/// What a paid message carries besides its text.
#[derive(Clone, Copy, Debug, PartialEq, Eq)]
pub struct MessageExtra {
    pub amount: u64,
    pub timestamp: u64,
    pub duration: u64,
}

/// One delivery variant of a published video: target height, MIME type and
/// file name relative to the video's output directory.
pub type Variant = (usize, String, String);

/// Where a video stands in its lifecycle. `duration_ms` is the length of the
/// recording in milliseconds.
#[derive(Clone, Debug, PartialEq, Eq)]
pub enum VideoStatus {
    Scheduled { timestamp: u64 },
    Live { started_timestamp: u64, viewers: usize },
    Upload { timestamp: u64 },
    Processing,
    Published { timestamp: u64, duration_ms: u64, views: usize, variants: Vec<Variant> },
}

#[derive(Clone, Debug, PartialEq, Eq)]
pub struct Video {
    pub id: String,
    pub title: String,
    pub description: String,
    pub status: VideoStatus,
}

/// A pending payment, tied to the chat message it will release.
#[derive(Clone, Debug, PartialEq, Eq)]
pub struct BoostMessageInvoice {
    pub id: String,
    pub message: String,
    pub from: String,
    pub room: String,
}

#[derive(Clone, Debug, PartialEq, Eq)]
pub struct Message {
    from: String,
    message: String,
}

/// A record kept in a named collection of the entity store, keyed by its id.
pub trait RedisEntity: Sized {
    /// The name of the collection.
    fn key() -> &'static str;

    fn id(&self) -> &String;
}

impl RedisEntity for Video {
    fn key() -> (r: &'static str)
        ensures
            r@ == "videos"@,
    {
        "videos"
    }

    fn id(&self) -> (r: &String)
        ensures
            r@ == self.id@,
    {
        &self.id
    }
}

impl RedisEntity for BoostMessageInvoice {
    fn key() -> (r: &'static str)
        ensures
            r@ == "message_invoices"@,
    {
        "message_invoices"
    }

    fn id(&self) -> (r: &String)
        ensures
            r@ == self.id@,
    {
        &self.id
    }
}

/// A packet together with the room it is published to.
#[derive(Clone, Debug, PartialEq, Eq)]
pub struct Publication {
    pub room: String,
    pub packet: WsPacket,
}

} // verus!
