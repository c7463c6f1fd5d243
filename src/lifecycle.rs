//! The lifecycle of a video: going live on an ingest event, the periodic
//! reconciliation of telemetry into viewer counts and ended streams, and
//! publication once transcoding is done. Times are whole seconds.
use vstd::prelude::*;
use crate::encoder::EncoderResult;
use crate::monitor::{stream_of, NginxApplication};
use crate::multiplexer::RedisMultiplexed;
use crate::types::{Publication, Video, VideoStatus, WsPacket};

verus! {

/// Period of the monitor loop.
pub const TICK_SECONDS: u64 = 5;

/// A live stream younger than this is never taken for ended.
pub const GRACE_SECONDS: u64 = 60;

/// The form of the ingest server's "stream published" callback. `name` is
/// the stream's key, which is the id of its video.
#[derive(Clone, Debug, PartialEq, Eq)]
pub struct OnPublishForm {
    pub app: String,
    pub flashver: String,
    pub tcurl: String,
    pub addr: String,
    pub clientid: usize,
    pub call: String,
    pub name: String,
}

/// The answer to an ingest "stream published" event.
pub enum PublishStatus {
    /// The video went live; store it.
    Live(Video),
    NotFound,
    NotAcceptable,
}

/// A scheduled video goes live, started at `now`, with no viewers.
pub open spec fn went_live(v: Video, now: u64) -> Video {
    Video {
        id: v.id,
        title: v.title,
        description: v.description,
        status: VideoStatus::Live { started_timestamp: now, viewers: 0 },
    }
}

/// Handles an ingest "stream published" event for the stored `video` whose
/// id is the stream's name.
pub fn publish_stream(video: Option<Video>, now: u64) -> (r: PublishStatus)
    ensures
        match video {
            None => r is NotFound,
            Some(v) => if v.status is Scheduled {
                r == PublishStatus::Live(went_live(v, now))
            } else {
                r is NotAcceptable
            },
        },
{
    match video {
        None => PublishStatus::NotFound,
        Some(v) => match v.status {
            VideoStatus::Scheduled { .. } => PublishStatus::Live(
                Video {
                    id: v.id,
                    title: v.title,
                    description: v.description,
                    status: VideoStatus::Live { started_timestamp: now, viewers: 0 },
                },
            ),
            _ => PublishStatus::NotAcceptable,
        },
    }
}

/// Seconds since `started`; none before it.
pub open spec fn live_for(started: u64, now: u64) -> int {
    if now >= started {
        now - started
    } else {
        0
    }
}

/// The telemetry shows no inbound data for stream `name`: no entry, or one
/// with zero inbound bandwidth.
pub open spec fn stream_stopped(telemetry: Option<&NginxApplication>, name: Seq<char>) -> bool {
    match telemetry {
        None => true,
        Some(app) => match stream_of(*app, name) {
            None => true,
            Some(s) => s.bw_in == 0,
        },
    }
}

/// A live video has ended once it is past the grace period and its stream stopped.
pub open spec fn has_ended(v: Video, now: u64, telemetry: Option<&NginxApplication>) -> bool {
    match v.status {
        VideoStatus::Live { started_timestamp, .. } => live_for(started_timestamp, now)
            > GRACE_SECONDS && stream_stopped(telemetry, v.id@),
        _ => false,
    }
}

/// The viewer count published to the room of each live video, in order.
pub open spec fn viewer_updates(videos: Seq<Video>, mux: RedisMultiplexed) -> Seq<Publication>
    decreases videos.len(),
{
    if videos.len() == 0 {
        Seq::empty()
    } else if videos.last().status is Live {
        viewer_updates(videos.drop_last(), mux).push(
            Publication {
                room: videos.last().id,
                packet: WsPacket::UpdateViewers {
                    viewers: mux.consumers(videos.last().id@).len() as usize,
                },
            },
        )
    } else {
        viewer_updates(videos.drop_last(), mux)
    }
}

pub open spec fn into_processing(v: Video) -> Video {
    Video { id: v.id, title: v.title, description: v.description, status: VideoStatus::Processing }
}

/// When a live video started.
pub open spec fn started_of(v: Video) -> u64 {
    match v.status {
        VideoStatus::Live { started_timestamp, .. } => started_timestamp,
        _ => 0,
    }
}

/// The videos that ended, now processing, each with the time its stream
/// started, in order.
pub open spec fn ended_videos(videos: Seq<Video>, now: u64, telemetry: Option<&NginxApplication>) -> Seq<
    (Video, u64),
>
    decreases videos.len(),
{
    if videos.len() == 0 {
        Seq::empty()
    } else if has_ended(videos.last(), now, telemetry) {
        ended_videos(videos.drop_last(), now, telemetry).push(
            (into_processing(videos.last()), started_of(videos.last())),
        )
    } else {
        ended_videos(videos.drop_last(), now, telemetry)
    }
}

/// What one tick of the monitor asks for.
pub struct TickPlan {
    /// Viewer counts to publish.
    pub updates: Vec<Publication>,
    /// Videos that ended, with the time their stream started: store each,
    /// now processing, and start its transcoding.
    pub ended: Vec<(Video, u64)>,
}

/// One tick of the lifecycle monitor over the stored `videos`, with
/// `telemetry` the ingest application that receives the streams and `mux`
/// the current consumers.
pub fn monitor_tick(
    videos: &Vec<Video>,
    telemetry: Option<&NginxApplication>,
    mux: &RedisMultiplexed,
    now: u64,
) -> (r: TickPlan)
    ensures
        r.updates@ == viewer_updates(videos@, *mux),
        r.ended@ == ended_videos(videos@, now, telemetry),
{
    let mut updates: Vec<Publication> = Vec::new();
    let mut ended: Vec<(Video, u64)> = Vec::new();
    let mut i: usize = 0;
    while i < videos.len()
        invariant
            i <= videos@.len(),
            updates@ == viewer_updates(videos@.subrange(0, i as int), *mux),
            ended@ == ended_videos(videos@.subrange(0, i as int), now, telemetry),
        decreases videos.len() - i,
    {
        let ghost pre = videos@.subrange(0, i as int);
        assert(videos@.subrange(0, i + 1).drop_last() =~= pre);
        assert(videos@.subrange(0, i + 1).last() == videos@[i as int]);
        let v = &videos[i];
        match v.status {
            VideoStatus::Live { started_timestamp, .. } => {
                let viewers = mux.subscribed_count(v.id.as_str());
                updates.push(
                    Publication { room: v.id.clone(), packet: WsPacket::UpdateViewers { viewers } },
                );
                let stopped = match telemetry {
                    None => true,
                    Some(app) => match app.get_stream(v.id.as_str()) {
                        None => true,
                        Some(s) => s.bw_in == 0,
                    },
                };
                let elapsed = if now >= started_timestamp {
                    now - started_timestamp
                } else {
                    0
                };
                if elapsed > GRACE_SECONDS && stopped {
                    ended.push(
                        (
                            Video {
                                id: v.id.clone(),
                                title: v.title.clone(),
                                description: v.description.clone(),
                                status: VideoStatus::Processing,
                            },
                            started_timestamp,
                        ),
                    );
                }
            },
            _ => {},
        }
        i = i + 1;
    }
    assert(videos@.subrange(0, i as int) =~= videos@);
    TickPlan { updates, ended }
}

/// A processing video is published with what its transcoding produced, under
/// the time its stream started, with no views yet.
pub open spec fn published(v: Video, started: u64, result: EncoderResult) -> Video {
    Video {
        id: v.id,
        title: v.title,
        description: v.description,
        status: VideoStatus::Published {
            timestamp: started,
            duration_ms: result.duration_ms,
            views: 0,
            variants: result.variants,
        },
    }
}

/// Publishes a video once its transcoding is done. Only a processing video
/// can be published; any other is handed back unchanged as the error.
pub fn publish_encoded(video: Video, started: u64, result: EncoderResult) -> (r: Result<Video, Video>)
    ensures
        video.status is Processing ==> r == Ok::<Video, Video>(published(video, started, result)),
        !(video.status is Processing) ==> r == Err::<Video, Video>(video),
{
    match video.status {
        VideoStatus::Processing => Ok(
            Video {
                id: video.id,
                title: video.title,
                description: video.description,
                status: VideoStatus::Published {
                    timestamp: started,
                    duration_ms: result.duration_ms,
                    views: 0,
                    variants: result.variants,
                },
            },
        ),
        _ => Err(video),
    }
}

} // verus!
