use livestream::config::{BTCPayConfig, Config};
use livestream::encoder::{
    min, output_dir, recording_path, Codec, EncodeJob, Encoder, EncoderError, EncoderResult, EncodingCodecs,
    EncodingConfiguration, EncodingVariant, H264, VP9,
};
use livestream::lifecycle::{monitor_tick, publish_encoded, publish_stream, PublishStatus};
use livestream::monitor::{
    NginxApplication, NginxApplicationsVec, NginxMeta, NginxMonitor, NginxStat, NginxStream, NginxStreamsVec,
};
use livestream::multiplexer::RedisMultiplexed;
use livestream::probe::{frame_rate, interpret, read_report, ProbeReport, ProbeStream, VideoProbe, VideoProbeError};
use livestream::types::{Publication, Video, VideoStatus, WsPacket};

fn config() -> Config {
    Config {
        listen: "0.0.0.0:8081".to_string(),
        storage_dir: "/srv".to_string(),
        base_url: "http://x".to_string(),
        cdn_url: "http://cdn".to_string(),
        redis_server: "redis://127.0.0.1".to_string(),
        stat_url: "http://127.0.0.1/stat".to_string(),
        btcpay: BTCPayConfig {
            key: "k".to_string(),
            url: "u".to_string(),
            merchant: "m".to_string(),
            webhook: "w".to_string(),
        },
    }
}

fn rung(height: usize, bitrate: usize, audio_channels: usize, max_fps: Option<u64>) -> EncodingVariant {
    EncodingVariant { height, bitrate, audio_channels, max_fps_milli: max_fps }
}

fn ladder() -> EncodingConfiguration {
    EncodingConfiguration {
        vod: EncodingCodecs {
            vp9: vec![
                ("240p".to_string(), rung(240, 157, 1, Some(24000))),
                ("720p".to_string(), rung(720, 1468, 2, Some(60000))),
                ("1080p".to_string(), rung(1080, 2567, 2, Some(60000))),
            ],
            h264: vec![
                ("240p".to_string(), rung(240, 242, 1, Some(24000))),
                ("720p".to_string(), rung(720, 1378, 2, None)),
            ],
        },
    }
}

fn source_meta() -> Vec<NginxMeta> {
    vec![
        NginxMeta::Audio { codec: "aac".to_string(), profile: "LC".to_string(), channels: 2, sample_rate: 44100 },
        NginxMeta::Video {
            width: 1280,
            height: 720,
            frame_rate_milli: 30000,
            codec: "h264".to_string(),
            profile: "High".to_string(),
        },
        NginxMeta::Format { duration_ms: 63541, size: 1000 },
    ]
}

fn strings(v: &[&str]) -> Vec<String> {
    v.iter().map(|s| s.to_string()).collect()
}

#[test]
fn smaller_of_two() {
    assert_eq!(min(3, 5), 3);
    assert_eq!(min(5, 3), 3);
    assert_eq!(min(4, 4), 4);
}

#[test]
fn storage_layout() {
    assert_eq!(recording_path("/srv", "v1"), "/srv/recordings/v1.flv");
    assert_eq!(output_dir("/srv/", "v1"), "/srv/encoded/v1");
}

#[test]
fn vp9_takes_two_passes() {
    let passes = VP9::commands(1468, 720, 2, 48000, "/in.flv", "/out/vp9_720p.webm");
    assert_eq!(
        passes,
        vec![
            strings(&[
                "-y", "-i", "/in.flv", "-vf", "scale=-2:720", "-c:v", "libvpx-vp9", "-b:v", "1468K", "-threads",
                "4", "-row-mt", "1", "-pass", "1", "-an", "-f", "webm", "/dev/null",
            ]),
            strings(&[
                "-y", "-i", "/in.flv", "-vf", "scale=-2:720", "-c:v", "libvpx-vp9", "-b:v", "1468K", "-threads",
                "4", "-row-mt", "1", "-pass", "2", "-c:a", "libopus", "-ac", "2", "-ar", "48000", "-f", "webm",
                "/out/vp9_720p.webm",
            ]),
        ]
    );
}

#[test]
fn h264_takes_one_pass() {
    let passes = H264::commands(242, 240, 1, 48000, "/in.flv", "/out/h264_240p.mp4");
    assert_eq!(
        passes,
        vec![strings(&[
            "-y", "-i", "/in.flv", "-vf", "scale=-2:240", "-c:v", "libx264", "-b:v", "242K", "-c:a", "aac", "-ac",
            "1", "-ar", "48000", "-f", "mp4", "/out/h264_240p.mp4",
        ])]
    );
}

fn encoder() -> Encoder {
    match Encoder::new("v2".to_string(), &config(), ladder(), true, &source_meta()) {
        Ok(e) => e,
        Err(e) => panic!("{:?}", e),
    }
}

#[test]
fn encoder_reads_the_probe_report() {
    let e = encoder();
    assert_eq!(e.path, "/srv/recordings/v2.flv");
    assert_eq!(e.output_dir, "/srv/encoded/v2");
    assert_eq!((e.video_width, e.video_height, e.video_framerate_milli), (1280, 720, 30000));
    assert_eq!(e.duration_ms, 63541);
    let no_format = vec![source_meta()[1].clone()];
    assert!(matches!(
        Encoder::new("v2".to_string(), &config(), ladder(), true, &no_format),
        Err(EncoderError::MissingMetadata)
    ));
    assert!(matches!(
        Encoder::new("v2".to_string(), &config(), ladder(), true, &vec![]),
        Err(EncoderError::MissingMetadata)
    ));
    assert!(matches!(
        Encoder::new("v2".to_string(), &config(), ladder(), false, &source_meta()),
        Err(EncoderError::MissingInput)
    ));
}

fn variant(h: usize, mime: &str, file: &str) -> (usize, String, String) {
    (h, mime.to_string(), file.to_string())
}

#[test]
fn plan_keeps_variants_within_the_source() {
    let plan = encoder().encode(&vec![]);
    assert_eq!(
        plan.variants,
        vec![
            variant(240, "video/webm", "vp9_240p.webm"),
            variant(720, "video/webm", "vp9_720p.webm"),
            variant(240, "video/mp4", "h264_240p.mp4"),
            variant(720, "video/mp4", "h264_720p.mp4"),
        ]
    );
    assert!(plan.variants.iter().all(|v| v.0 <= 720));
    let names: Vec<&str> = plan.jobs.iter().map(|j: &EncodeJob| j.variant.2.as_str()).collect();
    assert_eq!(names, vec!["vp9_240p.webm", "vp9_720p.webm", "h264_240p.mp4", "h264_720p.mp4"]);
    let first = &plan.jobs[0];
    assert_eq!(first.codec, Codec::Vp9);
    assert_eq!(first.output, "/srv/encoded/v2/vp9_240p.webm");
    assert_eq!(first.fps_milli, 24000);
    assert_eq!(first.passes.len(), 2);
    assert_eq!(plan.jobs[3].fps_milli, 30000);
    assert_eq!(plan.jobs[3].passes.len(), 1);
}

#[test]
fn resumed_plan_skips_produced_files() {
    let e = encoder();
    let scratch = e.encode(&vec![]);
    let resumed = e.encode(&strings(&["vp9_240p.webm", "h264_720p.mp4", "unrelated.txt"]));
    assert_eq!(resumed.variants, scratch.variants);
    let names: Vec<&str> = resumed.jobs.iter().map(|j| j.variant.2.as_str()).collect();
    assert_eq!(names, vec!["vp9_720p.webm", "h264_240p.mp4"]);
    let done = e.encode(&strings(&["vp9_240p.webm", "vp9_720p.webm", "h264_240p.mp4", "h264_720p.mp4"]));
    assert!(done.jobs.is_empty());
    assert_eq!(done.variants, scratch.variants);
}

#[test]
fn frame_rates() {
    assert_eq!(frame_rate("30000/1001"), Some(29970));
    assert_eq!(frame_rate("25/1"), Some(25000));
    assert_eq!(frame_rate("25"), None);
    assert_eq!(frame_rate("25/0"), None);
    assert_eq!(frame_rate("1/2/3"), None);
    assert_eq!(frame_rate("4294967296/1"), None);
}

fn video_stream() -> ProbeStream {
    ProbeStream {
        codec_type: Some("video".to_string()),
        r_frame_rate: Some("30/1".to_string()),
        width: Some(1280),
        height: Some(720),
        codec_name: Some("h264".to_string()),
        profile: Some("High".to_string()),
        channels: None,
        sample_rate: None,
    }
}

fn audio_stream() -> ProbeStream {
    ProbeStream {
        codec_type: Some("audio".to_string()),
        r_frame_rate: Some("0/0".to_string()),
        width: None,
        height: None,
        codec_name: Some("aac".to_string()),
        profile: Some("LC".to_string()),
        channels: Some(2),
        sample_rate: Some("44100".to_string()),
    }
}

#[test]
fn report_becomes_media_entries() {
    let mut data = audio_stream();
    data.codec_type = Some("data".to_string());
    let report = ProbeReport {
        duration: Some("63.541000".to_string()),
        size: Some("1000".to_string()),
        streams: Some(vec![video_stream(), data, audio_stream()]),
    };
    let metas = interpret(&report).ok().unwrap();
    assert_eq!(
        metas,
        vec![
            NginxMeta::Video {
                width: 1280,
                height: 720,
                frame_rate_milli: 30000,
                codec: "h264".to_string(),
                profile: "High".to_string(),
            },
            NginxMeta::Audio { codec: "aac".to_string(), profile: "LC".to_string(), channels: 2, sample_rate: 44100 },
            NginxMeta::Format { duration_ms: 63541, size: 1000 },
        ]
    );
}

#[test]
fn malformed_report_is_its_own_error() {
    let mut bad = video_stream();
    bad.width = None;
    let report = ProbeReport {
        duration: Some("1.0".to_string()),
        size: Some("10".to_string()),
        streams: Some(vec![bad]),
    };
    assert!(matches!(interpret(&report), Err(VideoProbeError::MalformedOutput)));
    let no_streams = ProbeReport { duration: Some("1.0".to_string()), size: Some("10".to_string()), streams: None };
    assert!(matches!(interpret(&no_streams), Err(VideoProbeError::MalformedOutput)));
    let no_duration = ProbeReport { duration: None, size: Some("10".to_string()), streams: Some(vec![]) };
    assert!(matches!(interpret(&no_duration), Err(VideoProbeError::MalformedOutput)));
}

#[test]
fn probe_json_is_read() {
    let out = br#"{"streams":[{"codec_type":"video","r_frame_rate":"30000/1001","width":1920,"height":1080,"codec_name":"h264","profile":"High"}],"format":{"duration":"10.500000","size":"2048"}}"#;
    let report = read_report(&out.to_vec()).ok().unwrap();
    assert_eq!(report.duration, Some("10.500000".to_string()));
    assert_eq!(report.size, Some("2048".to_string()));
    let streams = report.streams.clone().unwrap();
    assert_eq!(streams[0].width, Some(1920));
    assert_eq!(streams[0].r_frame_rate, Some("30000/1001".to_string()));
    let probe = VideoProbe::new("/srv/recordings/v2.flv", true).ok().unwrap();
    let metas = probe.probe(true, &out.to_vec()).ok().unwrap();
    assert_eq!(metas.len(), 2);
    assert_eq!(metas[1], NginxMeta::Format { duration_ms: 10500, size: 2048 });
    assert!(matches!(probe.probe(false, &out.to_vec()), Err(VideoProbeError::CommandFailed)));
    assert!(matches!(probe.probe(true, &b"not json".to_vec()), Err(VideoProbeError::JSON(_))));
    let no_format = br#"{"streams":[]}"#.to_vec();
    assert!(matches!(probe.probe(true, &no_format), Err(VideoProbeError::MalformedOutput)));
    let bad_rate = br#"{"streams":[{"codec_type":"video","r_frame_rate":"30","width":1,"height":1,"codec_name":"h264","profile":"High"}],"format":{"duration":"1.0","size":"2"}}"#.to_vec();
    assert!(matches!(probe.probe(true, &bad_rate), Err(VideoProbeError::MalformedOutput)));
    assert!(matches!(VideoProbe::new("/nowhere", false), Err(VideoProbeError::FileNotFound)));
}

fn video(id: &str, status: VideoStatus) -> Video {
    Video { id: id.to_string(), title: "t".to_string(), description: "d".to_string(), status }
}

#[test]
fn ingest_event_makes_a_scheduled_video_live() {
    match publish_stream(Some(video("v1", VideoStatus::Scheduled { timestamp: 100 })), 1234) {
        PublishStatus::Live(v) => {
            assert_eq!(v.id, "v1");
            assert_eq!(v.status, VideoStatus::Live { started_timestamp: 1234, viewers: 0 });
        }
        _ => panic!("expected the video to go live"),
    }
    assert!(matches!(publish_stream(None, 1), PublishStatus::NotFound));
    assert!(matches!(
        publish_stream(Some(video("v1", VideoStatus::Processing)), 1),
        PublishStatus::NotAcceptable
    ));
}

fn stream(name: &str, bw_in: usize) -> NginxStream {
    NginxStream {
        name: name.to_string(),
        time: 1,
        bw_in,
        bytes_in: 0,
        bw_out: 0,
        bytes_out: 0,
        client: vec![],
        meta: None,
    }
}

fn src_app(streams: Vec<NginxStream>) -> NginxApplication {
    NginxApplication { name: "src".to_string(), live: NginxStreamsVec { streams: Some(streams) } }
}

#[test]
fn telemetry_lookups() {
    let stat = NginxStat {
        nginx_version: "1.18.0".to_string(),
        nginx_rtmp_version: "1.1.4".to_string(),
        uptime: 1489,
        server: NginxApplicationsVec {
            applications: vec![
                NginxApplication { name: "hls".to_string(), live: NginxStreamsVec { streams: None } },
                src_app(vec![stream("movie", 0), stream("v1", 5)]),
            ],
        },
    };
    let app = stat.get_application("src").unwrap();
    assert_eq!(app.name, "src");
    assert_eq!(app.get_stream("v1").unwrap().bw_in, 5);
    assert!(app.get_stream("v9").is_none());
    assert!(stat.get_application("hls").unwrap().get_stream("movie").is_none());
    assert!(stat.get_application("dash").is_none());
}

#[test]
fn telemetry_cache_window() {
    let mut m = NginxMonitor::new("http://127.0.0.1/stat");
    assert!(m.get_newer_than(100, 5).is_none());
    let stat = NginxStat {
        nginx_version: "1".to_string(),
        nginx_rtmp_version: "2".to_string(),
        uptime: 7,
        server: NginxApplicationsVec { applications: vec![] },
    };
    m.record(100, stat);
    assert_eq!(m.get_newer_than(105, 5).unwrap().uptime, 7);
    assert!(m.get_newer_than(106, 5).is_none());
    assert!(m.get_newer_than(99, 5).is_none());
}

#[test]
fn ended_stream_goes_through_processing_to_published() {
    let mut mux = RedisMultiplexed::new();
    let _q = mux.subscribe("Anon1", "v1");
    let videos = vec![
        video("v1", VideoStatus::Live { started_timestamp: 1000, viewers: 0 }),
        video("v2", VideoStatus::Live { started_timestamp: 1000, viewers: 0 }),
        video("v3", VideoStatus::Live { started_timestamp: 1000, viewers: 0 }),
        video("v4", VideoStatus::Scheduled { timestamp: 1000 }),
    ];
    let app = src_app(vec![stream("v1", 100), stream("v3", 0)]);
    let early = monitor_tick(&videos, Some(&app), &mux, 1060);
    assert!(early.ended.is_empty());
    let plan = monitor_tick(&videos, Some(&app), &mux, 1061);
    assert_eq!(
        plan.updates,
        vec![
            Publication { room: "v1".to_string(), packet: WsPacket::UpdateViewers { viewers: 1 } },
            Publication { room: "v2".to_string(), packet: WsPacket::UpdateViewers { viewers: 0 } },
            Publication { room: "v3".to_string(), packet: WsPacket::UpdateViewers { viewers: 0 } },
        ]
    );
    let ended: Vec<&str> = plan.ended.iter().map(|(v, _)| v.id.as_str()).collect();
    assert_eq!(ended, vec!["v2", "v3"]);
    assert_eq!(plan.ended[0].1, 1000);
    let v2 = plan.ended[0].0.clone();
    assert_eq!(v2.status, VideoStatus::Processing);
    let e = Encoder::new(v2.id.clone(), &config(), ladder(), true, &source_meta()).ok().unwrap();
    let encoded = e.encode(&vec![]);
    let result = EncoderResult { variants: encoded.variants.clone(), duration_ms: e.duration_ms };
    let published = publish_encoded(v2, 1000, result).ok().unwrap();
    assert_eq!(
        published.status,
        VideoStatus::Published { timestamp: 1000, duration_ms: 63541, views: 0, variants: encoded.variants }
    );
    let not_processing = video("v4", VideoStatus::Scheduled { timestamp: 1 });
    let r = publish_encoded(not_processing, 1, EncoderResult { variants: vec![], duration_ms: 0 });
    assert!(r.is_err());
}

#[test]
fn no_telemetry_means_stopped() {
    let mux = RedisMultiplexed::new();
    let videos = vec![video("v2", VideoStatus::Live { started_timestamp: 0, viewers: 0 })];
    let plan = monitor_tick(&videos, None, &mux, 61);
    assert_eq!(plan.ended.len(), 1);
    let plan = monitor_tick(&videos, None, &mux, 60);
    assert!(plan.ended.is_empty());
}
