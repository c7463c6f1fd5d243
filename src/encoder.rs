//! The transcoding plan: which delivery variants a recording gets, which of
//! them still have to be produced, and the encoder command lines for each.
use vstd::prelude::*;
use vstd::string::*;
use crate::config::Config;
use crate::monitor::NginxMeta;
use crate::probe::VideoProbeError;
use crate::text::{contains_text, decimal, decimal_string, join_path, join_path_spec, texts};
use crate::types::Variant;

verus! {

/// Audio sampling rate of every variant, in hertz.
pub const AUDIO_SAMPLING: usize = 48000;

/// One rung of a codec's ladder. A frame rate is in thousandths of a frame
/// per second.
#[derive(Clone, Copy, Debug, PartialEq, Eq)]
pub struct EncodingVariant {
    pub height: usize,
    pub bitrate: usize,
    pub audio_channels: usize,
    pub max_fps_milli: Option<u64>,
}

/// The ladders of the two codec families, each rung under its name, in order.
pub struct EncodingCodecs {
    pub vp9: Vec<(String, EncodingVariant)>,
    pub h264: Vec<(String, EncodingVariant)>,
}

pub struct EncodingConfiguration {
    pub vod: EncodingCodecs,
}

#[derive(Clone, Copy, Debug, PartialEq, Eq)]
pub enum Codec {
    Vp9,
    H264,
}

pub open spec fn codec_prefix(c: Codec) -> Seq<char> {
    match c {
        Codec::Vp9 => "vp9_"@,
        Codec::H264 => "h264_"@,
    }
}

pub open spec fn codec_extension(c: Codec) -> Seq<char> {
    match c {
        Codec::Vp9 => ".webm"@,
        Codec::H264 => ".mp4"@,
    }
}

pub open spec fn codec_mime(c: Codec) -> Seq<char> {
    match c {
        Codec::Vp9 => "video/webm"@,
        Codec::H264 => "video/mp4"@,
    }
}

/// The output file of rung `name` of codec `c`.
pub open spec fn variant_file(c: Codec, name: Seq<char>) -> Seq<char> {
    codec_prefix(c) + name + codec_extension(c)
}

/// A rung as the plan sees it: codec, name, settings.
pub type Rung = (Codec, Seq<char>, EncodingVariant);

/// A variant as the contracts see it: height, MIME type, file name.
pub type VariantView = (usize, Seq<char>, Seq<char>);

pub open spec fn variant_view(v: Variant) -> VariantView {
    (v.0, v.1@, v.2@)
}

pub open spec fn rung_variant(r: Rung) -> VariantView {
    (r.2.height, codec_mime(r.0), variant_file(r.0, r.1))
}

/// The rungs of a ladder that a source `height` lines tall gets: those not
/// taller than the source, in ladder order.
pub open spec fn selected(list: Seq<(String, EncodingVariant)>, c: Codec, height: usize) -> Seq<Rung>
    decreases list.len(),
{
    if list.len() == 0 {
        Seq::empty()
    } else if list.last().1.height <= height {
        selected(list.drop_last(), c, height).push((c, list.last().0@, list.last().1))
    } else {
        selected(list.drop_last(), c, height)
    }
}

/// Every rung a source `height` lines tall gets: the VP9 ladder, then H.264.
pub open spec fn planned_rungs(config: EncodingConfiguration, height: usize) -> Seq<Rung> {
    selected(config.vod.vp9@, Codec::Vp9, height) + selected(config.vod.h264@, Codec::H264, height)
}

pub open spec fn planned_variants(config: EncodingConfiguration, height: usize) -> Seq<VariantView> {
    planned_rungs(config, height).map_values(|r: Rung| rung_variant(r))
}

/// The rungs whose output file is not among `existing`, in order.
pub open spec fn unproduced(rungs: Seq<Rung>, existing: Seq<Seq<char>>) -> Seq<Rung>
    decreases rungs.len(),
{
    if rungs.len() == 0 {
        Seq::empty()
    } else if existing.contains(variant_file(rungs.last().0, rungs.last().1)) {
        unproduced(rungs.drop_last(), existing)
    } else {
        unproduced(rungs.drop_last(), existing).push(rungs.last())
    }
}

pub open spec fn spec_min(a: u64, b: u64) -> u64 {
    if a < b {
        a
    } else {
        b
    }
}

pub fn min(a: u64, b: u64) -> (r: u64)
    ensures
        r == spec_min(a, b),
{
    if a < b {
        a
    } else {
        b
    }
}

/// The frame rate of a rung: the source's, capped by the rung's own cap.
pub open spec fn rung_fps(source_fps: u64, v: EncodingVariant) -> u64 {
    match v.max_fps_milli {
        Some(cap) => spec_min(source_fps, cap),
        None => source_fps,
    }
}

/// The encoder arguments shared by every pass: input, scaling, video codec and bitrate.
pub open spec fn video_args(input: Seq<char>, height: usize, codec: Seq<char>, bitrate: usize) -> Seq<Seq<char>> {
    seq![
        "-y"@, "-i"@, input, "-vf"@, "scale=-2:"@ + decimal(height as nat), "-c:v"@, codec,
        "-b:v"@, decimal(bitrate as nat) + "K"@,
    ]
}

/// The two VP9 passes: the first only writes the pass log to the working
/// directory, the second reads it and writes the output with Opus audio.
pub open spec fn vp9_passes(
    bitrate: usize,
    height: usize,
    audio_channels: usize,
    audio_sampling: usize,
    input: Seq<char>,
    output: Seq<char>,
) -> Seq<Seq<Seq<char>>> {
    seq![
        video_args(input, height, "libvpx-vp9"@, bitrate) + seq![
            "-threads"@, "4"@, "-row-mt"@, "1"@, "-pass"@, "1"@, "-an"@, "-f"@, "webm"@, "/dev/null"@,
        ],
        video_args(input, height, "libvpx-vp9"@, bitrate) + seq![
            "-threads"@, "4"@, "-row-mt"@, "1"@, "-pass"@, "2"@, "-c:a"@, "libopus"@,
            "-ac"@, decimal(audio_channels as nat), "-ar"@, decimal(audio_sampling as nat),
            "-f"@, "webm"@, output,
        ],
    ]
}

/// The single H.264 pass, with AAC audio.
pub open spec fn h264_passes(
    bitrate: usize,
    height: usize,
    audio_channels: usize,
    audio_sampling: usize,
    input: Seq<char>,
    output: Seq<char>,
) -> Seq<Seq<Seq<char>>> {
    seq![
        video_args(input, height, "libx264"@, bitrate) + seq![
            "-c:a"@, "aac"@, "-ac"@, decimal(audio_channels as nat), "-ar"@,
            decimal(audio_sampling as nat), "-f"@, "mp4"@, output,
        ],
    ]
}

pub open spec fn passes_view(p: Seq<Vec<String>>) -> Seq<Seq<Seq<char>>> {
    p.map_values(|args: Vec<String>| texts(args@))
}

/// `prefix`, `n` in decimal, then `suffix`.
fn numbered(prefix: &str, n: usize, suffix: &str) -> (r: String)
    ensures
        r@ == prefix@ + decimal(n as nat) + suffix@,
{
    let mut r = String::from_str(prefix);
    let digits = decimal_string(n as u64);
    r.append(digits.as_str());
    r.append(suffix);
    r
}

fn push_text(args: &mut Vec<String>, s: &str)
    ensures
        texts(final(args)@) == texts(old(args)@).push(s@),
{
    let ghost before = args@;
    args.push(String::from_str(s));
    assert(texts(args@) =~= texts(before).push(s@));
}

fn push_string(args: &mut Vec<String>, s: String)
    ensures
        texts(final(args)@) == texts(old(args)@).push(s@),
{
    let ghost before = args@;
    let ghost v = s@;
    args.push(s);
    assert(texts(args@) =~= texts(before).push(v));
}

fn video_args_exec(input: &str, height: usize, codec: &str, bitrate: usize) -> (r: Vec<String>)
    ensures
        texts(r@) == video_args(input@, height, codec@, bitrate),
{
    let mut a: Vec<String> = Vec::new();
    assert(texts(a@) =~= Seq::<Seq<char>>::empty());
    push_text(&mut a, "-y");
    push_text(&mut a, "-i");
    push_text(&mut a, input);
    push_text(&mut a, "-vf");
    push_string(&mut a, numbered("scale=-2:", height, ""));
    push_text(&mut a, "-c:v");
    push_text(&mut a, codec);
    push_text(&mut a, "-b:v");
    push_string(&mut a, numbered("", bitrate, "K"));
    proof {
        reveal_strlit("");
    }
    assert("scale=-2:"@ + decimal(height as nat) + ""@ =~= "scale=-2:"@ + decimal(height as nat));
    assert(""@ + decimal(bitrate as nat) + "K"@ =~= decimal(bitrate as nat) + "K"@);
    assert(texts(a@) =~= video_args(input@, height, codec@, bitrate));
    a
}

/// Command lines of the VP9 family.
pub struct VP9;

/// Command lines of the H.264 family.
pub struct H264;

impl VP9 {
    /// The encoder's arguments for each pass, in order. Both passes run in
    /// the same working directory, which holds the pass log between them.
    pub fn commands(
        bitrate: usize,
        height: usize,
        audio_channels: usize,
        audio_sampling: usize,
        input: &str,
        output: &str,
    ) -> (r: Vec<Vec<String>>)
        ensures
            passes_view(r@) == vp9_passes(bitrate, height, audio_channels, audio_sampling, input@, output@),
    {
        let mut first = video_args_exec(input, height, "libvpx-vp9", bitrate);
        push_text(&mut first, "-threads");
        push_text(&mut first, "4");
        push_text(&mut first, "-row-mt");
        push_text(&mut first, "1");
        push_text(&mut first, "-pass");
        push_text(&mut first, "1");
        push_text(&mut first, "-an");
        push_text(&mut first, "-f");
        push_text(&mut first, "webm");
        push_text(&mut first, "/dev/null");
        let mut second = video_args_exec(input, height, "libvpx-vp9", bitrate);
        push_text(&mut second, "-threads");
        push_text(&mut second, "4");
        push_text(&mut second, "-row-mt");
        push_text(&mut second, "1");
        push_text(&mut second, "-pass");
        push_text(&mut second, "2");
        push_text(&mut second, "-c:a");
        push_text(&mut second, "libopus");
        push_text(&mut second, "-ac");
        push_string(&mut second, numbered("", audio_channels, ""));
        push_text(&mut second, "-ar");
        push_string(&mut second, numbered("", audio_sampling, ""));
        push_text(&mut second, "-f");
        push_text(&mut second, "webm");
        push_text(&mut second, output);
        proof {
            reveal_strlit("");
        }
        assert(""@ + decimal(audio_channels as nat) + ""@ =~= decimal(audio_channels as nat));
        assert(""@ + decimal(audio_sampling as nat) + ""@ =~= decimal(audio_sampling as nat));
        assert(texts(first@) =~= vp9_passes(bitrate, height, audio_channels, audio_sampling, input@, output@)[0]);
        assert(texts(second@) =~= vp9_passes(bitrate, height, audio_channels, audio_sampling, input@, output@)[1]);
        let mut r: Vec<Vec<String>> = Vec::new();
        r.push(first);
        r.push(second);
        assert(passes_view(r@) =~= vp9_passes(bitrate, height, audio_channels, audio_sampling, input@, output@));
        r
    }
}

impl H264 {
    /// The encoder's arguments for its single pass.
    pub fn commands(
        bitrate: usize,
        height: usize,
        audio_channels: usize,
        audio_sampling: usize,
        input: &str,
        output: &str,
    ) -> (r: Vec<Vec<String>>)
        ensures
            passes_view(r@) == h264_passes(bitrate, height, audio_channels, audio_sampling, input@, output@),
    {
        let mut only = video_args_exec(input, height, "libx264", bitrate);
        push_text(&mut only, "-c:a");
        push_text(&mut only, "aac");
        push_text(&mut only, "-ac");
        push_string(&mut only, numbered("", audio_channels, ""));
        push_text(&mut only, "-ar");
        push_string(&mut only, numbered("", audio_sampling, ""));
        push_text(&mut only, "-f");
        push_text(&mut only, "mp4");
        push_text(&mut only, output);
        proof {
            reveal_strlit("");
        }
        assert(""@ + decimal(audio_channels as nat) + ""@ =~= decimal(audio_channels as nat));
        assert(""@ + decimal(audio_sampling as nat) + ""@ =~= decimal(audio_sampling as nat));
        assert(texts(only@) =~= h264_passes(bitrate, height, audio_channels, audio_sampling, input@, output@)[0]);
        let mut r: Vec<Vec<String>> = Vec::new();
        r.push(only);
        assert(passes_view(r@) =~= h264_passes(bitrate, height, audio_channels, audio_sampling, input@, output@));
        r
    }
}

/// The height, width and frame rate of the first video entry.
pub open spec fn first_video(meta: Seq<NginxMeta>) -> Option<(usize, usize, u64)>
    decreases meta.len(),
{
    if meta.len() == 0 {
        None
    } else {
        match meta[0] {
            NginxMeta::Video { width, height, frame_rate_milli, .. } => Some((width, height, frame_rate_milli)),
            _ => first_video(meta.drop_first()),
        }
    }
}

/// The duration of the first format entry.
pub open spec fn first_duration(meta: Seq<NginxMeta>) -> Option<u64>
    decreases meta.len(),
{
    if meta.len() == 0 {
        None
    } else {
        match meta[0] {
            NginxMeta::Format { duration_ms, .. } => Some(duration_ms),
            _ => first_duration(meta.drop_first()),
        }
    }
}

pub open spec fn recording_path_spec(storage_dir: Seq<char>, id: Seq<char>) -> Seq<char> {
    join_path_spec(join_path_spec(storage_dir, "recordings"@), id + ".flv"@)
}

pub open spec fn output_dir_spec(storage_dir: Seq<char>, id: Seq<char>) -> Seq<char> {
    join_path_spec(join_path_spec(storage_dir, "encoded"@), id)
}

/// Where the raw capture of stream `id` is kept.
pub fn recording_path(storage_dir: &str, id: &str) -> (r: String)
    ensures
        r@ == recording_path_spec(storage_dir@, id@),
{
    let dir = join_path(storage_dir, "recordings");
    let mut file = String::from_str(id);
    file.append(".flv");
    join_path(dir.as_str(), file.as_str())
}

/// Where the variants of stream `id` are written.
pub fn output_dir(storage_dir: &str, id: &str) -> (r: String)
    ensures
        r@ == output_dir_spec(storage_dir@, id@),
{
    let dir = join_path(storage_dir, "encoded");
    join_path(dir.as_str(), id)
}

#[derive(Debug)]
pub enum EncoderError {
    /// The raw capture is not there.
    MissingInput,
    /// The probe reported no video stream or no duration.
    MissingMetadata,
    VideoProbe(VideoProbeError),
    TokioIO(String),
    TOML(String),
}

/// The transcoding of one recording: its source's properties and the ladder.
pub struct Encoder {
    pub id: String,
    /// The raw capture.
    pub path: String,
    pub output_dir: String,
    pub config: EncodingConfiguration,
    pub video_width: usize,
    pub video_height: usize,
    pub video_framerate_milli: u64,
    pub duration_ms: u64,
}

/// One variant still to be produced.
pub struct EncodeJob {
    pub codec: Codec,
    pub name: String,
    pub settings: EncodingVariant,
    pub variant: Variant,
    /// The output file.
    pub output: String,
    /// The frame rate the variant is meant to have. The encoder arguments do
    /// not apply it yet: every variant keeps the source's frame rate.
    pub fps_milli: u64,
    /// The encoder's arguments for each pass, run in order in one scratch directory.
    pub passes: Vec<Vec<String>>,
}

pub open spec fn job_rung(j: EncodeJob) -> Rung {
    (j.codec, j.name@, j.settings)
}

pub open spec fn codec_passes(c: Codec, v: EncodingVariant, input: Seq<char>, output: Seq<char>) -> Seq<
    Seq<Seq<char>>,
> {
    match c {
        Codec::Vp9 => vp9_passes(v.bitrate, v.height, v.audio_channels, AUDIO_SAMPLING, input, output),
        Codec::H264 => h264_passes(v.bitrate, v.height, v.audio_channels, AUDIO_SAMPLING, input, output),
    }
}

/// A job is what its rung asks for: its variant, its output file under
/// `output_dir`, its frame rate and its encoder passes.
pub open spec fn job_ok(j: EncodeJob, input: Seq<char>, output_dir: Seq<char>, source_fps: u64) -> bool {
    &&& variant_view(j.variant) == rung_variant(job_rung(j))
    &&& j.output@ == join_path_spec(output_dir, j.variant.2@)
    &&& j.fps_milli == rung_fps(source_fps, j.settings)
    &&& passes_view(j.passes@) == codec_passes(j.codec, j.settings, input, j.output@)
}

/// The outcome of planning: the variant list of the finished video, and the
/// jobs for the variants whose file is not there yet.
pub struct EncodePlan {
    pub output_dir: String,
    pub variants: Vec<Variant>,
    pub jobs: Vec<EncodeJob>,
}

/// What a finished transcoding hands back.
pub struct EncoderResult {
    pub variants: Vec<Variant>,
    pub duration_ms: u64,
}

pub open spec fn variant_views(v: Seq<Variant>) -> Seq<VariantView> {
    v.map_values(|x: Variant| variant_view(x))
}

pub open spec fn job_rungs(j: Seq<EncodeJob>) -> Seq<Rung> {
    j.map_values(|x: EncodeJob| job_rung(x))
}

proof fn lemma_unproduced_concat(a: Seq<Rung>, b: Seq<Rung>, existing: Seq<Seq<char>>)
    ensures
        unproduced(a + b, existing) == unproduced(a, existing) + unproduced(b, existing),
    decreases b.len(),
{
    if b.len() == 0 {
        assert(a + b =~= a);
        assert(unproduced(a, existing) + unproduced(b, existing) =~= unproduced(a, existing));
    } else {
        lemma_unproduced_concat(a, b.drop_last(), existing);
        assert((a + b).drop_last() =~= a + b.drop_last());
        assert((a + b).last() == b.last());
        let x = unproduced(a, existing);
        let y = unproduced(b.drop_last(), existing);
        assert(x + y.push(b.last()) =~= (x + y).push(b.last()));
    }
}

impl Encoder {
    /// Prepares the transcoding of stream `id`, from the probe's report on
    /// its raw capture. `input_exists` says whether the capture is at
    /// `recording_path`; without it nothing else is looked at. The source's
    /// size and frame rate come from the report's first video entry, its
    /// duration from the first format entry.
    pub fn new(
        id: String,
        global_config: &Config,
        config: EncodingConfiguration,
        input_exists: bool,
        meta: &Vec<NginxMeta>,
    ) -> (r: Result<Encoder, EncoderError>)
        ensures
            !input_exists ==> (r matches Err(EncoderError::MissingInput)),
            input_exists ==> match (first_video(meta@), first_duration(meta@)) {
                (Some((w, h, fps)), Some(d)) => r matches Ok(e) && e.id == id
                    && e.path@ == recording_path_spec(global_config.storage_dir@, id@)
                    && e.output_dir@ == output_dir_spec(global_config.storage_dir@, id@)
                    && e.config == config && e.video_width == w && e.video_height == h
                    && e.video_framerate_milli == fps && e.duration_ms == d,
                _ => r matches Err(EncoderError::MissingMetadata),
            },
    {
        if !input_exists {
            return Err(EncoderError::MissingInput);
        }
        let mut video: Option<(usize, usize, u64)> = None;
        let mut duration: Option<u64> = None;
        let mut i: usize = 0;
        assert(meta@.subrange(0, meta@.len() as int) =~= meta@);
        while i < meta.len()
            invariant
                i <= meta@.len(),
                match video {
                    Some(x) => first_video(meta@) == Some(x),
                    None => first_video(meta@) == first_video(meta@.subrange(i as int, meta@.len() as int)),
                },
                match duration {
                    Some(x) => first_duration(meta@) == Some(x),
                    None => first_duration(meta@) == first_duration(meta@.subrange(i as int, meta@.len() as int)),
                },
            decreases meta.len() - i,
        {
            let ghost rest = meta@.subrange(i as int, meta@.len() as int);
            assert(rest.drop_first() =~= meta@.subrange(i + 1, meta@.len() as int));
            assert(rest[0] == meta@[i as int]);
            match &meta[i] {
                NginxMeta::Video { width, height, frame_rate_milli, .. } => {
                    if video.is_none() {
                        video = Some((*width, *height, *frame_rate_milli));
                    }
                },
                NginxMeta::Format { duration_ms, .. } => {
                    if duration.is_none() {
                        duration = Some(*duration_ms);
                    }
                },
                _ => {},
            }
            i = i + 1;
        }
        assert(meta@.subrange(i as int, meta@.len() as int).len() == 0);
        match (video, duration) {
            (Some((video_width, video_height, video_framerate_milli)), Some(duration_ms)) => {
                let path = recording_path(global_config.storage_dir.as_str(), id.as_str());
                let out = output_dir(global_config.storage_dir.as_str(), id.as_str());
                Ok(
                    Encoder {
                        id,
                        path,
                        output_dir: out,
                        config,
                        video_width,
                        video_height,
                        video_framerate_milli,
                        duration_ms,
                    },
                )
            },
            _ => Err(EncoderError::MissingMetadata),
        }
    }

    /// Plans one ladder: appends the variants it gives the source and a job
    /// for each of them whose file is not among `existing`.
    fn plan_ladder(
        &self,
        list: &Vec<(String, EncodingVariant)>,
        codec: Codec,
        existing: &Vec<String>,
        variants: &mut Vec<Variant>,
        jobs: &mut Vec<EncodeJob>,
    )
        requires
            forall|k: int| 0 <= k < old(jobs)@.len() ==> job_ok(#[trigger] old(jobs)@[k], self.path@, self.output_dir@, self.video_framerate_milli),
        ensures
            variant_views(final(variants)@) == variant_views(old(variants)@) + selected(list@, codec, self.video_height).map_values(|r: Rung| rung_variant(r)),
            job_rungs(final(jobs)@) == job_rungs(old(jobs)@) + unproduced(selected(list@, codec, self.video_height), texts(existing@)),
            forall|k: int| 0 <= k < final(jobs)@.len() ==> job_ok(#[trigger] final(jobs)@[k], self.path@, self.output_dir@, self.video_framerate_milli),
    {
        let ghost v0 = variant_views(variants@);
        let ghost j0 = job_rungs(jobs@);
        let ghost ex = texts(existing@);
        let ghost h = self.video_height;
        let mut i: usize = 0;
        while i < list.len()
            invariant
                i <= list@.len(),
                variant_views(variants@) == v0 + selected(list@.subrange(0, i as int), codec, h).map_values(|r: Rung| rung_variant(r)),
                job_rungs(jobs@) == j0 + unproduced(selected(list@.subrange(0, i as int), codec, h), ex),
                forall|k: int| 0 <= k < jobs@.len() ==> job_ok(#[trigger] jobs@[k], self.path@, self.output_dir@, self.video_framerate_milli),
                ex == texts(existing@),
                h == self.video_height,
            decreases list.len() - i,
        {
            let ghost pre = list@.subrange(0, i as int);
            let ghost sel = selected(pre, codec, h);
            assert(list@.subrange(0, i + 1).drop_last() =~= pre);
            assert(list@.subrange(0, i + 1).last() == list@[i as int]);
            let settings = list[i].1;
            if settings.height <= self.video_height {
                let name = &list[i].0;
                let filename = match codec {
                    Codec::Vp9 => {
                        let mut f = String::from_str("vp9_");
                        f.append(name.as_str());
                        f.append(".webm");
                        f
                    },
                    Codec::H264 => {
                        let mut f = String::from_str("h264_");
                        f.append(name.as_str());
                        f.append(".mp4");
                        f
                    },
                };
                let mime = match codec {
                    Codec::Vp9 => String::from_str("video/webm"),
                    Codec::H264 => String::from_str("video/mp4"),
                };
                let ghost rung: Rung = (codec, name@, settings);
                assert(selected(list@.subrange(0, i + 1), codec, h) == sel.push(rung));
                assert(filename@ == variant_file(codec, name@));
                let ghost vb = variants@;
                let produced = contains_text(existing, &filename);
                let output = join_path(self.output_dir.as_str(), filename.as_str());
                variants.push((settings.height, mime, filename.clone()));
                assert(variant_views(variants@) =~= variant_views(vb).push(rung_variant(rung)));
                assert(sel.push(rung).map_values(|r: Rung| rung_variant(r)) =~= sel.map_values(|r: Rung| rung_variant(r)).push(rung_variant(rung)));
                if !produced {
                    let fps = match settings.max_fps_milli {
                        Some(cap) => min(self.video_framerate_milli, cap),
                        None => self.video_framerate_milli,
                    };
                    let passes = match codec {
                        Codec::Vp9 => VP9::commands(
                            settings.bitrate,
                            settings.height,
                            settings.audio_channels,
                            AUDIO_SAMPLING,
                            self.path.as_str(),
                            output.as_str(),
                        ),
                        Codec::H264 => H264::commands(
                            settings.bitrate,
                            settings.height,
                            settings.audio_channels,
                            AUDIO_SAMPLING,
                            self.path.as_str(),
                            output.as_str(),
                        ),
                    };
                    let job = EncodeJob {
                        codec,
                        name: name.clone(),
                        settings,
                        variant: (settings.height, match codec {
                            Codec::Vp9 => String::from_str("video/webm"),
                            Codec::H264 => String::from_str("video/mp4"),
                        }, filename),
                        output,
                        fps_milli: fps,
                        passes,
                    };
                    assert(job_ok(job, self.path@, self.output_dir@, self.video_framerate_milli));
                    let ghost jb = jobs@;
                    jobs.push(job);
                    assert(job_rungs(jobs@) =~= job_rungs(jb).push(rung));
                    assert(unproduced(sel.push(rung), ex) == unproduced(sel, ex).push(rung)) by {
                        assert(sel.push(rung).drop_last() =~= sel);
                    }
                    assert(j0 + unproduced(sel, ex).push(rung) =~= (j0 + unproduced(sel, ex)).push(rung));
                } else {
                    assert(unproduced(sel.push(rung), ex) == unproduced(sel, ex)) by {
                        assert(sel.push(rung).drop_last() =~= sel);
                    }
                }
                assert(v0 + sel.map_values(|r: Rung| rung_variant(r)).push(rung_variant(rung)) =~= (v0 + sel.map_values(|r: Rung| rung_variant(r))).push(rung_variant(rung)));
            }
            i = i + 1;
        }
        assert(list@.subrange(0, i as int) =~= list@);
    }

    /// Plans the transcoding. `existing` names the files already in the
    /// output directory: their variants are listed but not produced again,
    /// so a run that was cut short can be resumed. The variant list does not
    /// depend on `existing`.
    pub fn encode(&self, existing: &Vec<String>) -> (r: EncodePlan)
        ensures
            r.output_dir@ == self.output_dir@,
            variant_views(r.variants@) == planned_variants(self.config, self.video_height),
            job_rungs(r.jobs@) == unproduced(planned_rungs(self.config, self.video_height), texts(existing@)),
            forall|k: int| 0 <= k < r.jobs@.len() ==> job_ok(#[trigger] r.jobs@[k], self.path@, self.output_dir@, self.video_framerate_milli),
    {
        let mut variants: Vec<Variant> = Vec::new();
        let mut jobs: Vec<EncodeJob> = Vec::new();
        assert(variant_views(variants@) =~= Seq::<VariantView>::empty());
        assert(job_rungs(jobs@) =~= Seq::<Rung>::empty());
        self.plan_ladder(&self.config.vod.vp9, Codec::Vp9, existing, &mut variants, &mut jobs);
        self.plan_ladder(&self.config.vod.h264, Codec::H264, existing, &mut variants, &mut jobs);
        proof {
            let a = selected(self.config.vod.vp9@, Codec::Vp9, self.video_height);
            let b = selected(self.config.vod.h264@, Codec::H264, self.video_height);
            lemma_unproduced_concat(a, b, texts(existing@));
            assert((a + b).map_values(|r: Rung| rung_variant(r)) =~= a.map_values(|r: Rung| rung_variant(r)) + b.map_values(|r: Rung| rung_variant(r)));
            assert(Seq::<VariantView>::empty() + a.map_values(|r: Rung| rung_variant(r)) =~= a.map_values(|r: Rung| rung_variant(r)));
            assert(Seq::<Rung>::empty() + unproduced(a, texts(existing@)) =~= unproduced(a, texts(existing@)));
        }
        EncodePlan { output_dir: self.output_dir.clone(), variants, jobs }
    }
}

proof fn lemma_selected_fit(list: Seq<(String, EncodingVariant)>, c: Codec, height: usize)
    ensures
        forall|k: int| 0 <= k < selected(list, c, height).len() ==> (#[trigger] selected(list, c, height)[k]).2.height <= height,
    decreases list.len(),
{
    if list.len() > 0 {
        lemma_selected_fit(list.drop_last(), c, height);
    }
}

/// No planned variant is taller than its source: a video is never
/// published with a variant above the source's resolution.
pub proof fn planned_variants_fit_source(config: EncodingConfiguration, height: usize)
    ensures
        forall|k: int| 0 <= k < planned_variants(config, height).len() ==> (#[trigger] planned_variants(config, height)[k]).0 <= height,
{
    let a = selected(config.vod.vp9@, Codec::Vp9, height);
    let b = selected(config.vod.h264@, Codec::H264, height);
    lemma_selected_fit(config.vod.vp9@, Codec::Vp9, height);
    lemma_selected_fit(config.vod.h264@, Codec::H264, height);
    assert forall|k: int| 0 <= k < planned_variants(config, height).len() implies (#[trigger] planned_variants(config, height)[k]).0 <= height by {
        if k < a.len() {
            assert((a + b)[k] == a[k]);
        } else {
            assert((a + b)[k] == b[k - a.len()]);
        }
    }
}

proof fn lemma_unproduced_contains(rungs: Seq<Rung>, existing: Seq<Seq<char>>, x: Rung)
    ensures
        unproduced(rungs, existing).contains(x) <==> rungs.contains(x) && !existing.contains(variant_file(x.0, x.1)),
    decreases rungs.len(),
{
    if rungs.len() > 0 {
        let r = rungs.drop_last();
        lemma_unproduced_contains(r, existing, x);
        let u = unproduced(r, existing);
        if rungs.contains(x) {
            let k = choose|k: int| 0 <= k < rungs.len() && rungs[k] == x;
            if k < rungs.len() - 1 {
                assert(r[k] == x);
            }
        }
        if r.contains(x) {
            let k = choose|k: int| 0 <= k < r.len() && r[k] == x;
            assert(rungs[k] == x);
        }
        if !existing.contains(variant_file(rungs.last().0, rungs.last().1)) {
            if u.contains(x) {
                let k = choose|k: int| 0 <= k < u.len() && u[k] == x;
                assert(u.push(rungs.last())[k] == x);
            }
            if x == rungs.last() {
                assert(u.push(rungs.last())[u.len() as int] == x);
            }
            if u.push(rungs.last()).contains(x) && x != rungs.last() {
                let k = choose|k: int| 0 <= k < u.len() + 1 && u.push(rungs.last())[k] == x;
                assert(u[k] == x);
            }
        }
    }
}

proof fn lemma_unproduced_none(rungs: Seq<Rung>)
    ensures
        unproduced(rungs, Seq::empty()) == rungs,
    decreases rungs.len(),
{
    if rungs.len() > 0 {
        lemma_unproduced_none(rungs.drop_last());
        assert(rungs.drop_last().push(rungs.last()) =~= rungs);
    }
}

/// Resuming a transcoding: with no output yet every planned variant is
/// produced; with some outputs already there, exactly the planned variants
/// whose file is missing are produced. Either way the published variant list
/// is `planned_variants`, which does not depend on what exists.
pub proof fn rerun_skips_produced(config: EncodingConfiguration, height: usize, existing: Seq<Seq<char>>)
    ensures
        unproduced(planned_rungs(config, height), Seq::empty()) == planned_rungs(config, height),
        forall|x: Rung| #[trigger] unproduced(planned_rungs(config, height), existing).contains(x)
            <==> planned_rungs(config, height).contains(x) && !existing.contains(variant_file(x.0, x.1)),
{
    lemma_unproduced_none(planned_rungs(config, height));
    assert forall|x: Rung| #[trigger] unproduced(planned_rungs(config, height), existing).contains(x)
        <==> planned_rungs(config, height).contains(x) && !existing.contains(variant_file(x.0, x.1)) by {
        lemma_unproduced_contains(planned_rungs(config, height), existing, x);
    }
}

} // verus!
