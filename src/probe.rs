//! Reading the media probe's report on a recording: the probe's JSON output
//! is read into plain fields, and those are checked and turned into media
//! properties.
use vstd::prelude::*;
use vstd::string::*;
use serde_json::Value;
use crate::monitor::NginxMeta;
use crate::text::{find_char, first_index_of, parse_scaled, parse_scaled_spec, parse_u64, parse_u64_in, parse_u64_spec};

verus! {

#[verifier::external_type_specification]
#[verifier::external_body]
pub struct ExValue(serde_json::Value);

#[verifier::external_type_specification]
#[verifier::external_body]
pub struct ExJsonError(serde_json::Error);

/// What a JSON value holds. A number is kept as what it is as a `u64`, if
/// it is one: that is all that is read of numbers here.
pub enum JsonTree {
    Null,
    Bool(bool),
    Number(Option<u64>),
    Text(Seq<char>),
    Array(Seq<JsonTree>),
    Object(Map<Seq<char>, JsonTree>),
}

/// The JSON document that `bytes` hold, if they hold one.
pub uninterp spec fn json_document(bytes: Seq<u8>) -> Option<JsonTree>;

/// What a parsed JSON value holds.
pub uninterp spec fn json_tree(v: Value) -> JsonTree;

/// The member `key` of an object; none for anything else.
pub open spec fn member(t: JsonTree, key: Seq<char>) -> Option<JsonTree> {
    match t {
        JsonTree::Object(m) => if m.contains_key(key) {
            Some(m[key])
        } else {
            None
        },
        _ => None,
    }
}

/// Relies on serde_json::from_slice: parses the bytes as one JSON document,
/// and fails exactly when they are not one.
#[verifier::external_body]
fn json_parse(bytes: &[u8]) -> (r: Result<Value, serde_json::Error>)
    ensures
        match json_document(bytes@) {
            Some(t) => r is Ok && json_tree(r->Ok_0) == t,
            None => r is Err,
        },
{
    serde_json::from_slice::<Value>(bytes)
}

/// Relies on serde_json::Value::get: the member `key` of an object; none
/// when the value is not an object or has no such member.
#[verifier::external_body]
fn json_member<'a>(v: &'a Value, key: &str) -> (r: Option<&'a Value>)
    ensures
        match member(json_tree(*v), key@) {
            Some(t) => r is Some && json_tree(*r.unwrap()) == t,
            None => r is None,
        },
{
    v.get(key)
}

/// Relies on serde_json::Value::as_str: the text of a string value.
#[verifier::external_body]
fn json_str(v: &Value) -> (r: Option<String>)
    ensures
        match json_tree(*v) {
            JsonTree::Text(s) => r is Some && r.unwrap()@ == s,
            _ => r is None,
        },
{
    v.as_str().map(|s| s.to_string())
}

/// Relies on serde_json::Value::as_u64: the value of a number that is a `u64`.
#[verifier::external_body]
fn json_u64(v: &Value) -> (r: Option<u64>)
    ensures
        r == (match json_tree(*v) {
            JsonTree::Number(n) => n,
            _ => None,
        }),
{
    v.as_u64()
}

/// Relies on serde_json::Value::as_array: the elements of an array value.
#[verifier::external_body]
fn json_array(v: &Value) -> (r: Option<&Vec<Value>>)
    ensures
        match json_tree(*v) {
            JsonTree::Array(items) => r is Some && r.unwrap()@.len() == items.len() && (forall|i: int|
                0 <= i < items.len() ==> json_tree(#[trigger] r.unwrap()@[i]) == items[i]),
            _ => r is None,
        },
{
    v.as_array()
}

#[derive(Debug)]
pub enum VideoProbeError {
    FileNotFound,
    /// The probe ran and reported failure.
    CommandFailed,
    /// The probe's report lacks a field, or a field does not read.
    MalformedOutput,
    /// The probe could not be run.
    IO(String),
    /// The probe's output is not JSON.
    JSON(serde_json::Error),
}

/// The fields of one stream entry of the probe's report.
#[derive(Clone, Debug, PartialEq, Eq)]
pub struct ProbeStream {
    pub codec_type: Option<String>,
    pub r_frame_rate: Option<String>,
    pub width: Option<u64>,
    pub height: Option<u64>,
    pub codec_name: Option<String>,
    pub profile: Option<String>,
    pub channels: Option<u64>,
    pub sample_rate: Option<String>,
}

/// The fields of the probe's report that matter here.
#[derive(Clone, Debug, PartialEq, Eq)]
pub struct ProbeReport {
    pub duration: Option<String>,
    pub size: Option<String>,
    /// None when the report has no list of streams.
    pub streams: Option<Vec<ProbeStream>>,
}

/// The text member `key` of an object.
pub open spec fn text_member(t: JsonTree, key: Seq<char>) -> Option<Seq<char>> {
    match member(t, key) {
        Some(JsonTree::Text(s)) => Some(s),
        _ => None,
    }
}

/// The `u64` member `key` of an object.
pub open spec fn u64_member(t: JsonTree, key: Seq<char>) -> Option<u64> {
    match member(t, key) {
        Some(JsonTree::Number(n)) => n,
        _ => None,
    }
}

/// The text member `key` of the document's `format` object.
pub open spec fn format_text(t: JsonTree, key: Seq<char>) -> Option<Seq<char>> {
    match member(t, "format"@) {
        Some(f) => text_member(f, key),
        None => None,
    }
}

pub open spec fn same_text(o: Option<String>, s: Option<Seq<char>>) -> bool {
    match (o, s) {
        (Some(a), Some(b)) => a@ == b,
        (None, None) => true,
        _ => false,
    }
}

/// `ps` holds the fields of the stream entry `t`.
pub open spec fn stream_read(ps: ProbeStream, t: JsonTree) -> bool {
    &&& same_text(ps.codec_type, text_member(t, "codec_type"@))
    &&& same_text(ps.r_frame_rate, text_member(t, "r_frame_rate"@))
    &&& ps.width == u64_member(t, "width"@)
    &&& ps.height == u64_member(t, "height"@)
    &&& same_text(ps.codec_name, text_member(t, "codec_name"@))
    &&& same_text(ps.profile, text_member(t, "profile"@))
    &&& ps.channels == u64_member(t, "channels"@)
    &&& same_text(ps.sample_rate, text_member(t, "sample_rate"@))
}

/// `rep` holds the fields of the probe's document `t`.
pub open spec fn report_read(rep: ProbeReport, t: JsonTree) -> bool {
    &&& same_text(rep.duration, format_text(t, "duration"@))
    &&& same_text(rep.size, format_text(t, "size"@))
    &&& match member(t, "streams"@) {
        Some(JsonTree::Array(items)) => match rep.streams {
            Some(v) => v@.len() == items.len() && forall|i: int|
                0 <= i < items.len() ==> stream_read(#[trigger] v@[i], items[i]),
            None => false,
        },
        _ => rep.streams is None,
    }
}

fn member_str(v: &Value, key: &str) -> (r: Option<String>)
    ensures
        same_text(r, text_member(json_tree(*v), key@)),
{
    match json_member(v, key) {
        Some(m) => json_str(m),
        None => None,
    }
}

fn member_u64(v: &Value, key: &str) -> (r: Option<u64>)
    ensures
        r == u64_member(json_tree(*v), key@),
{
    match json_member(v, key) {
        Some(m) => json_u64(m),
        None => None,
    }
}

/// Reads the probe's JSON output into its plain fields. Only output that is
/// not JSON fails.
pub fn read_report(stdout: &Vec<u8>) -> (r: Result<ProbeReport, VideoProbeError>)
    ensures
        match json_document(stdout@) {
            Some(t) => r is Ok && report_read(r->Ok_0, t),
            None => r matches Err(VideoProbeError::JSON(_)),
        },
{
    let doc = match json_parse(stdout.as_slice()) {
        Ok(v) => v,
        Err(e) => return Err(VideoProbeError::JSON(e)),
    };
    let ghost t = json_tree(doc);
    let (duration, size) = match json_member(&doc, "format") {
        Some(f) => (member_str(f, "duration"), member_str(f, "size")),
        None => (None, None),
    };
    let list = match json_member(&doc, "streams") {
        Some(s) => json_array(s),
        None => None,
    };
    let streams = match list {
        None => None,
        Some(items) => {
            let mut out: Vec<ProbeStream> = Vec::new();
            let mut i: usize = 0;
            while i < items.len()
                invariant
                    i <= items@.len(),
                    out@.len() == i,
                    forall|k: int| 0 <= k < i ==> stream_read(#[trigger] out@[k], json_tree(items@[k])),
                decreases items.len() - i,
            {
                let s = &items[i];
                out.push(
                    ProbeStream {
                        codec_type: member_str(s, "codec_type"),
                        r_frame_rate: member_str(s, "r_frame_rate"),
                        width: member_u64(s, "width"),
                        height: member_u64(s, "height"),
                        codec_name: member_str(s, "codec_name"),
                        profile: member_str(s, "profile"),
                        channels: member_u64(s, "channels"),
                        sample_rate: member_str(s, "sample_rate"),
                    },
                );
                i = i + 1;
            }
            Some(out)
        },
    };
    let rep = ProbeReport { duration, size, streams };
    assert(report_read(rep, t));
    Ok(rep)
}

/// A frame rate written `num/den`, in thousandths of a frame per second,
/// rounded down. Both parts are `u32`; a zero denominator does not read.
pub open spec fn frame_rate_spec(s: Seq<char>) -> Option<u64> {
    let k = first_index_of(s, '/');
    if k >= s.len() {
        None
    } else {
        match (parse_u64_spec(s.subrange(0, k)), parse_u64_spec(s.subrange(k + 1, s.len() as int))) {
            (Some(a), Some(b)) => if a <= u32::MAX && b <= u32::MAX && b > 0 {
                Some(((a as int) * 1000 / (b as int)) as u64)
            } else {
                None
            },
            _ => None,
        }
    }
}

pub fn frame_rate(s: &str) -> (r: Option<u64>)
    ensures
        r == frame_rate_spec(s@),
{
    let n = s.unicode_len();
    let k = find_char(s, '/');
    if k >= n {
        return None;
    }
    let a = parse_u64_in(s, 0, k);
    let b = parse_u64_in(s, k + 1, n);
    match (a, b) {
        (Some(a), Some(b)) => {
            if a <= 4294967295 && b <= 4294967295 && b > 0 {
                Some(a * 1000 / b)
            } else {
                None
            }
        },
        _ => None,
    }
}

pub open spec fn text_is(o: Option<String>, lit: Seq<char>) -> bool {
    match o {
        Some(t) => t@ == lit,
        None => false,
    }
}

/// The media entry of one stream: `Some(None)` for a stream that is neither
/// video nor audio, `None` when a field it needs is missing or does not read.
pub open spec fn stream_meta(s: ProbeStream) -> Option<Option<NginxMeta>> {
    if text_is(s.codec_type, "video"@) {
        match (s.r_frame_rate, s.width, s.height, s.codec_name, s.profile) {
            (Some(fr), Some(w), Some(h), Some(codec), Some(profile)) => match frame_rate_spec(fr@) {
                Some(f) => if w <= usize::MAX && h <= usize::MAX {
                    Some(Some(NginxMeta::Video { width: w as usize, height: h as usize, frame_rate_milli: f, codec, profile }))
                } else {
                    None
                },
                None => None,
            },
            _ => None,
        }
    } else if text_is(s.codec_type, "audio"@) {
        match (s.channels, s.sample_rate, s.codec_name, s.profile) {
            (Some(ch), Some(sr), Some(codec), Some(profile)) => match parse_u64_spec(sr@) {
                Some(rate) => if ch <= usize::MAX && rate <= usize::MAX {
                    Some(Some(NginxMeta::Audio { codec, profile, channels: ch as usize, sample_rate: rate as usize }))
                } else {
                    None
                },
                None => None,
            },
            _ => None,
        }
    } else {
        Some(None)
    }
}

/// The media entries of the streams, in order, or None if one does not read.
pub open spec fn stream_metas(ss: Seq<ProbeStream>) -> Option<Seq<NginxMeta>>
    decreases ss.len(),
{
    if ss.len() == 0 {
        Some(Seq::empty())
    } else {
        match (stream_metas(ss.drop_last()), stream_meta(ss.last())) {
            (Some(m), Some(Some(x))) => Some(m.push(x)),
            (Some(m), Some(None)) => Some(m),
            _ => None,
        }
    }
}

/// The format entry: duration (in milliseconds, from seconds in decimal) and size.
pub open spec fn format_meta(r: ProbeReport) -> Option<NginxMeta> {
    match (r.duration, r.size) {
        (Some(d), Some(s)) => match (parse_scaled_spec(d@, 3), parse_u64_spec(s@)) {
            (Some(ms), Some(size)) => if size <= usize::MAX {
                Some(NginxMeta::Format { duration_ms: ms, size: size as usize })
            } else {
                None
            },
            _ => None,
        },
        _ => None,
    }
}

/// The media entries of a report: those of its streams, then its format.
pub open spec fn report_metas(r: ProbeReport) -> Option<Seq<NginxMeta>> {
    match (format_meta(r), r.streams) {
        (Some(f), Some(ss)) => match stream_metas(ss@) {
            Some(m) => Some(m.push(f)),
            None => None,
        },
        _ => None,
    }
}

fn is_text(o: &Option<String>, lit: &str) -> (r: bool)
    ensures
        r == text_is(*o, lit@),
{
    match o {
        Some(t) => *t == String::from_str(lit),
        None => false,
    }
}

fn read_stream(s: &ProbeStream) -> (r: Option<Option<NginxMeta>>)
    ensures
        r == stream_meta(*s),
{
    if is_text(&s.codec_type, "video") {
        match (&s.r_frame_rate, s.width, s.height, &s.codec_name, &s.profile) {
            (Some(fr), Some(w), Some(h), Some(codec), Some(profile)) => match frame_rate(fr.as_str()) {
                Some(f) => if w <= usize::MAX as u64 && h <= usize::MAX as u64 {
                    Some(Some(NginxMeta::Video { width: w as usize, height: h as usize, frame_rate_milli: f, codec: codec.clone(), profile: profile.clone() }))
                } else {
                    None
                },
                None => None,
            },
            _ => None,
        }
    } else if is_text(&s.codec_type, "audio") {
        match (s.channels, &s.sample_rate, &s.codec_name, &s.profile) {
            (Some(ch), Some(sr), Some(codec), Some(profile)) => match parse_u64(sr.as_str()) {
                Some(rate) => if ch <= usize::MAX as u64 && rate <= usize::MAX as u64 {
                    Some(Some(NginxMeta::Audio { codec: codec.clone(), profile: profile.clone(), channels: ch as usize, sample_rate: rate as usize }))
                } else {
                    None
                },
                None => None,
            },
            _ => None,
        }
    } else {
        Some(None)
    }
}

/// Checks the report and turns it into media entries: one for each video or
/// audio stream, in order, then the format.
pub fn interpret(report: &ProbeReport) -> (r: Result<Vec<NginxMeta>, VideoProbeError>)
    ensures
        match report_metas(*report) {
            Some(m) => r is Ok && r->Ok_0@ == m,
            None => r matches Err(VideoProbeError::MalformedOutput),
        },
{
    let format = match (&report.duration, &report.size) {
        (Some(d), Some(s)) => match (parse_scaled(d.as_str(), 3), parse_u64(s.as_str())) {
            (Some(ms), Some(size)) => if size <= usize::MAX as u64 {
                NginxMeta::Format { duration_ms: ms, size: size as usize }
            } else {
                return Err(VideoProbeError::MalformedOutput);
            },
            _ => return Err(VideoProbeError::MalformedOutput),
        },
        _ => return Err(VideoProbeError::MalformedOutput),
    };
    assert(format_meta(*report) == Some(format));
    let streams = match &report.streams {
        Some(ss) => ss,
        None => return Err(VideoProbeError::MalformedOutput),
    };
    let mut metas: Vec<NginxMeta> = Vec::new();
    let mut i: usize = 0;
    while i < streams.len()
        invariant
            i <= streams@.len(),
            report.streams == Some(*streams),
            stream_metas(streams@.subrange(0, i as int)) == Some(metas@),
        decreases streams.len() - i,
    {
        assert(streams@.subrange(0, i + 1).drop_last() =~= streams@.subrange(0, i as int));
        assert(streams@.subrange(0, i + 1).last() == streams@[i as int]);
        match read_stream(&streams[i]) {
            Some(Some(m)) => metas.push(m),
            Some(None) => {},
            None => {
                proof {
                    lemma_metas_fail(streams@, i as int + 1);
                }
                return Err(VideoProbeError::MalformedOutput);
            },
        }
        i = i + 1;
    }
    assert(streams@.subrange(0, i as int) =~= streams@);
    metas.push(format);
    Ok(metas)
}

/// Once a prefix fails to read, so does every longer one.
proof fn lemma_metas_fail(ss: Seq<ProbeStream>, j: int)
    requires
        0 < j <= ss.len(),
        stream_metas(ss.subrange(0, j)) is None,
    ensures
        stream_metas(ss) is None,
    decreases ss.len() - j,
{
    if j < ss.len() {
        assert(ss.subrange(0, j + 1).drop_last() =~= ss.subrange(0, j));
        lemma_metas_fail(ss, j + 1);
    } else {
        assert(ss.subrange(0, j) =~= ss);
    }
}

/// What reading `rep` gives: its media entries, or a malformed-output error.
pub open spec fn probe_outcome(rep: ProbeReport, r: Result<Vec<NginxMeta>, VideoProbeError>) -> bool {
    match report_metas(rep) {
        Some(m) => r is Ok && r->Ok_0@ == m,
        None => r matches Err(VideoProbeError::MalformedOutput),
    }
}

/// The probe of one recording.
#[derive(Debug)]
pub struct VideoProbe {
    pub file: String,
}

impl VideoProbe {
    /// A probe of `file`; `exists` says whether the file is there.
    pub fn new(file: &str, exists: bool) -> (r: Result<Self, VideoProbeError>)
        ensures
            exists ==> (r matches Ok(p) && p.file@ == file@),
            !exists ==> (r matches Err(VideoProbeError::FileNotFound)),
    {
        if !exists {
            return Err(VideoProbeError::FileNotFound);
        }
        Ok(VideoProbe { file: String::from_str(file) })
    }

    /// The media entries of the recording, from what the probe process
    /// reported: whether it succeeded, and its output.
    pub fn probe(&self, succeeded: bool, stdout: &Vec<u8>) -> (r: Result<Vec<NginxMeta>, VideoProbeError>)
        ensures
            !succeeded ==> (r matches Err(VideoProbeError::CommandFailed)),
            succeeded ==> match json_document(stdout@) {
                None => r matches Err(VideoProbeError::JSON(_)),
                Some(t) => exists|rep: ProbeReport| report_read(rep, t) && #[trigger] probe_outcome(rep, r),
            },
    {
        if !succeeded {
            return Err(VideoProbeError::CommandFailed);
        }
        let report = match read_report(stdout) {
            Ok(rep) => rep,
            Err(e) => return Err(e),
        };
        let r = interpret(&report);
        assert(probe_outcome(report, r));
        r
    }
}

} // verus!
