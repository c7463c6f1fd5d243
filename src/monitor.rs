//! Ingest telemetry: the statistics the ingest server reports, lookups into
//! them, and a cache that avoids polling more than once per window.
use vstd::prelude::*;

verus! {

/// The statistics document of the ingest server.
#[derive(Clone, Debug)]
pub struct NginxStat {
    pub nginx_version: String,
    pub nginx_rtmp_version: String,
    pub uptime: usize,
    pub server: NginxApplicationsVec,
}

#[derive(Clone, Debug)]
pub struct NginxApplicationsVec {
    pub applications: Vec<NginxApplication>,
}

#[derive(Clone, Debug)]
pub struct NginxApplication {
    pub name: String,
    pub live: NginxStreamsVec,
}

#[derive(Clone, Debug)]
pub struct NginxStreamsVec {
    pub streams: Option<Vec<NginxStream>>,
}

/// One stream being received. `bw_in` is its inbound bandwidth.
#[derive(Clone, Debug)]
pub struct NginxStream {
    pub name: String,
    pub time: usize,
    pub bw_in: usize,
    pub bytes_in: usize,
    pub bw_out: usize,
    pub bytes_out: usize,
    pub client: Vec<NginxClient>,
    pub meta: Option<NginxMetasVec>,
}

#[derive(Clone, Debug)]
pub struct NginxClient {
    pub id: usize,
    pub address: String,
    pub flashver: String,
    pub dropped: usize,
    pub timestamp: usize,
}

#[derive(Clone, Debug)]
pub struct NginxMetasVec {
    pub metas: Vec<NginxMeta>,
}

/// Media properties of a stream or a file. A frame rate is in thousandths of
/// a frame per second; a duration in milliseconds.
#[derive(Clone, Debug, PartialEq, Eq)]
pub enum NginxMeta {
    Video { width: usize, height: usize, frame_rate_milli: u64, codec: String, profile: String },
    Audio { codec: String, profile: String, channels: usize, sample_rate: usize },
    Format { duration_ms: u64, size: usize },
}

/// The first application named `name`.
pub open spec fn find_application(apps: Seq<NginxApplication>, name: Seq<char>) -> Option<
    NginxApplication,
>
    decreases apps.len(),
{
    if apps.len() == 0 {
        None
    } else if apps[0].name@ == name {
        Some(apps[0])
    } else {
        find_application(apps.drop_first(), name)
    }
}

/// The first stream named `name`.
pub open spec fn find_stream(streams: Seq<NginxStream>, name: Seq<char>) -> Option<NginxStream>
    decreases streams.len(),
{
    if streams.len() == 0 {
        None
    } else if streams[0].name@ == name {
        Some(streams[0])
    } else {
        find_stream(streams.drop_first(), name)
    }
}

/// The live stream named `name` in `app`.
pub open spec fn stream_of(app: NginxApplication, name: Seq<char>) -> Option<NginxStream> {
    match app.live.streams {
        Some(streams) => find_stream(streams@, name),
        None => None,
    }
}

impl NginxStat {
    pub fn get_application(&self, name: &str) -> (r: Option<&NginxApplication>)
        ensures
            match find_application(self.server.applications@, name@) {
                Some(a) => r is Some && *r.unwrap() == a,
                None => r is None,
            },
    {
        let apps = &self.server.applications;
        let key = String::from_str(name);
        assert(apps@.subrange(0, apps@.len() as int) =~= apps@);
        let mut i: usize = 0;
        while i < apps.len()
            invariant
                i <= apps@.len(),
                apps == &self.server.applications,
                key@ == name@,
                find_application(apps@, name@) == find_application(apps@.subrange(i as int, apps@.len() as int), name@),
            decreases apps.len() - i,
        {
            let ghost rest = apps@.subrange(i as int, apps@.len() as int);
            assert(rest.drop_first() =~= apps@.subrange(i + 1, apps@.len() as int));
            assert(rest[0] == apps@[i as int]);
            if apps[i].name == key {
                assert(find_application(rest, name@) == Some(apps@[i as int]));
                let found = &apps[i];
                assert(*found == apps@[i as int]);
                return Some(found);
            }
            i = i + 1;
        }
        None
    }
}

impl NginxApplication {
    pub fn get_stream(&self, name: &str) -> (r: Option<&NginxStream>)
        ensures
            match stream_of(*self, name@) {
                Some(s) => r is Some && *r.unwrap() == s,
                None => r is None,
            },
    {
        match &self.live.streams {
            None => None,
            Some(streams) => {
                let key = String::from_str(name);
                assert(streams@.subrange(0, streams@.len() as int) =~= streams@);
                let mut i: usize = 0;
                while i < streams.len()
                    invariant
                        i <= streams@.len(),
                        self.live.streams == Some(*streams),
                        key@ == name@,
                        find_stream(streams@, name@) == find_stream(streams@.subrange(i as int, streams@.len() as int), name@),
                    decreases streams.len() - i,
                {
                    let ghost rest = streams@.subrange(i as int, streams@.len() as int);
                    assert(rest.drop_first() =~= streams@.subrange(i + 1, streams@.len() as int));
                    assert(rest[0] == streams@[i as int]);
                    if streams[i].name == key {
                        assert(find_stream(rest, name@) == Some(streams@[i as int]));
                        let found = &streams[i];
                        assert(*found == streams@[i as int]);
                        return Some(found);
                    }
                    i = i + 1;
                }
                None
            },
        }
    }
}

/// Polls of the ingest server's statistics, with the last answer kept.
/// Times are whole seconds.
pub struct NginxMonitor {
    pub endpoint: String,
    /// The last answer and when it was obtained.
    pub last_result: Option<(u64, NginxStat)>,
}

/// An answer recorded at `at` is fresh at `now` while it is no older than `max_age`.
pub open spec fn is_fresh(at: u64, now: u64, max_age: u64) -> bool {
    at <= now && now - at <= max_age
}

impl NginxMonitor {
    pub fn new(endpoint: &str) -> (r: Self)
        ensures
            r.endpoint@ == endpoint@,
            r.last_result is None,
    {
        NginxMonitor { endpoint: String::from_str(endpoint), last_result: None }
    }

    /// The kept answer when it is fresh at `now`; otherwise nothing, and the
    /// caller polls the server and records what it got.
    pub fn get_newer_than(&self, now: u64, max_age: u64) -> (r: Option<&NginxStat>)
        ensures
            match self.last_result {
                Some((at, stat)) => if is_fresh(at, now, max_age) {
                    r is Some && *r.unwrap() == stat
                } else {
                    r is None
                },
                None => r is None,
            },
    {
        match &self.last_result {
            Some((at, stat)) => {
                if *at <= now && now - *at <= max_age {
                    Some(stat)
                } else {
                    None
                }
            },
            None => None,
        }
    }

    /// Keeps `stat` as the answer obtained at `now`.
    pub fn record(&mut self, now: u64, stat: NginxStat)
        ensures
            final(self).endpoint == old(self).endpoint,
            final(self).last_result == Some((now, stat)),
    {
        self.last_result = Some((now, stat));
    }
}

} // verus!
