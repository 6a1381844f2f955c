//! The state of a download job and the events it emits as it moves from queued to
//! running to ready or failed.
use vstd::prelude::*;
use crate::records::DownloadMetadata;
use crate::text::opt_text;

verus! {

/// The progress part of a job event.
#[derive(Debug, Clone)]
pub struct JobProgressPayload {
    pub stage: String,
    pub percent: u32,
    pub downloaded: Option<u64>,
    pub total: Option<u64>,
    pub message: Option<String>,
}

/// Everything known about a job.
#[derive(Debug, Clone)]
pub struct JobState {
    pub job_id: String,
    pub status: String,
    pub stage: String,
    pub progress: u32,
    pub logs: Vec<String>,
    pub file_path: Option<String>,
    pub metadata: Option<DownloadMetadata>,
    pub install_url: Option<String>,
    pub error: Option<String>,
}

/// A change of a job's status or progress.
#[derive(Debug, Clone)]
pub struct JobProgressEvent {
    pub status: Option<String>,
    pub progress: Option<JobProgressPayload>,
    pub error: Option<String>,
}

/// A log line of a job.
#[derive(Debug, Clone)]
pub struct JobLogEvent {
    pub line: String,
}

/// The end of a job.
#[derive(Debug, Clone)]
pub struct JobEndEvent {
    pub status: String,
    pub error: Option<String>,
}

/// What a job tells its listeners.
#[derive(Debug, Clone)]
pub enum JobEvent {
    Progress(JobProgressEvent),
    Log(JobLogEvent),
    End(JobEndEvent),
}

/// A progress report of a download: its phase and message, the percentage done (already
/// rounded and clamped to 0..=100) when known, and the byte counts when known.
#[derive(Debug, Clone)]
pub struct ProgressReport {
    pub phase: String,
    pub message: String,
    pub percent: Option<u32>,
    pub file_size: Option<u64>,
    pub downloaded: Option<u64>,
}

/// Whether a status is final: `ready` or `failed`.
pub open spec fn is_terminal(status: Seq<char>) -> bool {
    status == "ready"@ || status == "failed"@
}

/// Whether a payload carries exactly these values.
pub open spec fn payload_is(
    p: JobProgressPayload,
    stage: Seq<char>,
    percent: u32,
    downloaded: Option<u64>,
    total: Option<u64>,
    message: Option<Seq<char>>,
) -> bool {
    p.stage@ == stage && p.percent == percent && p.downloaded == downloaded && p.total == total && opt_text(p.message) == message
}

/// Whether an event carries a payload with exactly these values.
pub open spec fn carries(
    e: JobProgressEvent,
    stage: Seq<char>,
    percent: u32,
    downloaded: Option<u64>,
    total: Option<u64>,
    message: Option<Seq<char>>,
) -> bool {
    match e.progress {
        Some(p) => payload_is(p, stage, percent, downloaded, total, message),
        None => false,
    }
}

/// The event that reports a job's current status, stage and progress.
pub open spec fn snapshot_event_is(e: JobProgressEvent, s: JobState) -> bool {
    &&& opt_text(e.status) == Some(s.status@)
    &&& e.progress matches Some(p) && payload_is(p, s.stage@, s.progress, None, None, None)
    &&& opt_text(e.error) == opt_text(s.error)
}

fn text(t: &str) -> (r: String)
    ensures
        r@ == t@,
{
    t.to_owned()
}

impl JobState {
    /// A queued job with no progress, logs or results.
    pub fn new(job_id: String) -> (s: Self)
        ensures
            s.job_id == job_id,
            s.status@ == "queued"@,
            s.stage@ == "queued"@,
            s.progress == 0,
            s.logs@.len() == 0,
            s.file_path is None,
            s.metadata is None,
            s.install_url is None,
            s.error is None,
    {
        JobState {
            job_id,
            status: text("queued"),
            stage: text("queued"),
            progress: 0,
            logs: Vec::new(),
            file_path: None,
            metadata: None,
            install_url: None,
            error: None,
        }
    }

    /// Adds a log line and returns the event that carries it.
    pub fn append_log(&mut self, line: String) -> (e: JobEvent)
        ensures
            final(self).logs@ == old(self).logs@.push(line),
            e matches JobEvent::Log(l) && l.line == line,
            final(self).status == old(self).status,
            final(self).stage == old(self).stage,
            final(self).progress == old(self).progress,
            final(self).error == old(self).error,
            final(self).file_path == old(self).file_path,
    {
        self.logs.push(line.clone());
        JobEvent::Log(JobLogEvent { line })
    }

    /// Marks the job running and returns the event that reports it.
    pub fn set_running(&mut self) -> (e: JobEvent)
        ensures
            final(self).status@ == "running"@,
            final(self).stage == old(self).stage,
            final(self).progress == old(self).progress,
            final(self).error == old(self).error,
            final(self).file_path == old(self).file_path,
            final(self).logs == old(self).logs,
            e matches JobEvent::Progress(p) && opt_text(p.status) == Some("running"@) && p.error is None
                && carries(p, old(self).stage@, old(self).progress, None, None, None),
    {
        self.status = text("running");
        JobEvent::Progress(JobProgressEvent {
            status: Some(self.status.clone()),
            progress: Some(JobProgressPayload {
                stage: self.stage.clone(),
                percent: self.progress,
                downloaded: None,
                total: None,
                message: None,
            }),
            error: None,
        })
    }

    /// Applies a download's progress report, unless the job is already ready or failed
    /// (then nothing changes and no event is emitted): the job runs, its stage is the
    /// report's phase, and its progress the report's percentage when it has one.
    pub fn update_from_progress(&mut self, report: &ProgressReport) -> (e: Option<JobEvent>)
        ensures
            is_terminal(old(self).status@) ==> e is None && *final(self) == *old(self),
            !is_terminal(old(self).status@) ==> {
                &&& final(self).status@ == "running"@
                &&& final(self).stage@ == report.phase@
                &&& final(self).progress == (match report.percent {
                    Some(p) => p,
                    None => old(self).progress,
                })
                &&& final(self).error == old(self).error
                &&& final(self).file_path == old(self).file_path
                &&& final(self).logs == old(self).logs
                &&& e matches Some(JobEvent::Progress(p)) && p.status is None && p.error is None
                    && carries(
                        p,
                        report.phase@,
                        final(self).progress,
                        report.downloaded,
                        report.file_size,
                        Some(report.message@),
                    )
            },
    {
        let ready = text("ready");
        let failed = text("failed");
        if self.status == ready || self.status == failed {
            return None;
        }
        self.status = text("running");
        self.stage = report.phase.clone();
        match report.percent {
            Some(p) => {
                self.progress = p;
            },
            None => {},
        }
        Some(JobEvent::Progress(JobProgressEvent {
            status: None,
            progress: Some(JobProgressPayload {
                stage: report.phase.clone(),
                percent: self.progress,
                downloaded: report.downloaded,
                total: report.file_size,
                message: Some(report.message.clone()),
            }),
            error: None,
        }))
    }

    /// Marks the job ready with its file and returns the progress and end events.
    pub fn mark_ready(&mut self, file_path: String, metadata: Option<DownloadMetadata>, install_url: Option<String>) -> (events: Vec<JobEvent>)
        ensures
            final(self).status@ == "ready"@,
            final(self).stage@ == "done"@,
            final(self).progress == 100,
            final(self).file_path == Some(file_path),
            final(self).metadata == metadata,
            final(self).install_url == install_url,
            final(self).error is None,
            final(self).logs == old(self).logs,
            events@.len() == 2,
            events@[0] matches JobEvent::Progress(p) && opt_text(p.status) == Some("ready"@) && p.error is None
                && carries(p, "done"@, 100, None, None, Some("任务完成"@)),
            events@[1] matches JobEvent::End(end) && end.status@ == "ready"@ && end.error is None,
    {
        self.status = text("ready");
        self.stage = text("done");
        self.progress = 100;
        self.file_path = Some(file_path);
        self.metadata = metadata;
        self.install_url = install_url;
        self.error = None;
        let mut events: Vec<JobEvent> = Vec::new();
        events.push(JobEvent::Progress(JobProgressEvent {
            status: Some(self.status.clone()),
            progress: Some(JobProgressPayload {
                stage: self.stage.clone(),
                percent: self.progress,
                downloaded: None,
                total: None,
                message: Some(text("任务完成")),
            }),
            error: None,
        }));
        events.push(JobEvent::End(JobEndEvent { status: text("ready"), error: None }));
        events
    }

    /// Marks the job failed with the error and returns the progress and end events.
    pub fn mark_failed(&mut self, error: String) -> (events: Vec<JobEvent>)
        ensures
            final(self).status@ == "failed"@,
            final(self).error == Some(error),
            final(self).stage == old(self).stage,
            final(self).progress == old(self).progress,
            final(self).file_path == old(self).file_path,
            final(self).logs == old(self).logs,
            events@.len() == 2,
            events@[0] matches JobEvent::Progress(p) && opt_text(p.status) == Some("failed"@) && opt_text(p.error) == Some(error@)
                && carries(p, old(self).stage@, old(self).progress, None, None, None),
            events@[1] matches JobEvent::End(end) && end.status@ == "failed"@ && opt_text(end.error) == Some(error@),
    {
        self.status = text("failed");
        self.error = Some(error.clone());
        let mut events: Vec<JobEvent> = Vec::new();
        events.push(JobEvent::Progress(JobProgressEvent {
            status: Some(self.status.clone()),
            progress: Some(JobProgressPayload {
                stage: self.stage.clone(),
                percent: self.progress,
                downloaded: None,
                total: None,
                message: None,
            }),
            error: Some(error.clone()),
        }));
        events.push(JobEvent::End(JobEndEvent { status: text("failed"), error: Some(error) }));
        events
    }
}

fn clone_opt(o: &Option<String>) -> (r: Option<String>)
    ensures
        r == *o,
{
    match o {
        Some(s) => Some(s.clone()),
        None => None,
    }
}

/// The event that reports a job's current status, stage, progress and error.
pub fn snapshot_progress_event(snapshot: &JobState) -> (e: JobProgressEvent)
    ensures
        snapshot_event_is(e, *snapshot),
{
    JobProgressEvent {
        status: Some(snapshot.status.clone()),
        progress: Some(JobProgressPayload {
            stage: snapshot.stage.clone(),
            percent: snapshot.progress,
            downloaded: None,
            total: None,
            message: None,
        }),
        error: clone_opt(&snapshot.error),
    }
}

/// Whether an event is the log line `line`.
pub open spec fn is_log_of(e: JobEvent, line: Seq<char>) -> bool {
    match e {
        JobEvent::Log(l) => l.line@ == line,
        _ => false,
    }
}

/// Whether an event ends a job with this status and error.
pub open spec fn is_end_of(e: JobEvent, status: Seq<char>, error: Option<Seq<char>>) -> bool {
    match e {
        JobEvent::End(x) => x.status@ == status && opt_text(x.error) == error,
        _ => false,
    }
}

/// What a new listener of a job is sent first: one log event per log line, the event of
/// the job's current state (see [`snapshot_event_is`]) and, for a finished job, its end
/// event; the flag says whether the job is finished, so that nothing follows.
pub fn initial_job_events(snapshot: &JobState) -> (r: (Vec<JobEvent>, bool))
    ensures
        r.1 == is_terminal(snapshot.status@),
        r.0@.len() == snapshot.logs@.len() + 1 + (if r.1 { 1int } else { 0int }),
        forall|i: int| 0 <= i < snapshot.logs@.len() ==> is_log_of(#[trigger] r.0@[i], snapshot.logs@[i]@),
        r.0@[snapshot.logs@.len() as int] matches JobEvent::Progress(p) && snapshot_event_is(p, *snapshot),
        r.1 ==> is_end_of(r.0@[snapshot.logs@.len() + 1int], snapshot.status@, opt_text(snapshot.error)),
{
    let mut events: Vec<JobEvent> = Vec::new();
    let mut i: usize = 0;
    while i < snapshot.logs.len()
        invariant
            i <= snapshot.logs@.len(),
            events@.len() == i,
            forall|k: int| 0 <= k < i ==> is_log_of(#[trigger] events@[k], snapshot.logs@[k]@),
        decreases snapshot.logs@.len() - i,
    {
        events.push(JobEvent::Log(JobLogEvent { line: snapshot.logs[i].clone() }));
        i = i + 1;
    }
    events.push(JobEvent::Progress(snapshot_progress_event(snapshot)));
    let finished = crate::apple::same_text(snapshot.status.as_str(), "ready") || crate::apple::same_text(snapshot.status.as_str(), "failed");
    if finished {
        events.push(JobEvent::End(JobEndEvent { status: snapshot.status.clone(), error: clone_opt(&snapshot.error) }));
    }
    (events, finished)
}

/// The event name a job event is streamed under: `progress`, `log` or `end`.
pub open spec fn spec_event_name(e: JobEvent) -> Seq<char> {
    match e {
        JobEvent::Progress(_) => "progress"@,
        JobEvent::Log(_) => "log"@,
        JobEvent::End(_) => "end"@,
    }
}

/// The event name a job event is streamed under (see [`spec_event_name`]).
pub fn job_event_name(e: &JobEvent) -> (r: &'static str)
    ensures
        r@ == spec_event_name(*e),
{
    match e {
        JobEvent::Progress(_) => "progress",
        JobEvent::Log(_) => "log",
        JobEvent::End(_) => "end",
    }
}

/// A server-sent event: `event: <name>`, `data: <payload>` and a blank line.
pub open spec fn spec_sse_frame(name: Seq<char>, payload: Seq<char>) -> Seq<char> {
    "event: "@ + name + "\ndata: "@ + payload + "\n\n"@
}

/// A server-sent event (see [`spec_sse_frame`]).
pub fn sse_frame(name: &str, payload: &str) -> (r: String)
    ensures
        r@ == spec_sse_frame(name@, payload@),
{
    let mut buf: Vec<char> = Vec::new();
    crate::text::push_str(&mut buf, "event: ");
    crate::text::push_str(&mut buf, name);
    crate::text::push_str(&mut buf, "\ndata: ");
    crate::text::push_str(&mut buf, payload);
    crate::text::push_str(&mut buf, "\n\n");
    crate::text::string_from_chars(buf.as_slice())
}

} // verus!
