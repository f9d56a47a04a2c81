//! The supervision of the native autopilot process, and which of its traffic is counted.

use crate::catalog::{
    find_topic_by_encoding, find_topic_by_key, find_topic_by_name, topic_id_by_encoding,
    topic_id_by_key, topic_id_by_name,
};
use crate::session::{session_settings, setting_views, settings_of, SessionSetting};
use crate::text::{
    contains, ends_with, finishes_with, has_part, is_blank, joined, text_bytes, trim, trimmed,
    views,
};
use vstd::prelude::*;

verus! {

/// The topics that the autopilot publishes.
pub const AUTOPILOT_OUTPUT_TOPICS: [&'static str; 9] = [
    "pwm",
    "health",
    "att",
    "att_sp",
    "loop",
    "mission",
    "pos_sp",
    "traj",
    "nav",
];

/// How the autopilot stands.
#[derive(Debug, Clone)]
pub struct AutopilotRunStatus {
    pub running: bool,
    pub pid: Option<u32>,
    pub started_at_ms: Option<u128>,
    pub message: String,
    pub binary: String,
    pub log_path: String,
    /// Frames seen from the autopilot since it was started.
    pub frames_out: u64,
    /// Frames seen on their way to the autopilot since it was started.
    pub frames_in: u64,
    pub last_exit_at_ms: Option<u128>,
    pub last_exit_code: Option<i32>,
    pub last_exit_signal: Option<i32>,
    pub last_pid: Option<u32>,
    pub stop_requested: bool,
}

/// The frames seen since the autopilot was started.
#[derive(Debug, Clone, Copy, PartialEq, Eq, Structural)]
pub struct FrameCounts {
    pub outgoing: u64,
    pub incoming: u64,
}

/// An autopilot process.
#[derive(Debug)]
pub struct LinkChild {
    pub pid: u32,
    pub started_at_ms: u128,
    pub binary: String,
    pub log_path: String,
}

/// How a process ended.
#[derive(Debug)]
pub struct ProcessExit {
    pub description: String,
    pub code: Option<i32>,
    pub signal: Option<i32>,
}

/// Something that is written into the record of the autopilot's life.
#[derive(Debug)]
pub struct LifecycleEvent {
    pub log_path: String,
    pub event: String,
    pub status: AutopilotRunStatus,
}

/// The supervisor of the autopilot process.
#[derive(Debug)]
pub struct AutopilotLink {
    pub child: Option<LinkChild>,
    pub last_status: Option<AutopilotRunStatus>,
}

/// A topic whose samples are counted.
#[derive(Debug, Clone, PartialEq, Eq)]
pub struct MonitoredTopic {
    pub key: String,
    /// The catalog topic whose contract samples must satisfy; none for keys outside the catalog.
    pub contract: Option<u16>,
}

/// How the autopilot stands.
pub ghost struct RunStatus {
    pub running: bool,
    pub pid: Option<u32>,
    pub started_at_ms: Option<u128>,
    pub message: Seq<char>,
    pub binary: Seq<char>,
    pub log_path: Seq<char>,
    pub frames_out: u64,
    pub frames_in: u64,
    pub last_exit_at_ms: Option<u128>,
    pub last_exit_code: Option<i32>,
    pub last_exit_signal: Option<i32>,
    pub last_pid: Option<u32>,
    pub stop_requested: bool,
}

impl View for AutopilotRunStatus {
    type V = RunStatus;

    open spec fn view(&self) -> RunStatus {
        RunStatus {
            running: self.running,
            pid: self.pid,
            started_at_ms: self.started_at_ms,
            message: self.message@,
            binary: self.binary@,
            log_path: self.log_path@,
            frames_out: self.frames_out,
            frames_in: self.frames_in,
            last_exit_at_ms: self.last_exit_at_ms,
            last_exit_code: self.last_exit_code,
            last_exit_signal: self.last_exit_signal,
            last_pid: self.last_pid,
            stop_requested: self.stop_requested,
        }
    }
}

/// The status of an autopilot that was never started.
pub open spec fn idle_status() -> RunStatus {
    RunStatus {
        running: false,
        pid: None,
        started_at_ms: None,
        message: "autopilot stopped"@,
        binary: Seq::empty(),
        log_path: Seq::empty(),
        frames_out: 0,
        frames_in: 0,
        last_exit_at_ms: None,
        last_exit_code: None,
        last_exit_signal: None,
        last_pid: None,
        stop_requested: false,
    }
}

/// The status of a running autopilot.
pub open spec fn running_status(
    child: LinkChild,
    message: Seq<char>,
    frames: FrameCounts,
) -> RunStatus {
    RunStatus {
        running: true,
        pid: Some(child.pid),
        started_at_ms: Some(child.started_at_ms),
        message,
        binary: child.binary@,
        log_path: child.log_path@,
        frames_out: frames.outgoing,
        frames_in: frames.incoming,
        ..idle_status()
    }
}

/// The status of an autopilot that has ended.
pub open spec fn ended_status(
    child: LinkChild,
    message: Seq<char>,
    frames: FrameCounts,
    now_ms: u128,
    code: Option<i32>,
    signal: Option<i32>,
    stop_requested: bool,
) -> RunStatus {
    RunStatus {
        message,
        binary: child.binary@,
        log_path: child.log_path@,
        frames_out: frames.outgoing,
        frames_in: frames.incoming,
        last_exit_at_ms: Some(now_ms),
        last_exit_code: code,
        last_exit_signal: signal,
        last_pid: Some(child.pid),
        stop_requested,
        ..idle_status()
    }
}

/// What is known of an autopilot that does not run.
pub open spec fn remembered(last_status: Option<AutopilotRunStatus>) -> RunStatus {
    match last_status {
        Some(status) => status@,
        None => idle_status(),
    }
}

/// The event records that status in the child's log.
pub open spec fn records(
    event: Option<LifecycleEvent>,
    child: LinkChild,
    name: Seq<char>,
    status: RunStatus,
) -> bool {
    &&& event is Some
    &&& event->0.log_path@ == child.log_path@
    &&& event->0.event@ == name
    &&& event->0.status@ == status
}

fn copy_status(status: &AutopilotRunStatus) -> (copy: AutopilotRunStatus)
    ensures
        copy@ == status@,
{
    AutopilotRunStatus {
        running: status.running,
        pid: status.pid,
        started_at_ms: status.started_at_ms,
        message: status.message.clone(),
        binary: status.binary.clone(),
        log_path: status.log_path.clone(),
        frames_out: status.frames_out,
        frames_in: status.frames_in,
        last_exit_at_ms: status.last_exit_at_ms,
        last_exit_code: status.last_exit_code,
        last_exit_signal: status.last_exit_signal,
        last_pid: status.last_pid,
        stop_requested: status.stop_requested,
    }
}

fn running(child: &LinkChild, message: String, frames: FrameCounts) -> (status: AutopilotRunStatus)
    ensures
        status@ == running_status(*child, message@, frames),
{
    AutopilotRunStatus {
        running: true,
        pid: Some(child.pid),
        started_at_ms: Some(child.started_at_ms),
        message,
        binary: child.binary.clone(),
        log_path: child.log_path.clone(),
        frames_out: frames.outgoing,
        frames_in: frames.incoming,
        last_exit_at_ms: None,
        last_exit_code: None,
        last_exit_signal: None,
        last_pid: None,
        stop_requested: false,
    }
}

fn ended(
    child: &LinkChild,
    message: String,
    frames: FrameCounts,
    now_ms: u128,
    code: Option<i32>,
    signal: Option<i32>,
    stop_requested: bool,
) -> (status: AutopilotRunStatus)
    ensures
        status@ == ended_status(*child, message@, frames, now_ms, code, signal, stop_requested),
{
    AutopilotRunStatus {
        running: false,
        pid: None,
        started_at_ms: None,
        message,
        binary: child.binary.clone(),
        log_path: child.log_path.clone(),
        frames_out: frames.outgoing,
        frames_in: frames.incoming,
        last_exit_at_ms: Some(now_ms),
        last_exit_code: code,
        last_exit_signal: signal,
        last_pid: Some(child.pid),
        stop_requested,
    }
}

fn lifecycle(child: &LinkChild, event: &str, status: &AutopilotRunStatus) -> (record:
    LifecycleEvent)
    ensures
        records(Some(record), *child, event@, status@),
{
    LifecycleEvent {
        log_path: child.log_path.clone(),
        event: event.to_owned(),
        status: copy_status(status),
    }
}

impl AutopilotLink {
    /// A supervisor without a process.
    pub fn new() -> (link: Self)
        ensures
            link.child is None,
            link.last_status is None,
    {
        AutopilotLink { child: None, last_status: None }
    }

    fn remembered_status(&self) -> (status: AutopilotRunStatus)
        ensures
            status@ == remembered(self.last_status),
    {
        match &self.last_status {
            Some(status) => copy_status(status),
            None => {
                let empty = String::new();
                assert(empty@ =~= Seq::empty());
                AutopilotRunStatus {
                    running: false,
                    pid: None,
                    started_at_ms: None,
                    message: "autopilot stopped".to_owned(),
                    binary: empty.clone(),
                    log_path: empty,
                    frames_out: 0,
                    frames_in: 0,
                    last_exit_at_ms: None,
                    last_exit_code: None,
                    last_exit_signal: None,
                    last_pid: None,
                    stop_requested: false,
                }
            },
        }
    }

    /// How the autopilot stands. `exit` says how the process ended, if it has; the end of a process
    /// that nobody stopped is recorded, and the process let go.
    pub fn status(
        &mut self,
        exit: Option<ProcessExit>,
        frames: FrameCounts,
        now_ms: u128,
    ) -> (result: (AutopilotRunStatus, Option<LifecycleEvent>))
        ensures
            match (old(self).child, exit) {
                (Some(child), Some(exit)) => {
                    let stopped = ended_status(
                        child,
                        "autopilot exited with "@ + exit.description@,
                        frames,
                        now_ms,
                        exit.code,
                        exit.signal,
                        false,
                    );
                    &&& result.0@ == stopped
                    &&& records(result.1, child, "unexpected_exit"@, stopped)
                    &&& final(self).child is None
                    &&& remembered(final(self).last_status) == stopped
                },
                (Some(child), None) => {
                    &&& result.0@ == running_status(child, "autopilot running"@, frames)
                    &&& result.1 is None
                    &&& *final(self) == *old(self)
                },
                (None, _) => {
                    &&& result.0@ == remembered(old(self).last_status)
                    &&& result.1 is None
                    &&& *final(self) == *old(self)
                },
            },
    {
        match &self.child {
            Some(child) => match exit {
                Some(exit) => {
                    let stopped = ended(
                        child,
                        joined("autopilot exited with ", exit.description.as_str()),
                        frames,
                        now_ms,
                        exit.code,
                        exit.signal,
                        false,
                    );
                    let record = lifecycle(child, "unexpected_exit", &stopped);
                    self.child = None;
                    self.last_status = Some(copy_status(&stopped));
                    (stopped, Some(record))
                },
                None => (running(child, "autopilot running".to_owned(), frames), None),
            },
            None => (self.remembered_status(), None),
        }
    }

    /// Stops the autopilot, if it runs, and says why.
    pub fn stop_with_reason(
        &mut self,
        event: &str,
        message: &str,
        frames: FrameCounts,
        now_ms: u128,
    ) -> (result: (AutopilotRunStatus, Option<LifecycleEvent>))
        ensures
            final(self).child is None,
            match old(self).child {
                Some(child) => {
                    let stopped = ended_status(child, message@, frames, now_ms, None, None, true);
                    &&& result.0@ == stopped
                    &&& records(result.1, child, event@, stopped)
                    &&& remembered(final(self).last_status) == stopped
                },
                None => {
                    &&& result.0@ == remembered(old(self).last_status)
                    &&& result.1 is None
                    &&& final(self).last_status == old(self).last_status
                },
            },
    {
        match &self.child {
            Some(child) => {
                let stopped = ended(
                    child,
                    message.to_owned(),
                    frames,
                    now_ms,
                    None,
                    None,
                    true,
                );
                let record = lifecycle(child, event, &stopped);
                self.child = None;
                self.last_status = Some(copy_status(&stopped));
                (stopped, Some(record))
            },
            None => (self.remembered_status(), None),
        }
    }

    /// Stops the autopilot because the operator asked for it.
    pub fn stop(&mut self, frames: FrameCounts, now_ms: u128) -> (result: (
        AutopilotRunStatus,
        Option<LifecycleEvent>,
    ))
        ensures
            final(self).child is None,
            match old(self).child {
                Some(child) => {
                    let stopped = ended_status(
                        child,
                        "autopilot stopped by operator request"@,
                        frames,
                        now_ms,
                        None,
                        None,
                        true,
                    );
                    &&& result.0@ == stopped
                    &&& records(result.1, child, "requested_stop"@, stopped)
                    &&& remembered(final(self).last_status) == stopped
                },
                None => {
                    &&& result.0@ == remembered(old(self).last_status)
                    &&& result.1 is None
                    &&& final(self).last_status == old(self).last_status
                },
            },
    {
        self.stop_with_reason(
            "requested_stop",
            "autopilot stopped by operator request",
            frames,
            now_ms,
        )
    }

    /// Stops the autopilot together with the ground station.
    pub fn stop_for_shutdown(&mut self, frames: FrameCounts, now_ms: u128) -> (result: (
        AutopilotRunStatus,
        Option<LifecycleEvent>,
    ))
        ensures
            final(self).child is None,
            match old(self).child {
                Some(child) => {
                    let stopped = ended_status(
                        child,
                        "autopilot stopped with ground station"@,
                        frames,
                        now_ms,
                        None,
                        None,
                        true,
                    );
                    &&& result.0@ == stopped
                    &&& records(result.1, child, "ground_station_shutdown"@, stopped)
                    &&& remembered(final(self).last_status) == stopped
                },
                None => {
                    &&& result.0@ == remembered(old(self).last_status)
                    &&& result.1 is None
                    &&& final(self).last_status == old(self).last_status
                },
            },
    {
        self.stop_with_reason(
            "ground_station_shutdown",
            "autopilot stopped with ground station",
            frames,
            now_ms,
        )
    }

    /// Stops an autopilot that is about to be started again, and forgets how it stood.
    pub fn prepare_start(&mut self, frames: FrameCounts, now_ms: u128) -> (record: Option<
        LifecycleEvent,
    >)
        ensures
            final(self).child is None,
            final(self).last_status is None,
            match old(self).child {
                Some(child) => records(
                    record,
                    child,
                    "restart"@,
                    ended_status(
                        child,
                        "autopilot stopped for restart"@,
                        frames,
                        now_ms,
                        None,
                        None,
                        true,
                    ),
                ),
                None => record is None,
            },
    {
        let (_, record) = self.stop_with_reason(
            "restart",
            "autopilot stopped for restart",
            frames,
            now_ms,
        );
        self.last_status = None;
        record
    }

    /// Takes charge of a process that was just started.
    pub fn started(&mut self, child: LinkChild) -> (record: LifecycleEvent)
        ensures
            final(self).child == Some(child),
            final(self).last_status == old(self).last_status,
            records(
                Some(record),
                child,
                "start"@,
                running_status(
                    child,
                    "autopilot started"@,
                    FrameCounts { outgoing: 0, incoming: 0 },
                ),
            ),
    {
        let status = running(
            &child,
            "autopilot started".to_owned(),
            FrameCounts { outgoing: 0, incoming: 0 },
        );
        let record = lifecycle(&child, "start", &status);
        self.child = Some(child);
        record
    }
}

/// The time that a killed process has to end.
pub const STOP_TIMEOUT_MS: u64 = 2000;

/// The time between two looks at a process that is to end.
pub const STOP_POLL_MS: u64 = 20;

/// What to do about a process that is to end.
#[derive(Debug, Clone, Copy, PartialEq, Eq, Structural)]
pub enum WaitStep {
    /// It has ended.
    Done,
    /// Look again after so many milliseconds.
    Sleep(u64),
    /// It did not end in time.
    GiveUp,
}

/// What to do about a killed process, `waited_ms` after it was killed.
pub fn wait_step(exited: bool, waited_ms: u64) -> (step: WaitStep)
    ensures
        step is Done <==> exited,
        step is GiveUp <==> !exited && waited_ms >= STOP_TIMEOUT_MS,
        step is Sleep ==> step == WaitStep::Sleep(STOP_POLL_MS),
{
    if exited {
        WaitStep::Done
    } else if waited_ms < STOP_TIMEOUT_MS {
        WaitStep::Sleep(STOP_POLL_MS)
    } else {
        WaitStep::GiveUp
    }
}

/// Why the configured binary cannot be started, or its path. `exists` says whether there is a file
/// at the path, without the white space around it.
pub open spec fn binary_outcome(configured: Seq<char>, exists: bool) -> Result<
    Seq<char>,
    Seq<char>,
> {
    if is_blank(configured) {
        Err("autopilot native binary is not configured"@)
    } else if !exists {
        Err(
            "autopilot binary not found: "@ + trimmed(configured)
                + " — build it with `west build -b native_sim -d build-native_sim cerebri_cubs2`"@,
        )
    } else {
        Ok(trimmed(configured))
    }
}

/// The path of the configured binary, or why it cannot be started.
pub fn validate_native_binary(configured: &str, exists: bool) -> (result: Result<String, String>)
    ensures
        match binary_outcome(configured@, exists) {
            Ok(path) => result is Ok && result->Ok_0@ == path,
            Err(message) => result is Err && result->Err_0@ == message,
        },
{
    let binary = trim(configured);
    if text_bytes(binary.as_str()) == 0 {
        return Err("autopilot native binary is not configured".to_owned());
    }
    if !exists {
        let start = joined("autopilot binary not found: ", binary.as_str());
        return Err(
            joined(
                start.as_str(),
                " — build it with `west build -b native_sim -d build-native_sim cerebri_cubs2`",
            ),
        );
    }
    Ok(binary)
}

/// Adds an endpoint, unless it is empty or there already.
pub fn push_unique_endpoint(endpoints: &mut Vec<String>, endpoint: &str)
    ensures
        views(final(endpoints)@) == if endpoint@.len() == 0 || views(old(endpoints)@).contains(
            endpoint@,
        ) {
            views(old(endpoints)@)
        } else {
            views(old(endpoints)@).push(endpoint@)
        },
{
    let ghost before = endpoints@;
    if text_bytes(endpoint) == 0 {
        return;
    }
    for index in 0..endpoints.len()
        invariant
            endpoints@ == before,
            before == old(endpoints)@,
            forall|i: int| 0 <= i < index ==> (#[trigger] views(before)[i]) != endpoint@,
    {
        assert(views(before)[index as int] == before[index as int]@);
        if *endpoints[index].as_str() == *endpoint {
            assert(views(before)[index as int] == endpoint@);
            return;
        }
    }
    endpoints.push(endpoint.to_owned());
    assert(views(endpoints@) =~= views(before).push(endpoint@));
}

/// The endpoints that the autopilot's observers dial.
pub fn autopilot_zenoh_endpoints(runtime_endpoint: &str) -> (endpoints: Vec<String>)
    ensures
        views(endpoints@) == crate::session::unless_empty(trimmed(runtime_endpoint@)),
{
    let mut endpoints: Vec<String> = Vec::new();
    push_unique_endpoint(&mut endpoints, trim(runtime_endpoint).as_str());
    assert(views(endpoints@) =~= crate::session::unless_empty(trimmed(runtime_endpoint@)));
    endpoints
}

/// The settings of the observers' session.
pub fn autopilot_session(runtime_endpoint: &str) -> (settings: Vec<SessionSetting>)
    ensures
        setting_views(settings@) == settings_of(
            "client"@,
            crate::session::unless_empty(trimmed(runtime_endpoint@)),
            Seq::empty(),
            false,
        ),
{
    let endpoints = autopilot_zenoh_endpoints(runtime_endpoint);
    let none: Vec<String> = Vec::new();
    assert(views(none@) =~= Seq::empty());
    session_settings("client", &endpoints, &none, false)
}

/// The name stands for a motion-capture stream.
pub open spec fn is_mocap(topic: Seq<char>, mocap_pose_topic: Seq<char>) -> bool {
    ||| topic == mocap_pose_topic
    ||| has_part(topic, "/mocap/rigid_body/"@)
    ||| has_part(topic, "/mocap/selected/rigid_body/"@)
    ||| finishes_with(topic, "mocap/frame"@)
    ||| finishes_with(topic, "mocap_frame"@)
}

/// What a topic is counted as: its key and contract. `mocap_known` says whether the catalog has
/// motion-capture frames, `parsed` what it says of the key.
pub open spec fn monitored(
    spec_text: Seq<char>,
    mocap_pose_topic: Seq<char>,
    mocap_known: bool,
    parsed: Option<u16>,
) -> Option<(Seq<char>, Option<u16>)> {
    let topic = trimmed(spec_text);
    if topic.len() == 0 {
        None
    } else if is_mocap(topic, mocap_pose_topic) {
        if mocap_known {
            Some((topic, None))
        } else {
            None
        }
    } else {
        match parsed {
            Some(id) => Some((topic, Some(id))),
            None => None,
        }
    }
}

/// The topic is counted under this key and contract.
pub open spec fn topic_tells(
    topic: Option<MonitoredTopic>,
    expected: Option<(Seq<char>, Option<u16>)>,
) -> bool {
    &&& topic is Some == expected is Some
    &&& topic is Some ==> topic->0.key@ == (expected->0).0 && topic->0.contract == (expected->0).1
}

/// What a topic is counted as, given what the catalog says.
pub fn monitored_topic(
    spec_text: &str,
    mocap_pose_topic: &str,
    mocap_known: bool,
    parsed: Option<u16>,
) -> (topic: Option<MonitoredTopic>)
    ensures
        topic_tells(topic, monitored(spec_text@, mocap_pose_topic@, mocap_known, parsed)),
{
    let key = trim(spec_text);
    let name = key.as_str();
    if text_bytes(name) == 0 {
        return None;
    }
    if *name == *mocap_pose_topic || contains(name, "/mocap/rigid_body/") || contains(
        name,
        "/mocap/selected/rigid_body/",
    ) || ends_with(name, "mocap/frame") || ends_with(name, "mocap_frame") {
        if mocap_known {
            return Some(MonitoredTopic { key, contract: None });
        }
        return None;
    }
    match parsed {
        Some(id) => Some(MonitoredTopic { key, contract: Some(id) }),
        None => None,
    }
}

/// What a configured topic is counted as: a motion-capture stream by its key alone, any other by
/// its contract in the catalog. Nothing for names that the catalog does not know.
pub fn resolve_monitored_topic(spec_text: &str, mocap_pose_topic: &str) -> (topic: Option<
    MonitoredTopic,
>)
    ensures
        topic_tells(
            topic,
            monitored(
                spec_text@,
                mocap_pose_topic@,
                topic_id_by_name("MocapFrame"@) is Some,
                topic_id_by_key(trimmed(spec_text@)),
            ),
        ),
{
    let mocap_known = find_topic_by_name("MocapFrame").is_some();
    let parsed = find_topic_by_key(trim(spec_text).as_str());
    monitored_topic(spec_text, mocap_pose_topic, mocap_known, parsed)
}

/// Whether a sample is counted, given the topic whose contract its encoding states.
pub fn satisfies_contract(contract: Option<u16>, stated: Option<u16>) -> (result: bool)
    ensures
        result == (contract is None || contract == stated),
{
    match contract {
        None => true,
        Some(expected) => match stated {
            Some(id) => id == expected,
            None => false,
        },
    }
}

/// Whether a sample with the encoding is counted.
pub fn counts_sample(topic: &MonitoredTopic, encoding: &str) -> (result: bool)
    ensures
        result == (topic.contract is None || topic.contract == topic_id_by_encoding(encoding@)),
{
    satisfies_contract(topic.contract, find_topic_by_encoding(encoding))
}

/// What one of the autopilot's own topics is counted as.
pub fn output_topic(key: &str) -> (result: Result<MonitoredTopic, String>)
    ensures
        match topic_id_by_key(key@) {
            Some(id) => result is Ok && result->Ok_0.key@ == key@ && result->Ok_0.contract == Some(
                id,
            ),
            None => result is Err && result->Err_0@ == "unknown autopilot output topic "@ + key@,
        },
{
    match find_topic_by_key(key) {
        Some(id) => Ok(MonitoredTopic { key: key.to_owned(), contract: Some(id) }),
        None => Err(joined("unknown autopilot output topic ", key)),
    }
}

/// Whatever is remembered of an autopilot says that it does not run: neither how it ended, nor that
/// it never started.
pub proof fn lemma_remembered_autopilots_do_not_run(
    child: LinkChild,
    message: Seq<char>,
    frames: FrameCounts,
    now_ms: u128,
    code: Option<i32>,
    signal: Option<i32>,
    stop_requested: bool,
)
    ensures
        !ended_status(child, message, frames, now_ms, code, signal, stop_requested).running,
        !remembered(None).running,
        running_status(child, message, frames).running,
{
}

} // verus!
