//! Security incidents as the guardian core reports them.
use vstd::prelude::*;
use crate::text::{concat2, owned};

verus! {

/// The mathematical content of an [`Incident`].
pub struct IncidentView {
    pub timestamp: u64,
    pub event_type: Seq<char>,
    pub process_name: Seq<char>,
    pub pid: u32,
    pub severity: Seq<char>,
    pub details: Option<Seq<char>>,
}

/// One detected event.
#[derive(Debug, Clone)]
pub struct Incident {
    /// Seconds since the Unix epoch.
    pub timestamp: u64,
    pub event_type: String,
    pub process_name: String,
    pub pid: u32,
    pub severity: String,
    pub details: Option<String>,
}

/// The view of optional text.
pub open spec fn opt_view(o: Option<String>) -> Option<Seq<char>> {
    match o {
        Some(s) => Some(s@),
        None => None,
    }
}

impl View for Incident {
    type V = IncidentView;

    open spec fn view(&self) -> IncidentView {
        IncidentView {
            timestamp: self.timestamp,
            event_type: self.event_type@,
            process_name: self.process_name@,
            pid: self.pid,
            severity: self.severity@,
            details: opt_view(self.details),
        }
    }
}

/// The views of a list of incidents.
pub open spec fn incident_views(v: Seq<Incident>) -> Seq<IncidentView> {
    v.map_values(|i: Incident| i@)
}

/// The incident for a file that appeared in a watched tree.
pub open spec fn unknown_file_spec(timestamp: u64, path: Seq<char>) -> IncidentView {
    IncidentView {
        timestamp,
        event_type: "Unknown File Detected"@,
        process_name: "FS Watcher"@,
        pid: 0,
        severity: "MEDIUM"@,
        details: Some("New file detected: "@ + path),
    }
}

/// The incident for a monitored port found open.
pub open spec fn network_exposure_spec(timestamp: u64, alert: Seq<char>) -> IncidentView {
    IncidentView {
        timestamp,
        event_type: "Network Exposure Detected"@,
        process_name: "Network Sentinel"@,
        pid: 0,
        severity: "LOW"@,
        details: Some(alert),
    }
}

/// The incident for a baselined file that changed or could not be read.
pub open spec fn integrity_compromised_spec(timestamp: u64, alert: Seq<char>) -> IncidentView {
    IncidentView {
        timestamp,
        event_type: "File Integrity Compromised"@,
        process_name: "FS Watcher"@,
        pid: 0,
        severity: "HIGH"@,
        details: Some(alert),
    }
}

/// The incident for clipboard contents the AI judged dangerous.
pub open spec fn clipboard_threat_spec(timestamp: u64, detection: Seq<char>) -> IncidentView {
    IncidentView {
        timestamp,
        event_type: "AI 判定: 高危險意圖或敏感資料洩漏"@,
        process_name: "Clipboard"@,
        pid: 0,
        severity: "CRITICAL"@,
        details: Some("AI 攔截剪貼簿: "@ + detection),
    }
}

/// The incident for a screen capture the AI judged dangerous.
pub open spec fn visual_threat_spec(timestamp: u64) -> IncidentView {
    IncidentView {
        timestamp,
        event_type: "AI 視覺判定: 發現特權提權或密碼外洩風險"@,
        process_name: "Window Server"@,
        pid: 0,
        severity: "CRITICAL"@,
        details: Some("AI 偵測到危險的系統視窗或隱私內容"@),
    }
}

impl Incident {
    /// A new file was found under a watched directory.
    pub fn unknown_file(timestamp: u64, path: &str) -> (i: Incident)
        ensures
            i@ == unknown_file_spec(timestamp, path@),
    {
        Incident {
            timestamp,
            event_type: owned("Unknown File Detected"),
            process_name: owned("FS Watcher"),
            pid: 0,
            severity: owned("MEDIUM"),
            details: Some(concat2("New file detected: ", path)),
        }
    }

    /// A monitored port is open.
    pub fn network_exposure(timestamp: u64, alert: String) -> (i: Incident)
        ensures
            i@ == network_exposure_spec(timestamp, alert@),
    {
        Incident {
            timestamp,
            event_type: owned("Network Exposure Detected"),
            process_name: owned("Network Sentinel"),
            pid: 0,
            severity: owned("LOW"),
            details: Some(alert),
        }
    }

    /// A baselined file changed or became unreadable.
    pub fn integrity_compromised(timestamp: u64, alert: String) -> (i: Incident)
        ensures
            i@ == integrity_compromised_spec(timestamp, alert@),
    {
        Incident {
            timestamp,
            event_type: owned("File Integrity Compromised"),
            process_name: owned("FS Watcher"),
            pid: 0,
            severity: owned("HIGH"),
            details: Some(alert),
        }
    }

    /// The AI judged the clipboard detection `detection` a threat.
    pub fn clipboard_threat(timestamp: u64, detection: &str) -> (i: Incident)
        ensures
            i@ == clipboard_threat_spec(timestamp, detection@),
    {
        Incident {
            timestamp,
            event_type: owned("AI 判定: 高危險意圖或敏感資料洩漏"),
            process_name: owned("Clipboard"),
            pid: 0,
            severity: owned("CRITICAL"),
            details: Some(concat2("AI 攔截剪貼簿: ", detection)),
        }
    }

    /// The AI judged the current screen a threat.
    pub fn visual_threat(timestamp: u64) -> (i: Incident)
        ensures
            i@ == visual_threat_spec(timestamp),
    {
        Incident {
            timestamp,
            event_type: owned("AI 視覺判定: 發現特權提權或密碼外洩風險"),
            process_name: owned("Window Server"),
            pid: 0,
            severity: owned("CRITICAL"),
            details: Some(owned("AI 偵測到危險的系統視窗或隱私內容")),
        }
    }
}

/// Whether the screen is captured and analysed on heartbeat `tick`: every
/// fifth tick.
pub fn visual_scan_due(tick: u64) -> (b: bool)
    ensures
        b == (tick % 5 == 0),
{
    tick % 5 == 0
}

} // verus!
