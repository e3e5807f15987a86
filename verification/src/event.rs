//! The audit event model: the canonical shape of a raw filesystem
//! notification, the enriched event built from a matched notification, and
//! the formatting of timestamps and index partition names.

use vstd::prelude::*;

use crate::config::VERSION;
use crate::scope::{clone_strings, labels_for, Rule, rules_view};
use crate::strutil::{dec_digits, u128_to_string};

verus! {

/// The checksum value recorded when the file's content cannot be read, as
/// after a remove or rename.
pub const UNAVAILABLE_CHECKSUM: &'static str = "UNKNOWN";

/// The kind of filesystem activity a notification reports. Operation codes
/// with no mapping arrive as `Unknown` rather than being dropped.
#[derive(Clone, Copy, PartialEq, Eq, Structural, Debug)]
pub enum OperationKind {
    Create,
    Write,
    Remove,
    Rename,
    Attribute,
    Unknown,
}

/// The canonical name of an operation kind.
pub open spec fn kind_name(op: OperationKind) -> Seq<char> {
    match op {
        OperationKind::Create => "Create"@,
        OperationKind::Write => "Write"@,
        OperationKind::Remove => "Remove"@,
        OperationKind::Rename => "Rename"@,
        OperationKind::Attribute => "Attribute"@,
        OperationKind::Unknown => "Unknown"@,
    }
}

/// The string projection of an operation kind.
pub fn get_kind(operation: OperationKind) -> (r: String)
    ensures
        r@ == kind_name(operation),
{
    match operation {
        OperationKind::Create => String::from_str("Create"),
        OperationKind::Write => String::from_str("Write"),
        OperationKind::Remove => String::from_str("Remove"),
        OperationKind::Rename => String::from_str("Rename"),
        OperationKind::Attribute => String::from_str("Attribute"),
        OperationKind::Unknown => String::from_str("Unknown"),
    }
}

/// One OS-level filesystem notification in canonical shape: the operation,
/// the reported path, and the working directory the backend reported (empty
/// when the backend reports absolute paths).
pub struct RawChange {
    pub operation: OperationKind,
    pub path: String,
    pub reported_cwd: String,
}

/// The mathematical shape of a `RawChange`.
#[verifier::ext_equal]
pub ghost struct RawChangeView {
    pub operation: OperationKind,
    pub path: Seq<char>,
    pub reported_cwd: Seq<char>,
}

impl View for RawChange {
    type V = RawChangeView;

    open spec fn view(&self) -> RawChangeView {
        RawChangeView {
            operation: self.operation,
            path: self.path@,
            reported_cwd: self.reported_cwd@,
        }
    }
}

/// One enriched audit record, created exactly once per matched, non-ignored
/// raw change and never mutated afterwards.
pub struct Event {
    pub id: String,
    pub timestamp: String,
    pub hostname: String,
    pub nodename: String,
    pub version: String,
    pub operation: String,
    pub path: String,
    pub labels: Vec<String>,
    pub kind: String,
    pub checksum: String,
    pub pid: u32,
}

/// The mathematical shape of an `Event`.
#[verifier::ext_equal]
pub ghost struct EventView {
    pub id: Seq<char>,
    pub timestamp: Seq<char>,
    pub hostname: Seq<char>,
    pub nodename: Seq<char>,
    pub version: Seq<char>,
    pub operation: Seq<char>,
    pub path: Seq<char>,
    pub labels: Seq<Seq<char>>,
    pub kind: Seq<char>,
    pub checksum: Seq<char>,
    pub pid: u32,
}

impl View for Event {
    type V = EventView;

    open spec fn view(&self) -> EventView {
        EventView {
            id: self.id@,
            timestamp: self.timestamp@,
            hostname: self.hostname@,
            nodename: self.nodename@,
            version: self.version@,
            operation: self.operation@,
            path: self.path@,
            labels: self.labels.deep_view(),
            kind: self.kind@,
            checksum: self.checksum@,
            pid: self.pid,
        }
    }
}

impl Event {
    /// A copy of the event, field for field.
    pub fn clone(&self) -> (r: Event)
        ensures
            r@ == self@,
    {
        let r = Event {
            id: self.id.clone(),
            timestamp: self.timestamp.clone(),
            hostname: self.hostname.clone(),
            nodename: self.nodename.clone(),
            version: self.version.clone(),
            operation: self.operation.clone(),
            path: self.path.clone(),
            labels: clone_strings(&self.labels),
            kind: self.kind.clone(),
            checksum: self.checksum.clone(),
            pid: self.pid,
        };
        proof {
            assert(r@ =~= self@);
        }
        r
    }
}

/// The deterministic part of enrichment: every field of `e` other than the
/// freshly generated `id` and the capture-time `timestamp` is the stated
/// function of the raw change, the matched rule's labels, and the captured
/// host data.
pub open spec fn enriched_from(
    e: EventView,
    raw: RawChangeView,
    labels: Seq<Seq<char>>,
    node: Seq<char>,
    hostname: Seq<char>,
    checksum: Seq<char>,
    pid: u32,
) -> bool {
    e.hostname == hostname && e.nodename == node && e.version == VERSION@ && e.operation
        == kind_name(raw.operation) && e.path == raw.path && e.labels == labels && e.kind
        == kind_name(raw.operation) && e.checksum == checksum && e.pid == pid
}

/// Builds the audit event for a raw change matched by the rule at `index`:
/// the labels are copied from that rule, operation and kind are the
/// operation's canonical name, the path is the raw path, and the supplied
/// identifier, timestamp, host data and checksum are taken as given.
pub fn build_event(
    raw: &RawChange,
    index: usize,
    rules: &Vec<Rule>,
    node: &str,
    id: String,
    timestamp: String,
    hostname: String,
    checksum: String,
    pid: u32,
) -> (e: Event)
    requires
        index < rules@.len(),
    ensures
        e@.id == id@,
        e@.timestamp == timestamp@,
        enriched_from(
            e@,
            raw@,
            rules_view(rules@)[index as int].labels,
            node@,
            hostname@,
            checksum@,
            pid,
        ),
{
    let labels = labels_for(index, rules);
    let operation = get_kind(raw.operation);
    let kind = get_kind(raw.operation);
    let e = Event {
        id,
        timestamp,
        hostname,
        nodename: String::from_str(node),
        version: String::from_str(VERSION),
        operation,
        path: raw.path.clone(),
        labels,
        kind,
        checksum,
        pid,
    };
    proof {
        assert(rules_view(rules@)[index as int] == rules@[index as int]@);
        assert(e@.labels =~= rules_view(rules@)[index as int].labels);
    }
    e
}

/// Two enrichments of the same raw change with the same matched labels and
/// captured host data agree on every field other than `id` and `timestamp`.
pub proof fn lemma_enrichment_deterministic(
    e1: EventView,
    e2: EventView,
    raw: RawChangeView,
    labels: Seq<Seq<char>>,
    node: Seq<char>,
    hostname: Seq<char>,
    checksum: Seq<char>,
    pid: u32,
)
    requires
        enriched_from(e1, raw, labels, node, hostname, checksum, pid),
        enriched_from(e2, raw, labels, node, hostname, checksum, pid),
    ensures
        e1.hostname == e2.hostname,
        e1.nodename == e2.nodename,
        e1.version == e2.version,
        e1.operation == e2.operation,
        e1.path == e2.path,
        e1.labels == e2.labels,
        e1.kind == e2.kind,
        e1.checksum == e2.checksum,
        e1.pid == e2.pid,
{
}

/// The wall-clock timestamp in whole milliseconds for a reading of the
/// clock in nanoseconds since the Unix epoch; a reading from before the
/// epoch is reported as zero.
pub open spec fn spec_timestamp_millis(nanos: int) -> int {
    if nanos < 0 {
        0
    } else {
        nanos / 1000000
    }
}

/// Converts a clock reading in nanoseconds since the Unix epoch to whole
/// milliseconds.
pub fn timestamp_millis(nanos: i128) -> (r: u128)
    ensures
        r as int == spec_timestamp_millis(nanos as int),
{
    if nanos < 0 {
        0
    } else {
        (nanos as u128) / 1000000u128
    }
}

/// The decimal digits of a year, with a leading `-` for a year before zero.
pub open spec fn spec_year_digits(y: int) -> Seq<char> {
    if y < 0 {
        seq!['-'] + dec_digits((-y) as nat)
    } else {
        dec_digits(y as nat)
    }
}

/// The name of the remote index partition for a calendar day.
pub open spec fn spec_index_name(year: int, month: int, day: int) -> Seq<char> {
    "fim-"@ + spec_year_digits(year) + "-"@ + dec_digits(month as nat) + "-"@ + dec_digits(
        day as nat,
    )
}

/// The time-partitioned remote index name for the given calendar day, one
/// partition per day.
pub fn index_name(year: i32, month: u8, day: u8) -> (r: String)
    requires
        -9999 <= year <= 9999,
        1 <= month <= 12,
        1 <= day <= 31,
    ensures
        r@ == spec_index_name(year as int, month as int, day as int),
{
    let year_str: String = if year < 0 {
        let mag: i32 = -year;
        let s = String::from_str("-").concat(u128_to_string(mag as u128).as_str());
        proof {
            reveal_strlit("-");
            assert(s@ =~= spec_year_digits(year as int));
        }
        s
    } else {
        u128_to_string(year as u128)
    };
    let r = String::from_str("fim-").concat(year_str.as_str()).concat("-").concat(
        u128_to_string(month as u128).as_str(),
    ).concat("-").concat(u128_to_string(day as u128).as_str());
    proof {
        reveal_strlit("-");
        assert(r@ =~= spec_index_name(year as int, month as int, day as int));
    }
    r
}

} // verus!
