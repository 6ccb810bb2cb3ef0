//! Bounded best-effort troubleshooting diagnostics: configuration limits, the
//! per-record byte cap, file rotation planning and overflow accounting.
//!
//! Diagnostic records are observational process information, never authoritative
//! experiment state. Producers use a fixed lossy queue, so a slow or failed log
//! destination cannot block acquisition, control, output safety or recording. The
//! queue, the files and the subscriber belong to the host; the decisions are here.
use crate::text::{ascii_chars, char_prefix, concat, decimal, decimal_string};
use vstd::prelude::*;

verus! {

/// Maximum bytes in each diagnostic file.
pub const MAX_FILE_BYTES: u64 = 4194304;

/// Active file plus retained rotations.
pub const RETAINED_FILE_COUNT: usize = 4;

/// Maximum number of formatted records waiting for the diagnostic worker.
pub const QUEUE_RECORDS: usize = 1024;

/// Maximum bytes admitted for one formatted diagnostic record.
pub const MAX_RECORD_BYTES: usize = 8192;

/// Length of the marker that ends a truncated record.
pub const TRUNCATED_LEN: usize = 15;

/// Name of the active diagnostic file.
pub const ACTIVE_FILE: &'static str = "lab-runtime.log";

/// The marker `...[truncated]` and a newline, as bytes.
pub open spec fn truncated_marker() -> Seq<u8> {
    seq![46u8, 46u8, 46u8, 91u8, 116u8, 114u8, 117u8, 110u8, 99u8, 97u8, 116u8, 101u8, 100u8, 93u8, 10u8]
}

fn truncated_marker_bytes() -> (m: Vec<u8>)
    ensures
        m@ == truncated_marker(),
{
    let m: Vec<u8> = vec![46u8, 46u8, 46u8, 91u8, 116u8, 114u8, 117u8, 110u8, 99u8, 97u8, 116u8, 101u8, 100u8, 93u8, 10u8];
    assert(m@ =~= truncated_marker());
    m
}

/// Most verbose enabled diagnostic level.
#[derive(Clone, Copy, Debug, PartialEq, Eq, Structural)]
pub enum DiagnosticLevel {
    /// Errors only.
    Error,
    /// Warnings and errors.
    Warn,
    /// Informational records and above.
    Info,
    /// Debug records and above.
    Debug,
    /// Everything.
    Trace,
}

/// ASCII upper-casing of one character.
pub open spec fn upper(c: char) -> char {
    if 'a' <= c <= 'z' {
        ((c as u32) - 32) as char
    } else {
        c
    }
}

/// ASCII upper-casing of a text.
pub open spec fn upper_text(s: Seq<char>) -> Seq<char> {
    s.map_values(|c: char| upper(c))
}

/// The level a configured name selects, ignoring ASCII case.
pub open spec fn level_named(name: Seq<char>) -> Option<DiagnosticLevel> {
    let u = upper_text(name);
    if u == "ERROR"@ {
        Some(DiagnosticLevel::Error)
    } else if u == "WARN"@ {
        Some(DiagnosticLevel::Warn)
    } else if u == "INFO"@ {
        Some(DiagnosticLevel::Info)
    } else if u == "DEBUG"@ {
        Some(DiagnosticLevel::Debug)
    } else if u == "TRACE"@ {
        Some(DiagnosticLevel::Trace)
    } else {
        None
    }
}

/// The canonical configured name of each level.
pub open spec fn level_name(l: DiagnosticLevel) -> Seq<char> {
    match l {
        DiagnosticLevel::Error => "ERROR"@,
        DiagnosticLevel::Warn => "WARN"@,
        DiagnosticLevel::Info => "INFO"@,
        DiagnosticLevel::Debug => "DEBUG"@,
        DiagnosticLevel::Trace => "TRACE"@,
    }
}

/// A name selects a level exactly when, ignoring ASCII case, it is that level's
/// canonical name; each canonical name selects its own level.
pub proof fn law_level_names(name: Seq<char>, l: DiagnosticLevel)
    ensures
        level_named(name) == Some(l) <==> upper_text(name) == level_name(l),
        level_named(level_name(l)) == Some(l),
{
    reveal_strlit("ERROR");
    reveal_strlit("WARN");
    reveal_strlit("INFO");
    reveal_strlit("DEBUG");
    reveal_strlit("TRACE");
    assert("ERROR"@.len() == 5 && "DEBUG"@.len() == 5 && "TRACE"@.len() == 5);
    assert("WARN"@.len() == 4 && "INFO"@.len() == 4);
    assert("ERROR"@[0] == 'E' && "DEBUG"@[0] == 'D' && "TRACE"@[0] == 'T');
    assert("WARN"@[0] == 'W' && "INFO"@[0] == 'I');
    assert("ERROR"@ != "DEBUG"@ && "ERROR"@ != "TRACE"@ && "DEBUG"@ != "TRACE"@);
    assert("WARN"@ != "INFO"@);
    let n = level_name(l);
    assert(upper_text(n) =~= n);
}

fn upper_matches(c: char, e: char) -> (r: bool)
    ensures
        r <==> upper(c) == e,
{
    if 'a' <= c && c <= 'z' {
        (c as u32) - 32 == (e as u32)
    } else {
        c == e
    }
}

/// Whether `name`, ignoring ASCII case, is `expected` (given in upper case).
fn upper_equals(name: &str, expected: &str) -> (r: bool)
    ensures
        r <==> upper_text(name@) == expected@,
{
    let n = name.unicode_len();
    if n != expected.unicode_len() {
        proof {
            assert(upper_text(name@).len() == name@.len());
        }
        return false;
    }
    let mut i: usize = 0;
    while i < n
        invariant
            n == name@.len(),
            n == expected@.len(),
            i <= n,
            forall|j: int| 0 <= j < i ==> upper(name@[j]) == expected@[j],
        decreases n - i,
    {
        if !upper_matches(name.get_char(i), expected.get_char(i)) {
            proof {
                assert(upper_text(name@)[i as int] != expected@[i as int]);
            }
            return false;
        }
        i += 1;
    }
    proof {
        assert(upper_text(name@) =~= expected@);
    }
    true
}

/// Parse a configured level name, ignoring ASCII case.
pub fn parse_level(name: &str) -> (level: Option<DiagnosticLevel>)
    ensures
        level == level_named(name@),
        forall|l: DiagnosticLevel| level == Some(l) <==> upper_text(name@) == #[trigger] level_name(l),
{
    proof {
        reveal_strlit("ERROR");
        reveal_strlit("WARN");
        reveal_strlit("INFO");
        reveal_strlit("DEBUG");
        reveal_strlit("TRACE");
    }
    assert forall|l: DiagnosticLevel| level_named(name@) == Some(l) <==> upper_text(name@) == #[trigger] level_name(l) by {
        law_level_names(name@, l);
    }
    if upper_equals(name, "ERROR") {
        Some(DiagnosticLevel::Error)
    } else if upper_equals(name, "WARN") {
        Some(DiagnosticLevel::Warn)
    } else if upper_equals(name, "INFO") {
        Some(DiagnosticLevel::Info)
    } else if upper_equals(name, "DEBUG") {
        Some(DiagnosticLevel::Debug)
    } else if upper_equals(name, "TRACE") {
        Some(DiagnosticLevel::Trace)
    } else {
        None
    }
}

/// The configured level, `Info` when unset or invalid; the flag reports an invalid
/// setting, which the host announces once.
pub fn configured_level(setting: Option<&str>) -> (out: (DiagnosticLevel, bool))
    ensures
        match setting {
            None => out == (DiagnosticLevel::Info, false),
            Some(name) => match level_named(name@) {
                Some(l) => out == (l, false),
                None => out == (DiagnosticLevel::Info, true),
            },
        },
        forall|l: DiagnosticLevel| setting is Some && upper_text(setting->Some_0@) == #[trigger] level_name(l)
            ==> out == (l, false),
{
    proof {
        assert forall|l: DiagnosticLevel| setting is Some && upper_text(setting->Some_0@) == #[trigger] level_name(l)
            implies level_named(setting->Some_0@) == Some(l) by {
            law_level_names(setting->Some_0@, l);
        }
    }
    match setting {
        None => (DiagnosticLevel::Info, false),
        Some(name) => match parse_level(name) {
            Some(level) => (level, false),
            None => (DiagnosticLevel::Info, true),
        },
    }
}

/// Production diagnostic limits.
#[derive(Clone, Copy, Debug, PartialEq, Eq, Structural)]
pub struct DiagnosticConfig {
    /// Most verbose enabled level.
    pub level: DiagnosticLevel,
    /// Strict maximum bytes per file.
    pub max_file_bytes: u64,
    /// Active file plus retained rotations.
    pub retained_file_count: usize,
    /// Fixed producer queue capacity in complete records.
    pub queue_records: usize,
    /// Maximum bytes admitted per formatted record.
    pub max_record_bytes: usize,
    /// Mirror accepted records to standard error from the background writer.
    pub mirror_stderr: bool,
}

/// The limits are usable: every bound is positive, a record has room beyond the
/// truncation marker and a record fits in one file.
pub open spec fn config_valid(c: DiagnosticConfig) -> bool {
    &&& c.max_file_bytes != 0
    &&& c.retained_file_count != 0
    &&& c.queue_records != 0
    &&& c.max_record_bytes > TRUNCATED_LEN
    &&& c.max_record_bytes <= c.max_file_bytes
}

/// Rejected diagnostic limits.
#[derive(Clone, Copy, Debug, PartialEq, Eq, Structural)]
pub enum DiagnosticConfigError {
    /// The limits are not usable.
    InvalidBounds,
}

impl DiagnosticConfigError {
    /// Human-readable description.
    pub fn message(&self) -> (m: &'static str)
        ensures
            m@ == "invalid bounded diagnostic configuration"@,
    {
        "invalid bounded diagnostic configuration"
    }
}

impl DiagnosticConfig {
    /// Safe fixed defaults for a developer-preview process at the given level.
    pub fn production(level: DiagnosticLevel) -> (c: Self)
        ensures
            c.level == level,
            c.max_file_bytes == MAX_FILE_BYTES,
            c.retained_file_count == RETAINED_FILE_COUNT,
            c.queue_records == QUEUE_RECORDS,
            c.max_record_bytes == MAX_RECORD_BYTES,
            c.mirror_stderr,
            config_valid(c),
    {
        DiagnosticConfig {
            level,
            max_file_bytes: MAX_FILE_BYTES,
            retained_file_count: RETAINED_FILE_COUNT,
            queue_records: QUEUE_RECORDS,
            max_record_bytes: MAX_RECORD_BYTES,
            mirror_stderr: true,
        }
    }

    /// Check the limits before anything is installed.
    pub fn validate(&self) -> (r: Result<(), DiagnosticConfigError>)
        ensures
            r is Ok <==> config_valid(*self),
    {
        if self.max_file_bytes == 0 || self.retained_file_count == 0 || self.queue_records == 0
            || self.max_record_bytes <= TRUNCATED_LEN || self.max_record_bytes as u64
            > self.max_file_bytes {
            return Err(DiagnosticConfigError::InvalidBounds);
        }
        Ok(())
    }
}

/// The first `max` characters of a diagnostic text.
pub fn bounded_text(value: &str, max: usize) -> (out: String)
    ensures
        out@ == (if value@.len() <= max {
            value@
        } else {
            value@.subrange(0, max as int)
        }),
{
    char_prefix(value, max)
}

/// One formatted record being assembled under its byte cap.
pub struct RecordBuffer {
    bytes: Vec<u8>,
    max_record_bytes: usize,
    truncated: bool,
}

/// The completed record: a truncated one loses its trailing newlines and gains the
/// marker; a complete one gains a newline unless it already ends with one.
pub open spec fn finished_record(bytes: Seq<u8>, truncated: bool) -> Seq<u8> {
    if truncated {
        strip_newlines(bytes) + truncated_marker()
    } else if bytes.len() > 0 && bytes.last() == 10 {
        bytes
    } else {
        bytes.push(10)
    }
}

/// The bytes without their trailing newlines.
pub open spec fn strip_newlines(bytes: Seq<u8>) -> Seq<u8>
    decreases bytes.len(),
{
    if bytes.len() > 0 && bytes.last() == 10 {
        strip_newlines(bytes.drop_last())
    } else {
        bytes
    }
}

proof fn lemma_strip_newlines_shorter(bytes: Seq<u8>)
    ensures
        strip_newlines(bytes).len() <= bytes.len(),
    decreases bytes.len(),
{
    if bytes.len() > 0 && bytes.last() == 10 {
        lemma_strip_newlines_shorter(bytes.drop_last());
    }
}

impl RecordBuffer {
    /// Bytes admitted so far.
    pub closed spec fn spec_bytes(&self) -> Seq<u8> {
        self.bytes@
    }

    /// Whether some written bytes were cut.
    pub closed spec fn spec_truncated(&self) -> bool {
        self.truncated
    }

    /// The record's cap.
    pub closed spec fn spec_max(&self) -> usize {
        self.max_record_bytes
    }

    /// Admitted bytes leave room for the truncation marker.
    pub open spec fn wf(&self) -> bool {
        &&& self.spec_max() > TRUNCATED_LEN
        &&& self.spec_bytes().len() <= self.spec_max() - TRUNCATED_LEN
    }

    /// An empty record with the given cap.
    pub fn new(max_record_bytes: usize) -> (b: Self)
        requires
            max_record_bytes > TRUNCATED_LEN,
        ensures
            b.wf(),
            b.spec_bytes().len() == 0,
            !b.spec_truncated(),
            b.spec_max() == max_record_bytes,
    {
        RecordBuffer { bytes: Vec::new(), max_record_bytes, truncated: false }
    }

    /// Admit as much of `chunk` as fits before the marker's room; the rest is cut
    /// and remembered. The whole chunk is reported written, so formatting never
    /// fails on a long record.
    pub fn write(&mut self, chunk: &[u8]) -> (written: usize)
        requires
            old(self).wf(),
        ensures
            final(self).wf(),
            written == chunk@.len(),
            final(self).spec_max() == old(self).spec_max(),
            ({
                let room = old(self).spec_max() - TRUNCATED_LEN - old(self).spec_bytes().len();
                let admitted = if chunk@.len() <= room {
                    chunk@.len() as int
                } else {
                    room
                };
                &&& final(self).spec_bytes() == old(self).spec_bytes() + chunk@.subrange(0, admitted)
                &&& final(self).spec_truncated() == (old(self).spec_truncated() || admitted < chunk@.len())
            }),
    {
        let payload_limit = self.max_record_bytes - TRUNCATED_LEN;
        let available = payload_limit - self.bytes.len();
        let admitted = if chunk.len() <= available {
            chunk.len()
        } else {
            available
        };
        let ghost before = self.bytes@;
        let mut i: usize = 0;
        while i < admitted
            invariant
                admitted <= chunk@.len(),
                i <= admitted,
                self.bytes@ == before + chunk@.subrange(0, i as int),
                self.max_record_bytes == old(self).max_record_bytes,
                self.truncated == old(self).truncated,
            decreases admitted - i,
        {
            self.bytes.push(chunk[i]);
            proof {
                assert(self.bytes@ =~= before + chunk@.subrange(0, i + 1));
            }
            i += 1;
        }
        self.truncated = self.truncated || admitted < chunk.len();
        chunk.len()
    }

    /// The completed record, or `None` for an empty one (nothing is published).
    /// A completed record never exceeds the cap and always ends with a newline.
    pub fn finish(self) -> (record: Option<Vec<u8>>)
        requires
            self.wf(),
        ensures
            self.spec_bytes().len() == 0 ==> record is None,
            self.spec_bytes().len() > 0 ==> (record matches Some(r) && r@ == finished_record(
                self.spec_bytes(),
                self.spec_truncated(),
            )),
            record matches Some(r) ==> r@.len() <= self.spec_max() && r@.len() > 0 && r@.last()
                == 10,
    {
        let mut bytes = self.bytes;
        if bytes.len() == 0 {
            return None;
        }
        let ghost original = bytes@;
        if self.truncated {
            while bytes.len() > 0 && bytes[bytes.len() - 1] == 10
                invariant
                    strip_newlines(bytes@) == strip_newlines(original),
                    bytes@.len() <= original.len(),
                decreases bytes@.len(),
            {
                bytes.pop();
            }
            proof {
                lemma_strip_newlines_shorter(original);
            }
            let marker = truncated_marker_bytes();
            let mut k: usize = 0;
            let ghost stripped = bytes@;
            while k < marker.len()
                invariant
                    marker@ == truncated_marker(),
                    k <= marker@.len(),
                    bytes@ == stripped + marker@.subrange(0, k as int),
                decreases marker@.len() - k,
            {
                bytes.push(marker[k]);
                proof {
                    assert(bytes@ =~= stripped + marker@.subrange(0, k + 1));
                }
                k += 1;
            }
            proof {
                assert(marker@.subrange(0, 15) =~= marker@);
                assert(bytes@.last() == 10);
            }
        } else if bytes[bytes.len() - 1] != 10 {
            bytes.push(10);
        }
        Some(bytes)
    }
}

/// Whether the active file must rotate before a record is appended: it holds
/// something and the record would carry it past the cap.
pub fn rotation_needed(file_len: u64, record_len: usize, max_file_bytes: u64) -> (r: bool)
    ensures
        r <==> file_len > 0 && file_len + record_len > max_file_bytes,
{
    let record = record_len as u64;
    file_len > 0 && (file_len > u64::MAX - record || file_len + record > max_file_bytes)
}

/// One filesystem step of a rotation.
#[derive(Clone, Copy, Debug, PartialEq, Eq, Structural)]
pub enum RotationStep {
    /// Remove rotated file `n`, if present.
    RemoveRotated(usize),
    /// Rename rotated file `from` to rotated file `to`, if present.
    RenameRotated(usize, usize),
    /// Rename the active file to rotated file `to`, if present.
    RenameActive(usize),
    /// Remove the active file, if present.
    RemoveActive,
}

/// Rotation keeping `retained` files: drop the oldest rotation, shift every other
/// rotation one place older, newest first, then move the active file to the first
/// rotation. With a single retained file the active file is simply removed.
pub open spec fn rotation_steps(retained: nat) -> Seq<RotationStep> {
    let last = retained - 1;
    if last <= 0 {
        seq![RotationStep::RemoveActive]
    } else {
        seq![RotationStep::RemoveRotated(last as usize)] + Seq::new(
            (last - 1) as nat,
            |k: int| RotationStep::RenameRotated((last - 1 - k) as usize, (last - k) as usize),
        ) + seq![RotationStep::RenameActive(1)]
    }
}

/// Plan a rotation that keeps the active file plus `retained_file_count - 1`
/// rotations.
pub fn rotation_plan(retained_file_count: usize) -> (plan: Vec<RotationStep>)
    requires
        retained_file_count >= 1,
    ensures
        plan@ == rotation_steps(retained_file_count as nat),
{
    let last = retained_file_count - 1;
    let mut plan: Vec<RotationStep> = Vec::new();
    if last == 0 {
        plan.push(RotationStep::RemoveActive);
        proof {
            assert(plan@ =~= rotation_steps(retained_file_count as nat));
        }
        return plan;
    }
    plan.push(RotationStep::RemoveRotated(last));
    let ghost renames = Seq::new(
        (last - 1) as nat,
        |k: int| RotationStep::RenameRotated((last - 1 - k) as usize, (last - k) as usize),
    );
    let mut index: usize = last - 1;
    while index >= 1
        invariant
            last == retained_file_count - 1,
            last >= 1,
            index < last,
            renames.len() == last - 1,
            forall|k: int| 0 <= k < last - 1 ==> #[trigger] renames[k] == RotationStep::RenameRotated(
                (last - 1 - k) as usize,
                (last - k) as usize,
            ),
            plan@ == seq![RotationStep::RemoveRotated(last)] + renames.subrange(0, (last - 1 - index) as int),
        decreases index,
    {
        plan.push(RotationStep::RenameRotated(index, index + 1));
        proof {
            assert(renames[(last - 1 - index) as int] == RotationStep::RenameRotated(index, (index + 1) as usize));
            assert(plan@ =~= seq![RotationStep::RemoveRotated(last)] + renames.subrange(0, (last - 1 - index) + 1));
        }
        index -= 1;
    }
    plan.push(RotationStep::RenameActive(1));
    proof {
        assert(renames.subrange(0, (last - 1) as int) =~= renames);
        assert(plan@ =~= rotation_steps(retained_file_count as nat));
    }
    plan
}

/// A rotation never refers to a file beyond the retained count, and every rename
/// moves a file exactly one place older.
pub proof fn law_rotation_stays_within_retention(retained: usize)
    requires
        retained >= 1,
    ensures
        forall|i: int| 0 <= i < rotation_steps(retained as nat).len() ==> match #[trigger] rotation_steps(retained as nat)[i] {
            RotationStep::RemoveRotated(n) => 1 <= n < retained,
            RotationStep::RenameRotated(from, to) => 1 <= from && to == from + 1 && to < retained,
            RotationStep::RenameActive(to) => to == 1 && 1 < retained,
            RotationStep::RemoveActive => retained == 1,
        },
{
    let steps = rotation_steps(retained as nat);
    if retained > 1 {
        let last: int = retained - 1;
        let renames = Seq::new(
            (last - 1) as nat,
            |k: int| RotationStep::RenameRotated((last - 1 - k) as usize, (last - k) as usize),
        );
        assert forall|i: int| 0 <= i < steps.len() implies match #[trigger] steps[i] {
            RotationStep::RemoveRotated(n) => 1 <= n < retained,
            RotationStep::RenameRotated(from, to) => 1 <= from && to == from + 1 && to < retained,
            RotationStep::RenameActive(to) => to == 1 && 1 < retained,
            RotationStep::RemoveActive => retained == 1,
        } by {
            if i == 0 {
            } else if i <= renames.len() {
                assert(steps[i] == renames[i - 1]);
                assert(renames[i - 1] == RotationStep::RenameRotated((last - i) as usize, (last - i + 1) as usize));
            } else {
                assert(steps[i] == RotationStep::RenameActive(1));
            }
        }
    }
}

/// Name of rotated file `index`: the active name, a dot and the decimal index.
pub fn rotated_file_name(index: usize) -> (name: String)
    ensures
        name@ == ACTIVE_FILE@ + "."@ + ascii_chars(decimal(index as nat)),
{
    let prefix = concat(ACTIVE_FILE, ".");
    let number = decimal_string(index as u64);
    concat(prefix.as_str(), number.as_str())
}

/// Newly dropped records to report, if the drop counter moved past what was
/// already reported.
pub fn overflow_delta(dropped: usize, reported: usize) -> (delta: Option<usize>)
    ensures
        dropped > reported ==> delta == Some((dropped - reported) as usize),
        dropped <= reported ==> delta is None,
{
    if dropped > reported {
        Some(dropped - reported)
    } else {
        None
    }
}

/// Records the writer must have written for shutdown to count as drained: those
/// attempted, less those the lossy queue dropped.
pub fn drain_target(attempted: u64, dropped: usize) -> (target: u64)
    ensures
        target == (if attempted >= dropped {
            (attempted - dropped) as u64
        } else {
            0u64
        }),
{
    let dropped = dropped as u64;
    if attempted >= dropped {
        attempted - dropped
    } else {
        0
    }
}

} // verus!
