//! Bounded, side-effect-free deployment admission and validation.
//!
//! Admission never opens a transport, database, listener or script engine. The
//! frozen bundle owns the exact admitted bytes so later activation never rereads a
//! mutable pathname for provenance.
use crate::build_identity::{hash_bytes, sha256};
use crate::definition::{
    DefinitionError, ParameterSafety, MAX_DEFINITION_BYTES, admit_definition_text,
    definition_read_only, definition_error_message, depth_run, parameter_read_only,
};
use crate::validation::{DomainFacts, deployment_valid, facts_aligned, rejected, structure_error, validate_structure};
use crate::dto::{ManagedComponentDto, DeploymentDto, DtoEq, InstrumentDto, InstrumentKind, ResourceDto, all_same, vec_equals};
use crate::text::{str_from_utf8, char_prefix, concat, decimal_string, trim, trimmed, ascii_chars, decimal};
use std::path::PathBuf;
use vstd::prelude::*;
use vstd::string::*;
use vstd::utf8::valid_utf8;

verus! {

/// Maximum exact bytes admitted for one `runtime.toml` document.
pub const MAX_RUNTIME_TOML_BYTES: usize = 65536;

/// Maximum syntactic assignments/tables admitted before deserialization.
pub const MAX_RUNTIME_TOML_VALUES: usize = 4096;

/// Maximum configuration nesting admitted by the inexpensive pre-scan.
pub const MAX_RUNTIME_TOML_DEPTH: usize = 8;

/// Maximum immutable provenance entries in one deployment.
pub const MAX_DEPLOYMENT_ARTIFACTS: usize = 128;

/// Maximum exact artifact bytes retained by one deployment candidate.
pub const MAX_DEPLOYMENT_BYTES: usize = 1048576;

/// Maximum exact bytes of one managed-component source.
pub const MAX_MANAGED_SOURCE_BYTES: usize = 32768;

/// Bookkeeping bytes charged per retained artifact.
pub const ARTIFACT_OVERHEAD_BYTES: usize = 128;

/// Maximum characters retained in one diagnostic message.
pub const MESSAGE_CHARS: usize = 256;

/// Rejected configuration or referenced artifact.
#[derive(Clone, Debug, PartialEq, Eq)]
pub enum ConfigurationError {
    /// The main document or aggregate immutable bundle exceeded a fixed limit.
    TooLarge,
    /// UTF-8 BOM or invalid UTF-8 was rejected before TOML parsing.
    InvalidUtf8,
    /// A cheap syntactic bound failed before deserialization.
    SyntaxBound(&'static str),
    /// TOML syntax, duplicate or unknown fields were rejected.
    InvalidToml(String),
    /// Parsed values violate the deployment schema or cross references.
    InvalidConfiguration(String),
    /// A referenced local immutable artifact could not be frozen or validated.
    InvalidArtifact(String),
}

/// A diagnostic text cut to its first `MESSAGE_CHARS` characters.
pub open spec fn capped(s: Seq<char>) -> Seq<char> {
    if s.len() <= MESSAGE_CHARS {
        s
    } else {
        s.subrange(0, MESSAGE_CHARS as int)
    }
}

/// `e` is a configuration rejection carrying (the bounded) `reason`.
pub open spec fn is_invalid(e: ConfigurationError, reason: Seq<char>) -> bool {
    e matches ConfigurationError::InvalidConfiguration(m) && m@ == capped(reason)
}

/// `e` is an artifact rejection carrying (the bounded) `reason`.
pub open spec fn is_artifact_error(e: ConfigurationError, reason: Seq<char>) -> bool {
    e matches ConfigurationError::InvalidArtifact(m) && m@ == capped(reason)
}

/// `r` is a rejection carrying `reason`.
pub open spec fn rejects<T>(r: Result<T, ConfigurationError>, reason: Seq<char>) -> bool {
    r matches Err(e) && is_invalid(e, reason)
}

impl ConfigurationError {
    /// Construct a bounded static artifact diagnostic for custom readers.
    pub fn artifact(reason: &'static str) -> (e: Self)
        ensures
            e matches ConfigurationError::InvalidArtifact(m) && m@ == reason@,
    {
        ConfigurationError::InvalidArtifact(reason.to_owned())
    }

    /// An artifact diagnostic cut to its bounded length.
    pub fn artifact_text(reason: &str) -> (e: Self)
        ensures
            is_artifact_error(e, reason@),
    {
        ConfigurationError::InvalidArtifact(bounded_message(reason))
    }

    /// A configuration diagnostic cut to its bounded length.
    pub fn invalid(reason: &str) -> (e: Self)
        ensures
            is_invalid(e, reason@),
    {
        ConfigurationError::InvalidConfiguration(bounded_message(reason))
    }
}

/// Human-readable description of each rejection.
pub open spec fn configuration_error_message(e: ConfigurationError) -> Seq<char> {
    match e {
        ConfigurationError::TooLarge => "deployment exceeds bounded size"@,
        ConfigurationError::InvalidUtf8 => "runtime.toml must be UTF-8 without BOM"@,
        ConfigurationError::SyntaxBound(r) => "runtime.toml "@ + r@,
        ConfigurationError::InvalidToml(r) => "invalid runtime.toml: "@ + r@,
        ConfigurationError::InvalidConfiguration(r) => "invalid deployment: "@ + r@,
        ConfigurationError::InvalidArtifact(r) => "invalid deployment artifact: "@ + r@,
    }
}

impl ConfigurationError {
    /// Human-readable description.
    pub fn message(&self) -> (m: String)
        ensures
            m@ == configuration_error_message(*self),
    {
        match self {
            ConfigurationError::TooLarge => "deployment exceeds bounded size".to_owned(),
            ConfigurationError::InvalidUtf8 => "runtime.toml must be UTF-8 without BOM".to_owned(),
            ConfigurationError::SyntaxBound(r) => concat("runtime.toml ", r),
            ConfigurationError::InvalidToml(r) => concat("invalid runtime.toml: ", r.as_str()),
            ConfigurationError::InvalidConfiguration(r) => concat("invalid deployment: ", r.as_str()),
            ConfigurationError::InvalidArtifact(r) => concat(
                "invalid deployment artifact: ",
                r.as_str(),
            ),
        }
    }
}

/// The first `MESSAGE_CHARS` characters of a diagnostic.
pub fn bounded_message(message: &str) -> (out: String)
    ensures
        out@ == capped(message@),
{
    char_prefix(message, MESSAGE_CHARS)
}

/// An ASCII letter.
pub open spec fn is_letter(b: u8) -> bool {
    (97 <= b <= 122) || (65 <= b <= 90)
}

/// A byte allowed after the first one of a logical key.
pub open spec fn is_key_byte(b: u8) -> bool {
    is_letter(b) || (48 <= b <= 57) || b == 95 || b == 45
}

/// A logical key: 1..=64 bytes, an ASCII letter followed by letters, digits, `_`, `-`.
pub open spec fn key_valid(bytes: Seq<u8>) -> bool {
    &&& 1 <= bytes.len() <= 64
    &&& is_letter(bytes[0])
    &&& forall|i: int| 1 <= i < bytes.len() ==> is_key_byte(#[trigger] bytes[i])
}

/// Validate a stable logical key.
pub fn validate_key(key: &str) -> (r: Result<(), ConfigurationError>)
    ensures
        r is Ok <==> key_valid(key.spec_bytes()),
        r is Err ==> rejects(r, "invalid logical key"@),
{
    let bytes = key.as_bytes();
    if bytes.len() == 0 || bytes.len() > 64 {
        return Err(ConfigurationError::invalid("invalid logical key"));
    }
    let first = bytes[0];
    let mut ok = (97 <= first && first <= 122) || (65 <= first && first <= 90);
    let mut i: usize = 1;
    while i < bytes.len()
        invariant
            1 <= i <= bytes@.len() <= 64,
            ok == (is_letter(bytes@[0]) && forall|j: int| 1 <= j < i ==> is_key_byte(#[trigger] bytes@[j])),
        decreases bytes@.len() - i,
    {
        let b = bytes[i];
        let good = (97 <= b && b <= 122) || (65 <= b && b <= 90) || (48 <= b && b <= 57) || b == 95
            || b == 45;
        proof {
            assert(good == is_key_byte(bytes@[i as int]));
            if ok && good {
                assert forall|j: int| 1 <= j < i + 1 implies is_key_byte(#[trigger] bytes@[j]) by {
                    if j == i {
                    }
                }
            }
        }
        ok = ok && good;
        i += 1;
    }
    if !ok {
        return Err(ConfigurationError::invalid("invalid logical key"));
    }
    Ok(())
}

/// A display name: not blank and at most 128 bytes of UTF-8.
pub open spec fn display_name_valid(name: Seq<char>) -> bool {
    trimmed(name).len() > 0 && vstd::utf8::encode_utf8(name).len() <= 128
}

/// Validate a human-readable display name.
pub fn validate_display_name(name: &str) -> (r: Result<(), ConfigurationError>)
    ensures
        r is Ok <==> display_name_valid(name@),
        r is Err ==> rejects(r, "invalid display name"@),
{
    let t = trim(name);
    let blank = t.as_str().is_empty();
    assert(blank == (trimmed(name@).len() == 0));
    if blank || name.as_bytes().len() > 128 {
        return Err(ConfigurationError::invalid("invalid display name"));
    }
    Ok(())
}

/// Validate that an identity is nonzero.
pub fn validate_nonzero(value: u64, label: &str) -> (r: Result<(), ConfigurationError>)
    ensures
        r is Ok <==> value != 0,
        r is Err ==> rejects(r, label@ + " must be nonzero"@),
{
    if value == 0 {
        let message = concat(label, " must be nonzero");
        return Err(ConfigurationError::invalid(message.as_str()));
    }
    Ok(())
}

/// Validate a schedule period in milliseconds.
pub fn validate_period(value: u64, label: &str) -> (r: Result<(), ConfigurationError>)
    ensures
        r is Ok <==> 1 <= value <= 60000,
        r is Err ==> rejects(r, label@ + " must be 1..=60000 ms"@),
{
    if !(1 <= value && value <= 60000) {
        let message = concat(label, " must be 1..=60000 ms");
        return Err(ConfigurationError::invalid(message.as_str()));
    }
    Ok(())
}

/// Validate a bounded transaction duration in milliseconds.
pub fn validate_transaction_time(value: u64, label: &str) -> (r: Result<(), ConfigurationError>)
    ensures
        r is Ok <==> 1 <= value <= 60000,
        r is Err ==> rejects(r, label@ + " must be 1..=60000 ms"@),
{
    if !(1 <= value && value <= 60000) {
        let message = concat(label, " must be 1..=60000 ms");
        return Err(ConfigurationError::invalid(message.as_str()));
    }
    Ok(())
}

/// Validate a bounded recent-history capacity.
pub fn validate_history(value: usize) -> (r: Result<(), ConfigurationError>)
    ensures
        r is Ok <==> 1 <= value <= 1024,
        r is Err ==> rejects(r, "history capacity out of range"@),
{
    if !(1 <= value && value <= 1024) {
        return Err(ConfigurationError::invalid("history capacity out of range"));
    }
    Ok(())
}

/// Value of a string of ASCII decimal digits.
pub open spec fn digits_value(s: Seq<char>) -> nat
    decreases s.len(),
{
    if s.len() == 0 {
        0
    } else {
        digits_value(s.drop_last()) * 10 + (s.last() as nat - 48) as nat
    }
}

/// An ASCII decimal digit.
pub open spec fn is_digit_char(c: char) -> bool {
    '0' <= c <= '9'
}

/// Every character is an ASCII decimal digit.
pub open spec fn all_digits(s: Seq<char>) -> bool {
    forall|i: int| 0 <= i < s.len() ==> is_digit_char(#[trigger] s[i])
}

/// `u16::from_str`: an optional `+`, then one or more ASCII digits whose value fits.
pub open spec fn parse_u16(s: Seq<char>) -> Option<u16> {
    let body = u16_body(s);
    if body.len() >= 1 && all_digits(body) && digits_value(body) <= 65535 {
        Some(digits_value(body) as u16)
    } else {
        None
    }
}

/// The text after a `COM` or `com` prefix, when present.
pub open spec fn com_digits(t: Seq<char>) -> Option<Seq<char>> {
    if t.len() >= 3 && ((t[0] == 'C' && t[1] == 'O' && t[2] == 'M') || (t[0] == 'c' && t[1] == 'o'
        && t[2] == 'm')) {
        Some(t.subrange(3, t.len() as int))
    } else {
        None
    }
}

/// The digits `u16::from_str` reads: the text after an optional leading `+`.
pub open spec fn u16_body(s: Seq<char>) -> Seq<char> {
    if s.len() > 0 && s[0] == '+' {
        s.subrange(1, s.len() as int)
    } else {
        s
    }
}

proof fn lemma_parse_rejects_nondigit(s: Seq<char>, k: int)
    requires
        0 <= k < u16_body(s).len(),
        !is_digit_char(u16_body(s)[k]),
    ensures
        parse_u16(s) is None,
{
    assert(!all_digits(u16_body(s)));
}

proof fn lemma_parse_rejects_large(s: Seq<char>, k: int)
    requires
        0 <= k <= u16_body(s).len(),
        digits_value(u16_body(s).subrange(0, k)) > 65535,
    ensures
        parse_u16(s) is None,
{
    lemma_digit_prefix_grows(u16_body(s), k);
    if all_digits(u16_body(s)) {
        assert(digits_value(u16_body(s)) > 65535);
    }
}

/// Parse the decimal number after an optional `+`.
fn parse_port_number(s: &str) -> (r: Option<u16>)
    ensures
        r == parse_u16(s@),
{
    let n = s.unicode_len();
    let mut start: usize = 0;
    if n > 0 && s.get_char(0) == '+' {
        start = 1;
    }
    let ghost body = if s@.len() > 0 && s@[0] == '+' {
        s@.subrange(1, s@.len() as int)
    } else {
        s@
    };
    if start >= n {
        return None;
    }
    let mut value: u32 = 0;
    let mut i: usize = start;
    while i < n
        invariant
            n == s@.len(),
            start <= i <= n,
            body == s@.subrange(start as int, n as int),
            body == (if s@.len() > 0 && s@[0] == '+' {
                s@.subrange(1, s@.len() as int)
            } else {
                s@
            }),
            forall|j: int| 0 <= j < i - start ==> is_digit_char(#[trigger] body[j]),
            value == digits_value(body.subrange(0, i - start)),
            value <= 65535,
        decreases n - i,
    {
        let c = s.get_char(i);
        if !('0' <= c && c <= '9') {
            proof {
                assert(body[i - start] == c);
                lemma_parse_rejects_nondigit(s@, i - start);
            }
            return None;
        }
        let d: u32 = (c as u32) - 48;
        proof {
            assert(body.subrange(0, i + 1 - start).drop_last() =~= body.subrange(0, i - start));
            assert(body[i - start] == c);
        }
        if value > 6553 || (value == 6553 && d > 5) {
            proof {
                let prefix = body.subrange(0, i + 1 - start);
                assert(digits_value(prefix) == value * 10 + d);
                assert(digits_value(prefix) > 65535);
                // A longer digit string is never smaller than its prefix.
                lemma_parse_rejects_large(s@, (i + 1 - start) as int);
            }
            return None;
        }
        value = value * 10 + d;
        i += 1;
    }
    proof {
        assert(body.subrange(0, n - start) =~= body);
    }
    Some(value as u16)
}

/// A digit string's value is at least that of any of its prefixes.
proof fn lemma_digit_prefix_grows(s: Seq<char>, k: int)
    requires
        0 <= k <= s.len(),
    ensures
        all_digits(s) ==> digits_value(s) >= digits_value(s.subrange(0, k)),
    decreases s.len() - k,
{
    if k < s.len() {
        lemma_digit_prefix_grows(s, k + 1);
        if all_digits(s) {
            let p = s.subrange(0, k + 1);
            assert(p.drop_last() =~= s.subrange(0, k));
            assert(is_digit_char(s[k]));
            assert(digits_value(p) >= digits_value(s.subrange(0, k)) * 10);
        }
    } else {
        assert(s.subrange(0, k) =~= s);
    }
}

/// Canonical spelling of a Windows serial port: `COM` and its number.
pub open spec fn normalized_port(port: Seq<char>) -> Option<Seq<char>> {
    match com_digits(trimmed(port)) {
        Some(digits) => match parse_u16(digits) {
            Some(n) => if n == 0 {
                None
            } else {
                Some("COM"@ + ascii_chars(decimal(n as nat)))
            },
            None => None,
        },
        None => None,
    }
}

/// Normalize a Windows serial port name (`COM<number>`, case of the prefix either
/// all upper or all lower) so duplicate bindings are detected.
pub fn normalize_port(port: &str) -> (r: Result<String, ConfigurationError>)
    ensures
        com_digits(trimmed(port@)) is None ==> rejects(r, "Windows port must be COM<number>"@),
        com_digits(trimmed(port@)) is Some && normalized_port(port@) is None ==> rejects(
            r,
            "invalid COM port"@,
        ),
        normalized_port(port@) is Some ==> r is Ok && r->Ok_0@ == normalized_port(port@)->Some_0,
{
    let t = trim(port);
    let ts = t.as_str();
    let n = ts.unicode_len();
    let prefixed = n >= 3 && ((ts.get_char(0) == 'C' && ts.get_char(1) == 'O' && ts.get_char(2)
        == 'M') || (ts.get_char(0) == 'c' && ts.get_char(1) == 'o' && ts.get_char(2) == 'm'));
    if !prefixed {
        return Err(ConfigurationError::invalid("Windows port must be COM<number>"));
    }
    let digits = ts.substring_char(3, n);
    match parse_port_number(digits) {
        Some(number) => {
            if number == 0 {
                return Err(ConfigurationError::invalid("invalid COM port"));
            }
            let rendered = decimal_string(number as u64);
            let out = concat("COM", rendered.as_str());
            Ok(out)
        },
        None => Err(ConfigurationError::invalid("invalid COM port")),
    }
}

/// One step of the TOML pre-scan over `(depth, values, in_basic, in_literal, escaped)`.
pub open spec fn prescan_step(s: (int, int, bool, bool, bool), byte: u8) -> Result<
    (int, int, bool, bool, bool),
    PrescanBound,
> {
    let (depth, values, in_basic, in_literal, escaped) = s;
    if in_basic {
        if escaped {
            Ok((depth, values, true, in_literal, false))
        } else if byte == 92 {
            Ok((depth, values, true, in_literal, true))
        } else if byte == 34 {
            Ok((depth, values, false, in_literal, false))
        } else {
            Ok(s)
        }
    } else if in_literal {
        if byte == 39 {
            Ok((depth, values, in_basic, false, escaped))
        } else {
            Ok(s)
        }
    } else if byte == 34 {
        Ok((depth, values, true, in_literal, escaped))
    } else if byte == 39 {
        Ok((depth, values, in_basic, true, escaped))
    } else if byte == 91 || byte == 123 {
        if depth + 1 > MAX_RUNTIME_TOML_DEPTH {
            Err(PrescanBound::Nesting)
        } else {
            Ok((depth + 1, values, in_basic, in_literal, escaped))
        }
    } else if byte == 93 || byte == 125 {
        Ok((if depth > 0 { depth - 1 } else { 0 }, values, in_basic, in_literal, escaped))
    } else if byte == 61 {
        if values + 1 > MAX_RUNTIME_TOML_VALUES {
            Err(PrescanBound::Values)
        } else {
            Ok((depth, values + 1, in_basic, in_literal, escaped))
        }
    } else {
        Ok(s)
    }
}

/// Which cheap syntactic bound the pre-scan hit first.
#[derive(Clone, Copy, Debug, PartialEq, Eq, Structural)]
pub enum PrescanBound {
    /// Brackets and braces outside strings nest deeper than eight.
    Nesting,
    /// More than 4096 `=` signs outside strings.
    Values,
}

/// The pre-scan run over a prefix: the first bound hit, or the final state.
pub open spec fn prescan_run(bytes: Seq<u8>) -> Result<(int, int, bool, bool, bool), PrescanBound>
    decreases bytes.len(),
{
    if bytes.len() == 0 {
        Ok((0, 0, false, false, false))
    } else {
        match prescan_run(bytes.drop_last()) {
            Ok(s) => prescan_step(s, bytes.last()),
            Err(e) => Err(e),
        }
    }
}

/// `r` is the admission outcome of a pre-scan that ended in `run`.
pub open spec fn prescan_outcome(
    r: Result<(), ConfigurationError>,
    run: Result<(int, int, bool, bool, bool), PrescanBound>,
) -> bool {
    match run {
        Ok(_) => r is Ok,
        Err(PrescanBound::Nesting) => r matches Err(ConfigurationError::SyntaxBound(m))
            && m@ == "nesting exceeds 8"@,
        Err(PrescanBound::Values) => r matches Err(ConfigurationError::SyntaxBound(m))
            && m@ == "value count exceeds 4096"@,
    }
}

/// Bound nesting and assignment count with a string-aware byte scan before any
/// TOML deserialization.
pub fn prescan(text: &str) -> (r: Result<(), ConfigurationError>)
    ensures
        prescan_outcome(r, prescan_run(text.spec_bytes())),
{
    let bytes = text.as_bytes();
    let mut depth: usize = 0;
    let mut values: usize = 0;
    let mut in_basic = false;
    let mut in_literal = false;
    let mut escaped = false;
    let mut i: usize = 0;
    while i < bytes.len()
        invariant
            bytes@ == text.spec_bytes(),
            i <= bytes@.len(),
            depth <= MAX_RUNTIME_TOML_DEPTH,
            values <= MAX_RUNTIME_TOML_VALUES,
            prescan_run(bytes@.subrange(0, i as int)) == Ok::<(int, int, bool, bool, bool), PrescanBound>(
                (depth as int, values as int, in_basic, in_literal, escaped),
            ),
        decreases bytes@.len() - i,
    {
        let byte = bytes[i];
        proof {
            assert(bytes@.subrange(0, i + 1).drop_last() =~= bytes@.subrange(0, i as int));
            assert(bytes@.subrange(0, i + 1).last() == byte);
        }
        if in_basic {
            if escaped {
                escaped = false;
            } else if byte == 92 {
                escaped = true;
            } else if byte == 34 {
                in_basic = false;
            }
        } else if in_literal {
            if byte == 39 {
                in_literal = false;
            }
        } else if byte == 34 {
            in_basic = true;
        } else if byte == 39 {
            in_literal = true;
        } else if byte == 91 || byte == 123 {
            if depth + 1 > MAX_RUNTIME_TOML_DEPTH {
                proof {
                    assert(prescan_run(bytes@.subrange(0, i + 1)) == Err::<(int, int, bool, bool, bool), PrescanBound>(PrescanBound::Nesting));
                    lemma_prescan_error_sticks(bytes@, (i + 1) as int);
                }
                return Err(ConfigurationError::SyntaxBound("nesting exceeds 8"));
            }
            depth = depth + 1;
        } else if byte == 93 || byte == 125 {
            depth = if depth > 0 { depth - 1 } else { 0 };
        } else if byte == 61 {
            if values + 1 > MAX_RUNTIME_TOML_VALUES {
                proof {
                    assert(prescan_run(bytes@.subrange(0, i + 1)) == Err::<(int, int, bool, bool, bool), PrescanBound>(PrescanBound::Values));
                    lemma_prescan_error_sticks(bytes@, (i + 1) as int);
                }
                return Err(ConfigurationError::SyntaxBound("value count exceeds 4096"));
            }
            values = values + 1;
        }
        i += 1;
    }
    proof {
        assert(bytes@.subrange(0, bytes@.len() as int) =~= bytes@);
    }
    Ok(())
}

/// Once the pre-scan hits a bound on a prefix, the whole scan reports that bound.
proof fn lemma_prescan_error_sticks(bytes: Seq<u8>, k: int)
    requires
        0 <= k <= bytes.len(),
        prescan_run(bytes.subrange(0, k)) is Err,
    ensures
        prescan_run(bytes) == prescan_run(bytes.subrange(0, k)),
    decreases bytes.len() - k,
{
    if k == bytes.len() {
        assert(bytes.subrange(0, k) =~= bytes);
    } else {
        assert(bytes.subrange(0, k + 1).drop_last() =~= bytes.subrange(0, k));
        lemma_prescan_error_sticks(bytes, k + 1);
    }
}

#[verifier::external_type_specification]
#[verifier::external_body]
pub struct ExPathBuf(PathBuf);

/// `PathBuf::clone`: a copy of the path. Nothing is stated of the copy: paths carry
/// no view here.
pub assume_specification[ <PathBuf as Clone>::clone ](path: &PathBuf) -> (copy: PathBuf);

/// `PathBuf` equality (component-wise, as the platform parses paths). `PathBuf` is
/// `Eq`, so a path equals itself; how unequal values compare depends on how the
/// platform splits paths into components, which is not stated.
#[verifier::external_body]
fn path_equal(a: &PathBuf, b: &PathBuf) -> (r: bool)
    ensures
        *a == *b ==> r,
{
    a == b
}

/// Kind of a frozen artifact.
#[derive(Clone, Copy, Debug, PartialEq, Eq, Structural)]
pub enum ArtifactKind {
    /// A declarative physical instrument definition.
    InstrumentDefinition,
    /// A managed-component source file.
    ManagedComponentSource,
}

/// Immutable exact content loaded for one declared source or definition.
#[derive(Clone, Debug)]
pub struct FrozenArtifact {
    kind: ArtifactKind,
    declared_path: PathBuf,
    bytes: Vec<u8>,
    sha256: [u8; 32],
}

impl FrozenArtifact {
    /// Exact admitted bytes.
    pub closed spec fn spec_bytes(&self) -> Seq<u8> {
        self.bytes@
    }

    /// Recorded digest.
    pub closed spec fn spec_hash(&self) -> Seq<u8> {
        self.sha256@
    }

    /// Artifact kind.
    pub closed spec fn spec_kind(&self) -> ArtifactKind {
        self.kind
    }

    /// The resolved path the artifact was read from.
    pub closed spec fn spec_declared_path(&self) -> PathBuf {
        self.declared_path
    }

    /// The recorded digest is the SHA-256 of the exact bytes.
    pub open spec fn wf(&self) -> bool {
        self.spec_hash() == sha256(self.spec_bytes())
    }

    /// Exact admitted bytes; callers never reconstruct them from the pathname.
    pub fn bytes(&self) -> (b: &[u8])
        ensures
            b@ == self.spec_bytes(),
    {
        self.bytes.as_slice()
    }

    /// SHA-256 identity of the exact admitted bytes.
    pub fn hash(&self) -> (h: [u8; 32])
        ensures
            h@ == self.spec_hash(),
    {
        self.sha256
    }

    /// Original resolved path retained only as metadata.
    pub fn declared_path(&self) -> (p: &PathBuf)
        ensures
            *p == self.spec_declared_path(),
    {
        &self.declared_path
    }

    /// Artifact kind.
    pub fn kind(&self) -> (k: ArtifactKind)
        ensures
            k == self.spec_kind(),
    {
        self.kind
    }
}

/// Compare two digests.
pub fn digest_equals(a: &[u8; 32], b: &[u8; 32]) -> (r: bool)
    ensures
        r == (a@ == b@),
{
    let mut i: usize = 0;
    while i < 32
        invariant
            a@.len() == 32,
            b@.len() == 32,
            i <= 32,
            forall|j: int| 0 <= j < i ==> a@[j] == b@[j],
        decreases 32 - i,
    {
        if a[i] != b[i] {
            return false;
        }
        i += 1;
    }
    proof {
        assert(a@ =~= b@);
    }
    true
}

/// Fully validated typed deployment used to build a staged Runtime candidate.
#[derive(Clone, Debug)]
pub struct EffectiveDeployment {
    dto: DeploymentDto,
}

impl EffectiveDeployment {
    /// The validated document.
    pub closed spec fn spec_dto(&self) -> DeploymentDto {
        self.dto
    }

    /// The validated document.
    pub fn dto(&self) -> (d: &DeploymentDto)
        ensures
            *d == self.spec_dto(),
    {
        &self.dto
    }

    /// Requested loopback port.
    pub fn server_port(&self) -> (port: u16)
        ensures
            port == self.spec_dto().server.port,
    {
        self.dto.server.port
    }

    /// Stable cross-boot deployment key.
    pub fn runtime_key(&self) -> (key: &str)
        ensures
            key@ == self.spec_dto().runtime.key@,
    {
        self.dto.runtime.key.as_str()
    }

    /// Whether durable recording is configured.
    pub fn recording_enabled(&self) -> (enabled: bool)
        ensures
            enabled == self.spec_dto().recording.enabled,
    {
        self.dto.recording.enabled
    }

    /// Number of declared physical resources.
    pub fn resource_count(&self) -> (count: usize)
        ensures
            count == self.spec_dto().resources@.len(),
    {
        self.dto.resources.len()
    }
}

/// Exact loaded source set plus its validated effective meaning.
#[derive(Clone, Debug)]
pub struct FrozenDeployment {
    base: PathBuf,
    toml_bytes: Vec<u8>,
    toml_hash: [u8; 32],
    effective: EffectiveDeployment,
    artifacts: Vec<FrozenArtifact>,
}

/// Which effects a change from an active deployment to a candidate requires.
#[derive(Clone, Copy, Debug, Default, PartialEq, Eq, Structural)]
pub struct DeploymentChanges {
    /// Identity, listener, recording or topology changed: live apply is unsupported.
    pub restart_required: bool,
    /// Display or provenance identity changed.
    pub live_safe: bool,
    /// A cadence changed.
    pub ordinary_live: bool,
    /// A virtual model or managed component must reset.
    pub reinitialize: bool,
    /// A physical binding must be replaced.
    pub rebind: bool,
    /// Dependent controllers must stop and warm again.
    pub controller_rewarm: bool,
    /// Output authority must be revoked behind a safe barrier first.
    pub safe_barrier: bool,
}

/// Two instruments have the same identity, key and kind.
pub open spec fn instrument_topology_entry_same(a: InstrumentDto, b: InstrumentDto) -> bool {
    a.spec_id() == b.spec_id() && a.spec_key() == b.spec_key() && a.spec_kind() == b.spec_kind()
}

/// Two resources have the same identity, key and kind.
pub open spec fn resource_topology_entry_same(a: ResourceDto, b: ResourceDto) -> bool {
    a.id == b.id && a.key@ == b.key@ && a.kind == b.kind
}

/// Instrument identity, key and kind agree position by position.
pub open spec fn instrument_topology_same(a: Seq<InstrumentDto>, b: Seq<InstrumentDto>) -> bool {
    &&& a.len() == b.len()
    &&& forall|i: int| 0 <= i < a.len() ==> #[trigger] instrument_topology_entry_same(a[i], b[i])
}

/// Resource identity, key and kind agree position by position.
pub open spec fn resource_topology_same(a: Seq<ResourceDto>, b: Seq<ResourceDto>) -> bool {
    &&& a.len() == b.len()
    &&& forall|i: int| 0 <= i < a.len() ==> #[trigger] resource_topology_entry_same(a[i], b[i])
}

/// Changes that live apply does not support.
pub open spec fn spec_restart_required(old: DeploymentDto, new: DeploymentDto) -> bool {
    ||| old.runtime.key@ != new.runtime.key@
    ||| !old.server.same(&new.server)
    ||| !old.recording.same(&new.recording)
    ||| !instrument_topology_same(old.instruments@, new.instruments@)
    ||| !resource_topology_same(old.resources@, new.resources@)
    ||| old.managed_components@.len() != new.managed_components@.len()
    ||| old.references@.len() != new.references@.len()
    ||| old.controllers@.len() != new.controllers@.len()
    ||| old.safe_profiles@.len() != new.safe_profiles@.len()
}

/// Some instrument at a common position changed its acquisition period.
pub open spec fn spec_ordinary_live(old: Seq<InstrumentDto>, new: Seq<InstrumentDto>) -> bool {
    exists|i: int| 0 <= i < old.len() && i < new.len() && #[trigger] old[i].spec_poll_period_ms()
        != new[i].spec_poll_period_ms()
}

/// Some Metakon instrument at a common position changed.
pub open spec fn spec_metakon_changed(old: Seq<InstrumentDto>, new: Seq<InstrumentDto>) -> bool {
    exists|i: int| 0 <= i < old.len() && i < new.len() && #[trigger] old[i].spec_kind()
        == InstrumentKind::Metakon && new[i].spec_kind() == InstrumentKind::Metakon && !old[i].same(
        &new[i],
    )
}

/// Some virtual or thermal instrument at a common position changed beyond its live
/// fields.
pub open spec fn spec_model_changed(old: Seq<InstrumentDto>, new: Seq<InstrumentDto>) -> bool {
    exists|i: int| 0 <= i < old.len() && i < new.len() && {
        let same_kind = (#[trigger] old[i].spec_kind() == InstrumentKind::ThermalPlant
            && new[i].spec_kind() == InstrumentKind::ThermalPlant) || (old[i].spec_kind()
            == InstrumentKind::VirtualMeasurement && new[i].spec_kind()
            == InstrumentKind::VirtualMeasurement);
        same_kind && !old[i].spec_same_without_live_fields(&new[i])
    }
}

/// Definition artifacts, in order.
pub open spec fn definitions(artifacts: Seq<FrozenArtifact>) -> Seq<FrozenArtifact> {
    artifacts.filter(|a: FrozenArtifact| a.spec_kind() == ArtifactKind::InstrumentDefinition)
}

/// The frozen definitions differ in count or in content at some position.
pub open spec fn definition_content_changed(old: Seq<FrozenArtifact>, new: Seq<FrozenArtifact>) -> bool {
    let a = definitions(old);
    let b = definitions(new);
    a.len() != b.len() || exists|i: int| 0 <= i < a.len() && #[trigger] a[i].spec_hash() != b[i].spec_hash()
}

/// The frozen definitions agree in count, and some position records a different
/// resolved path.
pub open spec fn definition_paths_differ(old: Seq<FrozenArtifact>, new: Seq<FrozenArtifact>) -> bool {
    let a = definitions(old);
    let b = definitions(new);
    a.len() == b.len() && exists|i: int| 0 <= i < a.len() && #[trigger] a[i].spec_declared_path()
        != b[i].spec_declared_path()
}

/// What `changes_from` guarantees of the effects computed for moving from `active` to
/// `candidate`.
pub open spec fn changes_admissible(c: DeploymentChanges, candidate: FrozenDeployment, active: FrozenDeployment) -> bool {
    let old = active.spec_dto();
    let new = candidate.spec_dto();
    &&& c.restart_required == spec_restart_required(old, new)
    &&& c.live_safe == (candidate.spec_toml_hash() != active.spec_toml_hash()
        || old.runtime.display_name@ != new.runtime.display_name@)
    &&& c.ordinary_live == spec_ordinary_live(old.instruments@, new.instruments@)
    &&& c.reinitialize == (spec_model_changed(old.instruments@, new.instruments@)
        || !all_same(old.managed_components@, new.managed_components@))
    &&& (!all_same(old.resources@, new.resources@)
        || spec_metakon_changed(old.instruments@, new.instruments@)
        || definition_content_changed(active.spec_artifacts(), candidate.spec_artifacts())
        ==> c.rebind)
    &&& (c.rebind ==> !all_same(old.resources@, new.resources@)
        || spec_metakon_changed(old.instruments@, new.instruments@)
        || definition_content_changed(active.spec_artifacts(), candidate.spec_artifacts())
        || definition_paths_differ(active.spec_artifacts(), candidate.spec_artifacts()))
    &&& c.controller_rewarm == (c.reinitialize || c.rebind
        || !all_same(old.references@, new.references@)
        || !all_same(old.controllers@, new.controllers@))
    &&& c.safe_barrier == (c.controller_rewarm || !all_same(old.safe_profiles@, new.safe_profiles@))
}

/// Every float-bearing record of the document equals itself: no value is NaN.
pub open spec fn records_reflexive(dto: DeploymentDto) -> bool {
    &&& all_same(dto.managed_components@, dto.managed_components@)
    &&& all_same(dto.references@, dto.references@)
    &&& all_same(dto.controllers@, dto.controllers@)
    &&& all_same(dto.safe_profiles@, dto.safe_profiles@)
    &&& !spec_model_changed(dto.instruments@, dto.instruments@)
}

/// A deployment compared with itself requires no effect at all, provided its
/// records equal themselves.
pub proof fn law_unchanged_deployment_changes_nothing(d: FrozenDeployment, c: DeploymentChanges)
    requires
        changes_admissible(c, d, d),
        records_reflexive(d.spec_dto()),
    ensures
        c == (DeploymentChanges {
            restart_required: false,
            live_safe: false,
            ordinary_live: false,
            reinitialize: false,
            rebind: false,
            controller_rewarm: false,
            safe_barrier: false,
        }),
{
    let dto = d.spec_dto();
    assert(instrument_topology_same(dto.instruments@, dto.instruments@));
    assert(resource_topology_same(dto.resources@, dto.resources@));
    assert(all_same(dto.resources@, dto.resources@));
    assert(!spec_metakon_changed(dto.instruments@, dto.instruments@)) by {
        if spec_metakon_changed(dto.instruments@, dto.instruments@) {
            let i = choose|i: int| 0 <= i < dto.instruments@.len() && i < dto.instruments@.len()
                && #[trigger] dto.instruments@[i].spec_kind() == InstrumentKind::Metakon
                && dto.instruments@[i].spec_kind() == InstrumentKind::Metakon
                && !dto.instruments@[i].same(&dto.instruments@[i]);
            assert(dto.instruments@[i].same(&dto.instruments@[i]));
        }
    }
    assert(!definition_content_changed(d.spec_artifacts(), d.spec_artifacts()));
    assert(!definition_paths_differ(d.spec_artifacts(), d.spec_artifacts()));
}

impl FrozenDeployment {
    /// Exact TOML bytes.
    pub closed spec fn spec_toml_bytes(&self) -> Seq<u8> {
        self.toml_bytes@
    }

    /// Digest of the TOML bytes.
    pub closed spec fn spec_toml_hash(&self) -> Seq<u8> {
        self.toml_hash@
    }

    /// Validated document.
    pub closed spec fn spec_dto(&self) -> DeploymentDto {
        self.effective.spec_dto()
    }

    /// Frozen artifacts.
    pub closed spec fn spec_artifacts(&self) -> Seq<FrozenArtifact> {
        self.artifacts@
    }

    /// Directory against which relative artifact paths are resolved.
    pub closed spec fn spec_base(&self) -> PathBuf {
        self.base
    }

    /// The artifact count and the retained bytes are within the deployment limits.
    pub open spec fn within_limits(&self) -> bool {
        &&& self.spec_artifacts().len() <= MAX_DEPLOYMENT_ARTIFACTS
        &&& retained_total(self.spec_toml_bytes().len() as int, self.spec_artifacts())
            <= MAX_DEPLOYMENT_BYTES
    }

    /// Every recorded digest matches its exact bytes.
    pub open spec fn wf(&self) -> bool {
        &&& self.spec_toml_hash() == sha256(self.spec_toml_bytes())
        &&& forall|i: int| 0 <= i < self.spec_artifacts().len() ==> #[trigger] self.spec_artifacts()[i].wf()
    }

    /// Exact `runtime.toml` bytes accepted by validation.
    pub fn toml_bytes(&self) -> (b: &[u8])
        ensures
            b@ == self.spec_toml_bytes(),
    {
        self.toml_bytes.as_slice()
    }

    /// SHA-256 identity of the exact TOML bytes.
    pub fn toml_hash(&self) -> (h: [u8; 32])
        ensures
            h@ == self.spec_toml_hash(),
    {
        self.toml_hash
    }

    /// Fully validated typed effective deployment.
    pub fn effective(&self) -> (e: &EffectiveDeployment)
        ensures
            e.spec_dto() == self.spec_dto(),
    {
        &self.effective
    }

    /// Referenced definitions and sources frozen during validation.
    pub fn artifacts(&self) -> (a: &[FrozenArtifact])
        ensures
            a@ == self.spec_artifacts(),
    {
        self.artifacts.as_slice()
    }

    /// Provenance entries `(kind, encoding, content)`: the TOML first, then every
    /// artifact in order.
    pub fn provenance_entries(&self) -> (entries: Vec<(String, String, Vec<u8>)>)
        ensures
            entries@.len() == self.spec_artifacts().len() + 1,
            entries@[0].0@ == "runtime_toml"@,
            entries@[0].1@ == "utf8"@,
            entries@[0].2@ == self.spec_toml_bytes(),
            forall|i: int| 0 <= i < self.spec_artifacts().len() ==> {
                &&& (#[trigger] entries@[i + 1]).0@ == (if self.spec_artifacts()[i].spec_kind()
                    == ArtifactKind::InstrumentDefinition {
                    "instrument_definition"@
                } else {
                    "managed_component_source"@
                })
                &&& entries@[i + 1].1@ == "utf8"@
                &&& entries@[i + 1].2@ == self.spec_artifacts()[i].spec_bytes()
            },
    {
        let mut entries: Vec<(String, String, Vec<u8>)> = Vec::new();
        entries.push(("runtime_toml".to_owned(), "utf8".to_owned(), self.toml_bytes.clone()));
        let mut i: usize = 0;
        while i < self.artifacts.len()
            invariant
                i <= self.artifacts@.len(),
                entries@.len() == i + 1,
                entries@[0].0@ == "runtime_toml"@,
                entries@[0].1@ == "utf8"@,
                entries@[0].2@ == self.toml_bytes@,
                forall|j: int| 0 <= j < i ==> {
                    &&& (#[trigger] entries@[j + 1]).0@ == (if self.artifacts@[j].kind
                        == ArtifactKind::InstrumentDefinition {
                        "instrument_definition"@
                    } else {
                        "managed_component_source"@
                    })
                    &&& entries@[j + 1].1@ == "utf8"@
                    &&& entries@[j + 1].2@ == self.artifacts@[j].bytes@
                },
            decreases self.artifacts@.len() - i,
        {
            let artifact = &self.artifacts[i];
            let kind = match artifact.kind {
                ArtifactKind::InstrumentDefinition => "instrument_definition",
                ArtifactKind::ManagedComponentSource => "managed_component_source",
            };
            entries.push((kind.to_owned(), "utf8".to_owned(), artifact.bytes.clone()));
            i += 1;
        }
        entries
    }

    /// Effects required to move from `active` to this candidate.
    pub fn changes_from(&self, active: &Self) -> (changes: DeploymentChanges)
        ensures
            changes_admissible(changes, *self, *active),
    {
        let old = &active.effective.dto;
        let new = &self.effective.dto;
        let restart_required = restart_needed(old, new);
        let live_safe = !digest_equals(&self.toml_hash, &active.toml_hash)
            || !(old.runtime.display_name == new.runtime.display_name);
        let ordinary_live = cadence_changed(&old.instruments, &new.instruments);
        let rebind = !vec_equals(&old.resources, &new.resources) || definitions_changed(
            &active.artifacts,
            &self.artifacts,
        ) || metakon_changed(&old.instruments, &new.instruments);
        let reinitialize = model_changed(&old.instruments, &new.instruments) || !vec_equals(
            &old.managed_components,
            &new.managed_components,
        );
        let controller_rewarm = reinitialize || rebind || !vec_equals(
            &old.references,
            &new.references,
        ) || !vec_equals(&old.controllers, &new.controllers);
        let safe_barrier = controller_rewarm || !vec_equals(&old.safe_profiles, &new.safe_profiles);
        DeploymentChanges {
            restart_required,
            live_safe,
            ordinary_live,
            reinitialize,
            rebind,
            controller_rewarm,
            safe_barrier,
        }
    }
}

fn restart_needed(old: &DeploymentDto, new: &DeploymentDto) -> (r: bool)
    ensures
        r == spec_restart_required(*old, *new),
{
    if !(old.runtime.key == new.runtime.key) || !old.server.equals(&new.server)
        || !old.recording.equals(&new.recording) {
        return true;
    }
    if old.instruments.len() != new.instruments.len() {
        return true;
    }
    let mut i: usize = 0;
    while i < old.instruments.len()
        invariant
            old.instruments@.len() == new.instruments@.len(),
            i <= old.instruments@.len(),
            forall|j: int| 0 <= j < i ==> #[trigger] instrument_topology_entry_same(old.instruments@[j], new.instruments@[j]),
        decreases old.instruments@.len() - i,
    {
        let a = &old.instruments[i];
        let b = &new.instruments[i];
        if !(a.id() == b.id() && *a.key() == *b.key() && a.kind() == b.kind()) {
            proof {
                assert(!instrument_topology_entry_same(old.instruments@[i as int], new.instruments@[i as int]));
            }
            return true;
        }
        i += 1;
    }
    if old.resources.len() != new.resources.len() {
        return true;
    }
    let mut k: usize = 0;
    while k < old.resources.len()
        invariant
            old.resources@.len() == new.resources@.len(),
            k <= old.resources@.len(),
            instrument_topology_same(old.instruments@, new.instruments@),
            forall|j: int| 0 <= j < k ==> #[trigger] resource_topology_entry_same(old.resources@[j], new.resources@[j]),
        decreases old.resources@.len() - k,
    {
        let a = &old.resources[k];
        let b = &new.resources[k];
        if !(a.id == b.id && a.key == b.key && a.kind == b.kind) {
            proof {
                assert(!resource_topology_entry_same(old.resources@[k as int], new.resources@[k as int]));
            }
            return true;
        }
        k += 1;
    }
    old.managed_components.len() != new.managed_components.len()
        || old.references.len() != new.references.len() || old.controllers.len()
        != new.controllers.len() || old.safe_profiles.len() != new.safe_profiles.len()
}

fn cadence_changed(old: &Vec<InstrumentDto>, new: &Vec<InstrumentDto>) -> (r: bool)
    ensures
        r == spec_ordinary_live(old@, new@),
{
    let mut i: usize = 0;
    while i < old.len() && i < new.len()
        invariant
            i <= old@.len(),
            i <= new@.len(),
            forall|j: int| 0 <= j < i ==> #[trigger] old@[j].spec_poll_period_ms()
                == new@[j].spec_poll_period_ms(),
        decreases old@.len() - i,
    {
        if old[i].poll_period_ms() != new[i].poll_period_ms() {
            return true;
        }
        i += 1;
    }
    false
}

fn metakon_changed(old: &Vec<InstrumentDto>, new: &Vec<InstrumentDto>) -> (r: bool)
    ensures
        r == spec_metakon_changed(old@, new@),
{
    let mut i: usize = 0;
    while i < old.len() && i < new.len()
        invariant
            i <= old@.len(),
            i <= new@.len(),
            forall|j: int| 0 <= j < i ==> !(#[trigger] old@[j].spec_kind() == InstrumentKind::Metakon
                && new@[j].spec_kind() == InstrumentKind::Metakon && !old@[j].same(&new@[j])),
        decreases old@.len() - i,
    {
        if old[i].kind() == InstrumentKind::Metakon && new[i].kind() == InstrumentKind::Metakon
            && !old[i].equals(&new[i]) {
            return true;
        }
        i += 1;
    }
    false
}

fn model_changed(old: &Vec<InstrumentDto>, new: &Vec<InstrumentDto>) -> (r: bool)
    ensures
        r == spec_model_changed(old@, new@),
{
    let mut i: usize = 0;
    while i < old.len() && i < new.len()
        invariant
            i <= old@.len(),
            i <= new@.len(),
            forall|j: int| 0 <= j < i ==> !({
                let same_kind = (#[trigger] old@[j].spec_kind() == InstrumentKind::ThermalPlant
                    && new@[j].spec_kind() == InstrumentKind::ThermalPlant) || (old@[j].spec_kind()
                    == InstrumentKind::VirtualMeasurement && new@[j].spec_kind()
                    == InstrumentKind::VirtualMeasurement);
                same_kind && !old@[j].spec_same_without_live_fields(&new@[j])
            }),
        decreases old@.len() - i,
    {
        let a = old[i].kind();
        let b = new[i].kind();
        let same_kind = (a == InstrumentKind::ThermalPlant && b == InstrumentKind::ThermalPlant) || (
        a == InstrumentKind::VirtualMeasurement && b == InstrumentKind::VirtualMeasurement);
        if same_kind && !old[i].same_without_live_fields(&new[i]) {
            return true;
        }
        i += 1;
    }
    false
}

/// Collect the definition artifacts, in order.
fn definition_list(artifacts: &Vec<FrozenArtifact>) -> (out: Vec<&FrozenArtifact>)
    ensures
        out@.map_values(|a: &FrozenArtifact| *a) == definitions(artifacts@),
{
    let mut out: Vec<&FrozenArtifact> = Vec::new();
    let mut i: usize = 0;
    while i < artifacts.len()
        invariant
            i <= artifacts@.len(),
            out@.map_values(|a: &FrozenArtifact| *a) == definitions(artifacts@.subrange(0, i as int)),
        decreases artifacts@.len() - i,
    {
        proof {
            let f = |a: FrozenArtifact| a.spec_kind() == ArtifactKind::InstrumentDefinition;
            assert(artifacts@.subrange(0, i + 1) =~= artifacts@.subrange(0, i as int).push(artifacts@[i as int]));
            artifacts@.subrange(0, i as int).lemma_filter_push(artifacts@[i as int], f);
        }
        if artifacts[i].kind == ArtifactKind::InstrumentDefinition {
            out.push(&artifacts[i]);
            proof {
                let v = out@.map_values(|a: &FrozenArtifact| *a);
                assert(v =~= definitions(artifacts@.subrange(0, i as int)).push(artifacts@[i as int]));
            }
        }
        i += 1;
    }
    proof {
        assert(artifacts@.subrange(0, artifacts@.len() as int) =~= artifacts@);
    }
    out
}

/// Whether the frozen definition artifacts differ (path or content) between two
/// bundles.
fn definitions_changed(old: &Vec<FrozenArtifact>, new: &Vec<FrozenArtifact>) -> (r: bool)
    ensures
        definition_content_changed(old@, new@) ==> r,
        r ==> definition_content_changed(old@, new@) || definition_paths_differ(old@, new@),
{
    let a = definition_list(old);
    let b = definition_list(new);
    proof {
        assert(a@.len() == definitions(old@).len());
        assert(b@.len() == definitions(new@).len());
    }
    if a.len() != b.len() {
        return true;
    }
    let mut i: usize = 0;
    while i < a.len()
        invariant
            a@.len() == b@.len(),
            a@.map_values(|x: &FrozenArtifact| *x) == definitions(old@),
            b@.map_values(|x: &FrozenArtifact| *x) == definitions(new@),
            i <= a@.len(),
            forall|j: int| 0 <= j < i ==> (#[trigger] definitions(old@)[j]).spec_hash() == definitions(new@)[j].spec_hash(),
        decreases a@.len() - i,
    {
        let x = a[i];
        let y = b[i];
        proof {
            assert(definitions(old@)[i as int] == *x);
            assert(definitions(new@)[i as int] == *y);
        }
        if !digest_equals(&x.sha256, &y.sha256) || !path_equal(&x.declared_path, &y.declared_path) {
            proof {
                if x.sha256@ != y.sha256@ {
                    assert(definitions(old@)[i as int].spec_hash() != definitions(new@)[i as int].spec_hash());
                } else {
                    assert(definitions(old@)[i as int].spec_declared_path() != definitions(new@)[i as int].spec_declared_path());
                }
            }
            return true;
        }
        i += 1;
    }
    false
}


// ---------------------------------------------------------------------------
// Freezing referenced artifacts.

/// One component of a filesystem path, as the platform parses it.
#[derive(Clone, Copy, Debug, PartialEq, Eq, Structural)]
pub enum PathPart {
    /// A platform prefix such as a drive letter.
    Prefix,
    /// The root directory.
    RootDir,
    /// `.`
    CurDir,
    /// `..`
    ParentDir,
    /// An ordinary name.
    Normal,
}

/// `PathBuf::from`: a path holding the given text. Nothing is stated of it: paths
/// carry no view here.
#[verifier::external_body]
fn path_from_text(text: &str) -> (path: PathBuf) {
    PathBuf::from(text)
}

/// `Path::is_absolute`. What counts as absolute depends on the platform the program
/// runs on, so nothing is stated of the answer.
#[verifier::external_body]
fn path_is_absolute(path: &PathBuf) -> (absolute: bool) {
    path.is_absolute()
}

/// `Path::join`. How the platform combines the two is not stated.
#[verifier::external_body]
fn path_join(base: &PathBuf, part: &PathBuf) -> (joined: PathBuf) {
    base.join(part)
}

/// `Path::components`, each component reduced to its kind. How the platform splits
/// a path is not stated.
#[verifier::external_body]
fn path_parts(path: &PathBuf) -> (parts: Vec<PathPart>) {
    path.components().map(|part| match part {
        std::path::Component::Prefix(_) => PathPart::Prefix,
        std::path::Component::RootDir => PathPart::RootDir,
        std::path::Component::CurDir => PathPart::CurDir,
        std::path::Component::ParentDir => PathPart::ParentDir,
        std::path::Component::Normal(_) => PathPart::Normal,
    }).collect()
}

/// Whether no component is a parent traversal.
pub fn traversal_free(parts: &Vec<PathPart>) -> (r: bool)
    ensures
        r <==> !parts@.contains(PathPart::ParentDir),
{
    let mut i: usize = 0;
    while i < parts.len()
        invariant
            i <= parts@.len(),
            forall|j: int| 0 <= j < i ==> parts@[j] != PathPart::ParentDir,
        decreases parts@.len() - i,
    {
        if parts[i] == PathPart::ParentDir {
            return false;
        }
        i += 1;
    }
    true
}

/// Resolve a declared artifact path against the deployment directory: an absolute
/// declaration stands as it is, a relative one is joined to `base`. Empty paths and
/// paths with a parent traversal are rejected.
pub fn resolve_artifact(base: &PathBuf, declared: &str) -> (r: Result<PathBuf, ConfigurationError>)
    ensures
        declared@.len() == 0 ==> rejects(r, "empty artifact path"@),
        declared@.len() > 0 ==> r is Ok || rejects(
            r,
            "artifact path may not contain parent traversal"@,
        ),
{
    if declared.unicode_len() == 0 {
        return Err(ConfigurationError::invalid("empty artifact path"));
    }
    let declared_path = path_from_text(declared);
    let path = if path_is_absolute(&declared_path) {
        declared_path
    } else {
        path_join(base, &declared_path)
    };
    let parts = path_parts(&path);
    if !traversal_free(&parts) {
        return Err(ConfigurationError::invalid("artifact path may not contain parent traversal"));
    }
    Ok(path)
}

/// One read an artifact reader performed: the path and maximum it was handed and
/// what it returned.
#[derive(Debug)]
pub struct ArtifactRead {
    /// Resolved path handed to the reader.
    pub path: PathBuf,
    /// Byte limit handed to the reader.
    pub maximum: usize,
    /// What the reader returned.
    pub result: Result<Vec<u8>, ConfigurationError>,
}

/// A source of artifact bytes used while freezing a deployment.
///
/// Implementations may perform local file reads. They must not open devices,
/// databases, listeners or execute source code. The caller supplies the maximum
/// before a read so an implementation can enforce it while streaming. An
/// implementation keeps the record of every read it performed: each read appends
/// its path, its maximum and what it returned, and `spec_reads` is that record.
pub trait ArtifactReader {
    /// Every read performed so far, oldest first.
    spec fn spec_reads(&self) -> &Vec<ArtifactRead>;

    /// Read at most `maximum` bytes or return a bounded diagnostic.
    fn read(&mut self, path: &PathBuf, maximum: usize) -> (result: Result<Vec<u8>, ConfigurationError>)
        ensures
            final(self).spec_reads()@ == old(self).spec_reads()@.push(
                ArtifactRead { path: *path, maximum, result },
            ),
    ;
}

/// The read produced artifact `a`: it was handed `a`'s path and returned exactly
/// `a`'s bytes.
pub open spec fn read_frozen(read: ArtifactRead, a: FrozenArtifact) -> bool {
    &&& read.path == a.spec_declared_path()
    &&& read.result matches Ok(bytes) && bytes@ == a.spec_bytes()
}

/// `after` is `before`, or `before` followed by one read handed `maximum`.
pub open spec fn at_most_one_read(before: Seq<ArtifactRead>, after: Seq<ArtifactRead>, maximum: usize) -> bool {
    ||| after == before
    ||| (after.len() == before.len() + 1 && after.drop_last() == before && after.last().maximum == maximum)
}

/// Read `j` of `reads` returned exactly the bytes of `a`.
pub open spec fn read_returned(reads: Seq<ArtifactRead>, j: int, a: FrozenArtifact) -> bool {
    &&& 0 <= j < reads.len()
    &&& reads[j].result matches Ok(bytes) && bytes@ == a.spec_bytes()
}

/// Every artifact of `after` is the one of `before` at its position, or holds exactly
/// the bytes one of `reads` returned.
pub open spec fn reloaded_from(before: Seq<FrozenArtifact>, after: Seq<FrozenArtifact>, reads: Seq<ArtifactRead>) -> bool {
    forall|i: int| 0 <= i < after.len() ==> #[trigger] after[i] == before[i] || exists|j: int| read_returned(reads, j, after[i])
}

/// The artifact path was refused before anything was read.
pub open spec fn path_rejected<T>(r: Result<T, ConfigurationError>) -> bool {
    rejects(r, "empty artifact path"@) || rejects(r, "artifact path may not contain parent traversal"@)
}

/// The limit handed to the `i`-th read of a freeze: definitions come first.
pub open spec fn read_limit(i: int, defs: int) -> usize {
    if i < defs {
        MAX_DEFINITION_BYTES
    } else {
        MAX_MANAGED_SOURCE_BYTES
    }
}

/// Decodes an admitted instrument-definition text and checks it against the
/// domain's instrument model, which lives outside this library, yielding the safety
/// metadata of every declared parameter.
pub trait DefinitionDecoder {
    /// Decode and check one definition.
    fn decode(&mut self, text: &str) -> Result<Vec<ParameterSafety>, DefinitionError>;
}

/// Bytes one frozen artifact adds to a deployment's retained total.
pub open spec fn charge(bytes: Seq<u8>) -> int {
    bytes.len() + ARTIFACT_OVERHEAD_BYTES
}

/// Retained total of a deployment: its TOML bytes plus every artifact's charge.
pub open spec fn retained_total(toml_len: int, artifacts: Seq<FrozenArtifact>) -> int
    decreases artifacts.len(),
{
    if artifacts.len() == 0 {
        toml_len
    } else {
        retained_total(toml_len, artifacts.drop_last()) + charge(artifacts.last().spec_bytes())
    }
}

/// Append one artifact, charging its bytes against the deployment limits.
fn push_artifact(
    kind: ArtifactKind,
    path: PathBuf,
    bytes: Vec<u8>,
    artifacts: &mut Vec<FrozenArtifact>,
    total: &mut usize,
) -> (r: Result<(), ConfigurationError>)
    requires
        old(artifacts)@.len() <= MAX_DEPLOYMENT_ARTIFACTS,
    ensures
        r is Ok <==> *old(total) + charge(bytes@) <= MAX_DEPLOYMENT_BYTES && old(
            artifacts,
        )@.len() < MAX_DEPLOYMENT_ARTIFACTS,
        r is Err ==> r == Err::<(), ConfigurationError>(ConfigurationError::TooLarge),
        r is Ok ==> *final(total) == *old(total) + charge(bytes@),
        r is Ok ==> final(artifacts)@.len() == old(artifacts)@.len() + 1,
        r is Ok ==> final(artifacts)@.drop_last() == old(artifacts)@,
        r is Ok ==> final(artifacts)@.last().spec_bytes() == bytes@,
        r is Ok ==> final(artifacts)@.last().spec_kind() == kind,
        r is Ok ==> final(artifacts)@.last().wf(),
        r is Ok ==> final(artifacts)@.last().spec_declared_path() == path,
        r is Err ==> final(artifacts)@ == old(artifacts)@ && *final(total) == *old(total),
{
    if bytes.len() > MAX_DEPLOYMENT_BYTES {
        return Err(ConfigurationError::TooLarge);
    }
    let charged = bytes.len() + ARTIFACT_OVERHEAD_BYTES;
    let next = match total.checked_add(charged) {
        Some(next) => next,
        None => {
            return Err(ConfigurationError::TooLarge);
        },
    };
    if next > MAX_DEPLOYMENT_BYTES || artifacts.len() == MAX_DEPLOYMENT_ARTIFACTS {
        return Err(ConfigurationError::TooLarge);
    }
    *total = next;
    let sha256 = hash_bytes(bytes.as_slice());
    artifacts.push(FrozenArtifact { kind, declared_path: path, bytes, sha256 });
    proof {
        assert(final(artifacts)@.drop_last() =~= old(artifacts)@);
    }
    Ok(())
}


/// A frozen artifact list grew by exactly one well-formed artifact of `kind`, whose
/// charge was added to the running total.
pub open spec fn grew_by_one(
    before: Seq<FrozenArtifact>,
    after: Seq<FrozenArtifact>,
    total_before: int,
    total_after: int,
    kind: ArtifactKind,
) -> bool {
    &&& after.len() == before.len() + 1
    &&& after.drop_last() == before
    &&& after.last().spec_kind() == kind
    &&& after.last().wf()
    &&& vstd::utf8::valid_utf8(after.last().spec_bytes())
    &&& (kind == ArtifactKind::InstrumentDefinition ==> after.last().spec_bytes().len() <= MAX_DEFINITION_BYTES)
    &&& total_after == total_before + charge(after.last().spec_bytes())
}

/// Every artifact holds UTF-8 text, and every definition among the first `defs`
/// artifacts fits the definition read limit.
pub open spec fn artifacts_admitted(artifacts: Seq<FrozenArtifact>, defs: int) -> bool {
    &&& forall|i: int| 0 <= i < artifacts.len() ==> vstd::utf8::valid_utf8(#[trigger] artifacts[i].spec_bytes())
    &&& forall|i: int| 0 <= i < defs && i < artifacts.len() ==> (#[trigger] artifacts[i]).spec_bytes().len()
        <= MAX_DEFINITION_BYTES
}

/// Freezing is determined by the document and what the reader returned: two
/// frozen bundles of one document, whose reads (after what each reader had already
/// recorded) returned the same, hold the same artifacts, kind, path, bytes and
/// digest alike.
pub proof fn law_equal_reads_freeze_equally(
    dto: DeploymentDto,
    a: FrozenDeployment,
    b: FrozenDeployment,
    a_before: Seq<ArtifactRead>,
    a_after: Seq<ArtifactRead>,
    b_before: Seq<ArtifactRead>,
    b_after: Seq<ArtifactRead>,
)
    requires
        a.wf(),
        b.wf(),
        artifact_layout(dto, a.spec_artifacts()),
        artifact_layout(dto, b.spec_artifacts()),
        artifacts_read(a_before, a_after, a.spec_artifacts()),
        artifacts_read(b_before, b_after, b.spec_artifacts()),
        a_after.subrange(a_before.len() as int, a_after.len() as int) == b_after.subrange(
            b_before.len() as int,
            b_after.len() as int,
        ),
    ensures
        a.spec_artifacts().len() == b.spec_artifacts().len(),
        forall|i: int| 0 <= i < a.spec_artifacts().len() ==> {
            &&& (#[trigger] a.spec_artifacts()[i]).spec_kind() == b.spec_artifacts()[i].spec_kind()
            &&& a.spec_artifacts()[i].spec_declared_path() == b.spec_artifacts()[i].spec_declared_path()
            &&& a.spec_artifacts()[i].spec_bytes() == b.spec_artifacts()[i].spec_bytes()
            &&& a.spec_artifacts()[i].spec_hash() == b.spec_artifacts()[i].spec_hash()
        },
{
    let na = a_after.subrange(a_before.len() as int, a_after.len() as int);
    let nb = b_after.subrange(b_before.len() as int, b_after.len() as int);
    let defs = definition_count(dto.instruments@) as int;
    assert forall|i: int| 0 <= i < a.spec_artifacts().len() implies {
        &&& (#[trigger] a.spec_artifacts()[i]).spec_kind() == b.spec_artifacts()[i].spec_kind()
        &&& a.spec_artifacts()[i].spec_declared_path() == b.spec_artifacts()[i].spec_declared_path()
        &&& a.spec_artifacts()[i].spec_bytes() == b.spec_artifacts()[i].spec_bytes()
        &&& a.spec_artifacts()[i].spec_hash() == b.spec_artifacts()[i].spec_hash()
    } by {
        assert(read_frozen(a_after[a_before.len() + i], a.spec_artifacts()[i]));
        assert(read_frozen(b_after[b_before.len() + i], b.spec_artifacts()[i]));
        assert(na[i] == a_after[a_before.len() + i]);
        assert(nb[i] == b_after[b_before.len() + i]);
        assert(a.spec_artifacts()[i].wf());
        assert(b.spec_artifacts()[i].wf());
        if i < defs {
            assert(a.spec_artifacts()[i].spec_kind() == ArtifactKind::InstrumentDefinition);
            assert(b.spec_artifacts()[i].spec_kind() == ArtifactKind::InstrumentDefinition);
        } else {
            assert(a.spec_artifacts()[i].spec_kind() == ArtifactKind::ManagedComponentSource);
            assert(b.spec_artifacts()[i].spec_kind() == ArtifactKind::ManagedComponentSource);
        }
    }
}

/// A prefix of the instruments declares no more definitions than all of them.
proof fn lemma_definition_count_prefix(xs: Seq<InstrumentDto>, i: int)
    requires
        0 <= i <= xs.len(),
    ensures
        definition_count(xs.subrange(0, i)) <= definition_count(xs),
    decreases xs.len() - i,
{
    if i == xs.len() {
        assert(xs.subrange(0, i) =~= xs);
    } else {
        assert(xs.subrange(0, i + 1).drop_last() =~= xs.subrange(0, i));
        lemma_definition_count_prefix(xs, i + 1);
    }
}

/// The reads a freeze made after `before`: each handed the limit of its kind,
/// definitions first.
pub open spec fn reads_limited(before: Seq<ArtifactRead>, after: Seq<ArtifactRead>, defs: int) -> bool {
    &&& before.len() <= after.len()
    &&& after.subrange(0, before.len() as int) == before
    &&& forall|i: int| before.len() <= i < after.len() ==> (#[trigger] after[i]).maximum == read_limit(
        i - before.len(),
        defs,
    )
}

/// Each artifact was produced by the read at its position after `before`.
pub open spec fn artifacts_read(before: Seq<ArtifactRead>, after: Seq<ArtifactRead>, artifacts: Seq<FrozenArtifact>) -> bool {
    &&& after.len() == before.len() + artifacts.len()
    &&& forall|i: int| 0 <= i < artifacts.len() ==> read_frozen(after[before.len() + i], #[trigger] artifacts[i])
}

/// A document with no Metakon instrument declares no definition.
proof fn lemma_no_definitions(xs: Seq<InstrumentDto>, i: int)
    requires
        definition_count(xs) == 0,
        0 <= i < xs.len(),
    ensures
        xs[i].spec_kind() != InstrumentKind::Metakon,
    decreases xs.len(),
{
    if i < xs.len() - 1 {
        assert(xs.drop_last()[i] == xs[i]);
        lemma_no_definitions(xs.drop_last(), i);
    }
}

/// A document whose components declare no source has none.
proof fn lemma_no_sources(cs: Seq<ManagedComponentDto>, i: int)
    requires
        source_count(cs) == 0,
        0 <= i < cs.len(),
    ensures
        cs[i].source is None,
    decreases cs.len(),
{
    if i < cs.len() - 1 {
        assert(cs.drop_last()[i] == cs[i]);
        lemma_no_sources(cs.drop_last(), i);
    }
}

/// Freeze the bytes a managed-source read returned: the reader's error is
/// returned as it is, the bytes must be UTF-8, and they are retained exactly as
/// read, within the deployment limits.
pub fn admit_source(
    path: PathBuf,
    read: Result<Vec<u8>, ConfigurationError>,
    artifacts: &mut Vec<FrozenArtifact>,
    total: &mut usize,
) -> (r: Result<(), ConfigurationError>)
    requires
        old(artifacts)@.len() <= MAX_DEPLOYMENT_ARTIFACTS,
    ensures
        r is Err ==> final(artifacts)@ == old(artifacts)@ && *final(total) == *old(total),
        read matches Err(e) ==> r == Err::<(), ConfigurationError>(e),
        read matches Ok(b) && !valid_utf8(b@) ==> (r matches Err(ConfigurationError::InvalidArtifact(m))
            && m@ == "managed source must be UTF-8"@),
        read is Ok && valid_utf8(read->Ok_0@) ==> {
            &&& (r is Ok <==> *old(total) + charge(read->Ok_0@) <= MAX_DEPLOYMENT_BYTES && old(artifacts)@.len()
                < MAX_DEPLOYMENT_ARTIFACTS)
            &&& (r is Err ==> r == Err::<(), ConfigurationError>(ConfigurationError::TooLarge))
            &&& (r is Ok ==> grew_by_one(
                old(artifacts)@,
                final(artifacts)@,
                *old(total) as int,
                *final(total) as int,
                ArtifactKind::ManagedComponentSource,
            ) && final(artifacts)@.last().spec_bytes() == read->Ok_0@ && final(artifacts)@.last().spec_declared_path()
                == path)
        },
{
    let bytes = match read {
        Err(e) => {
            return Err(e);
        },
        Ok(bytes) => bytes,
    };
    if str_from_utf8(bytes.as_slice()).is_none() {
        return Err(ConfigurationError::artifact("managed source must be UTF-8"));
    }
    push_artifact(ArtifactKind::ManagedComponentSource, path, bytes, artifacts, total)
}

/// The admitted text of the bytes a definition read returned: UTF-8, at most
/// 16 KiB and nested at most 8 deep.
pub fn definition_text(bytes: &Vec<u8>) -> (r: Result<&str, ConfigurationError>)
    ensures
        !valid_utf8(bytes@) ==> (r matches Err(ConfigurationError::InvalidArtifact(m)) && m@
            == "definition must be UTF-8"@),
        valid_utf8(bytes@) && bytes@.len() > MAX_DEFINITION_BYTES ==> (r matches Err(e) && is_artifact_error(
            e,
            definition_error_message(DefinitionError::TooLarge),
        )),
        valid_utf8(bytes@) && bytes@.len() <= MAX_DEFINITION_BYTES && depth_run(bytes@) is None ==> (
        r matches Err(e) && is_artifact_error(e, definition_error_message(DefinitionError::TooDeep))),
        valid_utf8(bytes@) && bytes@.len() <= MAX_DEFINITION_BYTES && depth_run(bytes@) is Some ==> (
        r matches Ok(t) && t.spec_bytes() == bytes@),
{
    let text = match str_from_utf8(bytes.as_slice()) {
        Some(text) => text,
        None => {
            return Err(ConfigurationError::artifact("definition must be UTF-8"));
        },
    };
    if let Err(error) = admit_definition_text(text) {
        return Err(ConfigurationError::artifact_text(error.message().as_str()));
    }
    Ok(text)
}

/// Freeze admitted definition bytes given what the decoder returned: a decoding
/// failure is reported with its message, every parameter must be read-only, and the
/// bytes are retained exactly as read, within the deployment limits.
pub fn admit_definition(
    path: PathBuf,
    bytes: Vec<u8>,
    decoded: Result<Vec<ParameterSafety>, DefinitionError>,
    artifacts: &mut Vec<FrozenArtifact>,
    total: &mut usize,
) -> (r: Result<(), ConfigurationError>)
    requires
        old(artifacts)@.len() <= MAX_DEPLOYMENT_ARTIFACTS,
        valid_utf8(bytes@),
        bytes@.len() <= MAX_DEFINITION_BYTES,
    ensures
        r is Err ==> final(artifacts)@ == old(artifacts)@ && *final(total) == *old(total),
        decoded matches Err(d) ==> (r matches Err(e) && is_artifact_error(e, definition_error_message(d))),
        decoded matches Ok(ps) && !(forall|i: int| 0 <= i < ps@.len() ==> #[trigger] parameter_read_only(ps@[i]))
            ==> (r matches Err(ConfigurationError::InvalidArtifact(m)) && m@
            == "physical M8 definition must be read-only"@),
        decoded matches Ok(ps) && (forall|i: int| 0 <= i < ps@.len() ==> #[trigger] parameter_read_only(ps@[i]))
            ==> {
            &&& (r is Ok <==> *old(total) + charge(bytes@) <= MAX_DEPLOYMENT_BYTES && old(artifacts)@.len()
                < MAX_DEPLOYMENT_ARTIFACTS)
            &&& (r is Err ==> r == Err::<(), ConfigurationError>(ConfigurationError::TooLarge))
            &&& (r is Ok ==> grew_by_one(
                old(artifacts)@,
                final(artifacts)@,
                *old(total) as int,
                *final(total) as int,
                ArtifactKind::InstrumentDefinition,
            ) && final(artifacts)@.last().spec_bytes() == bytes@ && final(artifacts)@.last().spec_declared_path()
                == path)
        },
{
    let parameters = match decoded {
        Ok(parameters) => parameters,
        Err(error) => {
            return Err(ConfigurationError::artifact_text(error.message().as_str()));
        },
    };
    if !definition_read_only(&parameters) {
        return Err(ConfigurationError::artifact("physical M8 definition must be read-only"));
    }
    push_artifact(ArtifactKind::InstrumentDefinition, path, bytes, artifacts, total)
}

/// Freeze one managed-component source: resolve, read at most 32 KiB, require
/// UTF-8 and retain the exact bytes.
fn freeze_source<R: ArtifactReader>(
    base: &PathBuf,
    declared: &str,
    reader: &mut R,
    artifacts: &mut Vec<FrozenArtifact>,
    total: &mut usize,
) -> (r: Result<(), ConfigurationError>)
    requires
        old(artifacts)@.len() <= MAX_DEPLOYMENT_ARTIFACTS,
    ensures
        r is Ok ==> grew_by_one(
            old(artifacts)@,
            final(artifacts)@,
            *old(total) as int,
            *final(total) as int,
            ArtifactKind::ManagedComponentSource,
        ),
        r is Err ==> final(artifacts)@ == old(artifacts)@ && *final(total) == *old(total),
        at_most_one_read(old(reader).spec_reads()@, final(reader).spec_reads()@, MAX_MANAGED_SOURCE_BYTES),
        r is Err && final(reader).spec_reads()@ == old(reader).spec_reads()@ ==> path_rejected(r),
        final(reader).spec_reads()@.len() > old(reader).spec_reads()@.len() && final(reader).spec_reads()@.last().result
            is Err ==> r == Err::<(), ConfigurationError>(final(reader).spec_reads()@.last().result->Err_0),
        r is Ok ==> final(reader).spec_reads()@.len() == old(reader).spec_reads()@.len() + 1 && read_frozen(
            final(reader).spec_reads()@.last(),
            final(artifacts)@.last(),
        ),
        declared@.len() == 0 ==> rejects(r, "empty artifact path"@),
{
    let path = resolve_artifact(base, declared)?;
    let read = reader.read(&path, MAX_MANAGED_SOURCE_BYTES);
    proof {
        assert(reader.spec_reads()@.drop_last() =~= old(reader).spec_reads()@);
    }
    admit_source(path, read, artifacts, total)
}

/// Freeze one physical instrument definition: resolve, read at most 16 KiB, require
/// UTF-8, admit its size and nesting, decode it, require every parameter to be
/// read-only and retain the exact bytes.
fn freeze_definition<R: ArtifactReader, D: DefinitionDecoder>(
    base: &PathBuf,
    declared: &str,
    reader: &mut R,
    decoder: &mut D,
    artifacts: &mut Vec<FrozenArtifact>,
    total: &mut usize,
) -> (r: Result<(), ConfigurationError>)
    requires
        old(artifacts)@.len() <= MAX_DEPLOYMENT_ARTIFACTS,
    ensures
        r is Ok ==> grew_by_one(
            old(artifacts)@,
            final(artifacts)@,
            *old(total) as int,
            *final(total) as int,
            ArtifactKind::InstrumentDefinition,
        ),
        r is Err ==> final(artifacts)@ == old(artifacts)@ && *final(total) == *old(total),
        at_most_one_read(old(reader).spec_reads()@, final(reader).spec_reads()@, MAX_DEFINITION_BYTES),
        r is Err && final(reader).spec_reads()@ == old(reader).spec_reads()@ ==> path_rejected(r),
        final(reader).spec_reads()@.len() > old(reader).spec_reads()@.len() && final(reader).spec_reads()@.last().result
            is Err ==> r == Err::<(), ConfigurationError>(final(reader).spec_reads()@.last().result->Err_0),
        r is Ok ==> final(reader).spec_reads()@.len() == old(reader).spec_reads()@.len() + 1 && read_frozen(
            final(reader).spec_reads()@.last(),
            final(artifacts)@.last(),
        ),
        declared@.len() == 0 ==> rejects(r, "empty artifact path"@),
{
    let path = resolve_artifact(base, declared)?;
    let read = reader.read(&path, MAX_DEFINITION_BYTES);
    proof {
        assert(reader.spec_reads()@.drop_last() =~= old(reader).spec_reads()@);
    }
    let bytes = read?;
    let text = definition_text(&bytes)?;
    let decoded = decoder.decode(text);
    admit_definition(path, bytes, decoded, artifacts, total)
}


/// Number of Metakon instruments, each of which declares a definition file.
pub open spec fn definition_count(xs: Seq<InstrumentDto>) -> nat
    decreases xs.len(),
{
    if xs.len() == 0 {
        0
    } else {
        definition_count(xs.drop_last()) + if xs.last().spec_kind() == InstrumentKind::Metakon {
            1nat
        } else {
            0nat
        }
    }
}

/// Number of managed components that declare a source file.
pub open spec fn source_count(cs: Seq<ManagedComponentDto>) -> nat
    decreases cs.len(),
{
    if cs.len() == 0 {
        0
    } else {
        source_count(cs.drop_last()) + if cs.last().source is Some {
            1nat
        } else {
            0nat
        }
    }
}

/// The artifacts of a deployment: one definition per Metakon instrument, in
/// instrument order, then one source per sourced component, in component order.
pub open spec fn artifact_layout(dto: DeploymentDto, artifacts: Seq<FrozenArtifact>) -> bool {
    let defs = definition_count(dto.instruments@);
    &&& artifacts.len() == defs + source_count(dto.managed_components@)
    &&& forall|i: int| 0 <= i < defs ==> (#[trigger] artifacts[i]).spec_kind()
        == ArtifactKind::InstrumentDefinition
    &&& forall|i: int| defs <= i < artifacts.len() ==> (#[trigger] artifacts[i]).spec_kind()
        == ArtifactKind::ManagedComponentSource
}

/// Every artifact records the digest of its exact bytes.
pub open spec fn all_wf(artifacts: Seq<FrozenArtifact>) -> bool {
    forall|i: int| 0 <= i < artifacts.len() ==> #[trigger] artifacts[i].wf()
}

proof fn lemma_retained_push(toml_len: int, before: Seq<FrozenArtifact>, after: Seq<FrozenArtifact>)
    requires
        after.len() == before.len() + 1,
        after.drop_last() == before,
    ensures
        retained_total(toml_len, after) == retained_total(toml_len, before) + charge(
            after.last().spec_bytes(),
        ),
{
}

/// Freeze a validated deployment: validate the document, then read, check and retain
/// every referenced definition and source, then bound the artifact count and the
/// retained bytes.
///
/// `dto` is the document parsed from `toml` and put in canonical order (see
/// `canonical_order`); `facts` are the domain facts for that document. Structural
/// validation runs before any referenced artifact is read: a document that fails it
/// leaves the reader and decoder untouched.
pub fn freeze_deployment<R: ArtifactReader, D: DefinitionDecoder>(
    toml: &[u8],
    base: &PathBuf,
    dto: DeploymentDto,
    facts: &DomainFacts,
    reader: &mut R,
    decoder: &mut D,
) -> (r: Result<FrozenDeployment, ConfigurationError>)
    requires
        facts_aligned(dto, *facts),
    ensures
        !deployment_valid(dto, *facts) ==> r is Err && rejected(r) && *final(reader) == *old(
            reader,
        ) && *final(decoder) == *old(decoder),
        dto.schema_version != 1 ==> rejects(r, "unsupported schema_version"@),
        structure_error(dto, *facts) matches Some(m) ==> rejects(r, m),
        r is Ok ==> deployment_valid(dto, *facts),
        r is Ok ==> r->Ok_0.spec_dto() == dto,
        r is Ok ==> r->Ok_0.spec_toml_bytes() == toml@,
        r is Ok ==> r->Ok_0.wf(),
        r is Ok ==> r->Ok_0.within_limits(),
        r is Ok ==> artifact_layout(dto, r->Ok_0.spec_artifacts()),
        r is Ok ==> artifacts_admitted(r->Ok_0.spec_artifacts(), definition_count(dto.instruments@) as int),
        reads_limited(
            old(reader).spec_reads()@,
            final(reader).spec_reads()@,
            definition_count(dto.instruments@) as int,
        ),
        r is Ok ==> artifacts_read(old(reader).spec_reads()@, final(reader).spec_reads()@, r->Ok_0.spec_artifacts()),
        deployment_valid(dto, *facts) && toml@.len() <= MAX_DEPLOYMENT_BYTES && r is Err && !path_rejected(r)
            ==> final(reader).spec_reads()@.len() > old(reader).spec_reads()@.len(),
        final(reader).spec_reads()@.len() > old(reader).spec_reads()@.len() && final(reader).spec_reads()@.last().result
            is Err ==> r == Err::<FrozenDeployment, ConfigurationError>(final(reader).spec_reads()@.last().result->Err_0),
        definition_count(dto.instruments@) == 0 && source_count(dto.managed_components@) == 0
            ==> *final(reader) == *old(reader) && *final(decoder) == *old(decoder),
        deployment_valid(dto, *facts) && definition_count(dto.instruments@) == 0 && source_count(
            dto.managed_components@,
        ) == 0 && toml@.len() <= MAX_DEPLOYMENT_BYTES ==> r is Ok,
{
    proof {
        assert(reader.spec_reads()@.subrange(0, reader.spec_reads()@.len() as int) =~= reader.spec_reads()@);
    }
    validate_structure(&dto, facts)?;
    let mut artifacts: Vec<FrozenArtifact> = Vec::new();
    let mut total: usize = toml.len();
    let mut i: usize = 0;
    while i < dto.instruments.len()
        invariant
            i <= dto.instruments@.len(),
            deployment_valid(dto, *facts),
            structure_error(dto, *facts) is None,
            artifacts@.len() == definition_count(dto.instruments@.subrange(0, i as int)),
            artifacts@.len() <= i,
            dto.instruments@.len() <= 64,
            forall|j: int| 0 <= j < artifacts@.len() ==> (#[trigger] artifacts@[j]).spec_kind()
                == ArtifactKind::InstrumentDefinition,
            all_wf(artifacts@),
            artifacts_admitted(artifacts@, artifacts@.len() as int),
            definition_count(dto.instruments@) == 0 ==> *reader == *old(reader) && *decoder == *old(decoder)
                && artifacts@.len() == 0,
            reads_limited(old(reader).spec_reads()@, reader.spec_reads()@, definition_count(dto.instruments@) as int),
            artifacts_read(old(reader).spec_reads()@, reader.spec_reads()@, artifacts@),
            total == retained_total(toml@.len() as int, artifacts@),
        decreases dto.instruments@.len() - i,
    {
        proof {
            assert(dto.instruments@.subrange(0, i + 1).drop_last() =~= dto.instruments@.subrange(0, i as int));
        }
        match &dto.instruments[i] {
            InstrumentDto::Metakon { definition, .. } => {
                proof {
                    if definition_count(dto.instruments@) == 0 {
                        lemma_no_definitions(dto.instruments@, i as int);
                    }
                    lemma_definition_count_prefix(dto.instruments@, i + 1);
                    assert(dto.instruments@[i as int].spec_kind() == InstrumentKind::Metakon);
                    assert(artifacts@.len() < definition_count(dto.instruments@));
                }
                let ghost before = artifacts@;
                let ghost reads_before = reader.spec_reads()@;
                let frozen = freeze_definition(base, definition.as_str(), reader, decoder, &mut artifacts, &mut total);
                proof {
                    let defs = definition_count(dto.instruments@) as int;
                    let r0 = old(reader).spec_reads()@;
                    let r1 = reader.spec_reads()@;
                    assert(r1.subrange(0, r0.len() as int) =~= r0) by {
                        if r1 != reads_before {
                            assert(r1.subrange(0, r0.len() as int) =~= reads_before.subrange(0, r0.len() as int));
                        }
                    }
                    assert forall|j: int| r0.len() <= j < r1.len() implies (#[trigger] r1[j]).maximum == read_limit(
                        j - r0.len(),
                        defs,
                    ) by {
                        if j < reads_before.len() {
                            assert(r1[j] == reads_before[j]);
                        }
                    }
                    if frozen is Ok {
                        assert forall|j: int| 0 <= j < artifacts@.len() implies read_frozen(
                            r1[r0.len() + j],
                            #[trigger] artifacts@[j],
                        ) by {
                            if j < before.len() {
                                assert(artifacts@[j] == before[j]);
                                assert(r1[r0.len() + j] == reads_before[r0.len() + j]);
                            }
                        }
                    }
                }
                frozen?;
                proof {
                    lemma_retained_push(toml@.len() as int, before, artifacts@);
                    assert forall|j: int| 0 <= j < artifacts@.len() implies (#[trigger] artifacts@[j]).wf() by {
                        if j < before.len() {
                            assert(artifacts@[j] == before[j]);
                        }
                    }
                    assert forall|j: int| 0 <= j < artifacts@.len() implies (#[trigger] artifacts@[j]).spec_kind()
                        == ArtifactKind::InstrumentDefinition by {
                        if j < before.len() {
                            assert(artifacts@[j] == before[j]);
                        }
                    }
                    assert forall|j: int| 0 <= j < artifacts@.len() implies vstd::utf8::valid_utf8(
                        #[trigger] artifacts@[j].spec_bytes(),
                    ) && artifacts@[j].spec_bytes().len() <= MAX_DEFINITION_BYTES by {
                        if j < before.len() {
                            assert(artifacts@[j] == before[j]);
                        }
                    }
                }
            },
            _ => {},
        }
        i += 1;
    }
    proof {
        assert(dto.instruments@.subrange(0, i as int) =~= dto.instruments@);
    }
    let ghost defs = artifacts@.len();
    let mut k: usize = 0;
    while k < dto.managed_components.len()
        invariant
            k <= dto.managed_components@.len(),
            deployment_valid(dto, *facts),
            structure_error(dto, *facts) is None,
            defs == definition_count(dto.instruments@),
            defs <= 64,
            dto.managed_components@.len() <= 8,
            artifacts@.len() == defs + source_count(dto.managed_components@.subrange(0, k as int)),
            artifacts@.len() <= defs + k,
            forall|j: int| 0 <= j < defs ==> (#[trigger] artifacts@[j]).spec_kind()
                == ArtifactKind::InstrumentDefinition,
            forall|j: int| defs <= j < artifacts@.len() ==> (#[trigger] artifacts@[j]).spec_kind()
                == ArtifactKind::ManagedComponentSource,
            all_wf(artifacts@),
            artifacts_admitted(artifacts@, defs as int),
            definition_count(dto.instruments@) == 0 && source_count(dto.managed_components@) == 0
                ==> *reader == *old(reader) && *decoder == *old(decoder) && artifacts@.len() == 0,
            reads_limited(old(reader).spec_reads()@, reader.spec_reads()@, defs as int),
            artifacts_read(old(reader).spec_reads()@, reader.spec_reads()@, artifacts@),
            total == retained_total(toml@.len() as int, artifacts@),
        decreases dto.managed_components@.len() - k,
    {
        proof {
            assert(dto.managed_components@.subrange(0, k + 1).drop_last() =~= dto.managed_components@.subrange(0, k as int));
        }
        match &dto.managed_components[k].source {
            Some(source) => {
                proof {
                    if source_count(dto.managed_components@) == 0 {
                        lemma_no_sources(dto.managed_components@, k as int);
                    }
                }
                let ghost before = artifacts@;
                let ghost reads_before = reader.spec_reads()@;
                let frozen = freeze_source(base, source.as_str(), reader, &mut artifacts, &mut total);
                proof {
                    let r0 = old(reader).spec_reads()@;
                    let r1 = reader.spec_reads()@;
                    assert(r1.subrange(0, r0.len() as int) =~= r0) by {
                        if r1 != reads_before {
                            assert(r1.subrange(0, r0.len() as int) =~= reads_before.subrange(0, r0.len() as int));
                        }
                    }
                    assert forall|j: int| r0.len() <= j < r1.len() implies (#[trigger] r1[j]).maximum == read_limit(
                        j - r0.len(),
                        defs as int,
                    ) by {
                        if j < reads_before.len() {
                            assert(r1[j] == reads_before[j]);
                        }
                    }
                    if frozen is Ok {
                        assert forall|j: int| 0 <= j < artifacts@.len() implies read_frozen(
                            r1[r0.len() + j],
                            #[trigger] artifacts@[j],
                        ) by {
                            if j < before.len() {
                                assert(artifacts@[j] == before[j]);
                                assert(r1[r0.len() + j] == reads_before[r0.len() + j]);
                            }
                        }
                    }
                }
                frozen?;
                proof {
                    lemma_retained_push(toml@.len() as int, before, artifacts@);
                    assert forall|j: int| 0 <= j < artifacts@.len() implies (#[trigger] artifacts@[j]).wf() by {
                        if j < before.len() {
                            assert(artifacts@[j] == before[j]);
                        }
                    }
                    assert forall|j: int| 0 <= j < defs implies (#[trigger] artifacts@[j]).spec_kind()
                        == ArtifactKind::InstrumentDefinition by {
                        assert(artifacts@[j] == before[j]);
                    }
                    assert forall|j: int| defs <= j < artifacts@.len() implies (#[trigger] artifacts@[j]).spec_kind()
                        == ArtifactKind::ManagedComponentSource by {
                        if j < before.len() {
                            assert(artifacts@[j] == before[j]);
                        }
                    }
                    assert forall|j: int| 0 <= j < artifacts@.len() implies vstd::utf8::valid_utf8(
                        #[trigger] artifacts@[j].spec_bytes(),
                    ) by {
                        if j < before.len() {
                            assert(artifacts@[j] == before[j]);
                        }
                    }
                    assert forall|j: int| 0 <= j < defs && j < artifacts@.len() implies (
                    #[trigger] artifacts@[j]).spec_bytes().len() <= MAX_DEFINITION_BYTES by {
                        assert(artifacts@[j] == before[j]);
                    }
                }
            },
            None => {},
        }
        k += 1;
    }
    proof {
        assert(dto.managed_components@.subrange(0, k as int) =~= dto.managed_components@);
    }
    if artifacts.len() > MAX_DEPLOYMENT_ARTIFACTS || total > MAX_DEPLOYMENT_BYTES {
        return Err(ConfigurationError::TooLarge);
    }
    let toml_hash = hash_bytes(toml);
    let toml_bytes = vstd::slice::slice_to_vec(toml);
    let out = FrozenDeployment {
        base: base.clone(),
        toml_bytes,
        toml_hash,
        effective: EffectiveDeployment { dto },
        artifacts,
    };
    Ok(out)
}


/// The document starts with a UTF-8 byte-order mark.
pub open spec fn has_bom(bytes: Seq<u8>) -> bool {
    bytes.len() >= 3 && bytes[0] == 0xef && bytes[1] == 0xbb && bytes[2] == 0xbf
}

/// Admission of one `runtime.toml` document before TOML parsing: at most 64 KiB,
/// UTF-8 without byte-order mark, then the nesting and assignment pre-scan. The
/// admitted text is the document's own bytes.
pub fn admit_runtime_toml(bytes: &[u8]) -> (r: Result<&str, ConfigurationError>)
    ensures
        bytes@.len() > MAX_RUNTIME_TOML_BYTES ==> r == Err::<&str, ConfigurationError>(
            ConfigurationError::TooLarge,
        ),
        bytes@.len() <= MAX_RUNTIME_TOML_BYTES && (has_bom(bytes@) || !valid_utf8(bytes@))
            ==> r == Err::<&str, ConfigurationError>(ConfigurationError::InvalidUtf8),
        bytes@.len() <= MAX_RUNTIME_TOML_BYTES && !has_bom(bytes@) && valid_utf8(bytes@)
            ==> prescan_outcome(
            match r {
                Ok(_) => Ok(()),
                Err(e) => Err(e),
            },
            prescan_run(bytes@),
        ),
        r is Ok ==> r->Ok_0.spec_bytes() == bytes@,
{
    if bytes.len() > MAX_RUNTIME_TOML_BYTES {
        return Err(ConfigurationError::TooLarge);
    }
    if bytes.len() >= 3 && bytes[0] == 0xef && bytes[1] == 0xbb && bytes[2] == 0xbf {
        return Err(ConfigurationError::InvalidUtf8);
    }
    let text = match str_from_utf8(bytes) {
        Some(text) => text,
        None => {
            return Err(ConfigurationError::InvalidUtf8);
        },
    };
    match prescan(text) {
        Ok(()) => Ok(text),
        Err(e) => Err(e),
    }
}


/// Retained totals only grow along a list of artifacts.
proof fn lemma_retained_monotone(toml_len: int, artifacts: Seq<FrozenArtifact>, k: int)
    requires
        0 <= k <= artifacts.len(),
    ensures
        retained_total(toml_len, artifacts.subrange(0, k)) <= retained_total(toml_len, artifacts),
    decreases artifacts.len() - k,
{
    if k < artifacts.len() {
        lemma_retained_monotone(toml_len, artifacts, k + 1);
        assert(artifacts.subrange(0, k + 1).drop_last() =~= artifacts.subrange(0, k));
    } else {
        assert(artifacts.subrange(0, k) =~= artifacts);
    }
}

/// The retained total of a bundle, or `None` if it does not fit in `usize`.
fn retained_bytes(toml_len: usize, artifacts: &Vec<FrozenArtifact>) -> (r: Option<usize>)
    ensures
        match r {
            Some(t) => t == retained_total(toml_len as int, artifacts@),
            None => retained_total(toml_len as int, artifacts@) > usize::MAX,
        },
{
    let mut total: usize = toml_len;
    let mut i: usize = 0;
    while i < artifacts.len()
        invariant
            i <= artifacts@.len(),
            total == retained_total(toml_len as int, artifacts@.subrange(0, i as int)),
        decreases artifacts@.len() - i,
    {
        proof {
            assert(artifacts@.subrange(0, i + 1).drop_last() =~= artifacts@.subrange(0, i as int));
        }
        let len = artifacts[i].bytes.len();
        if len > usize::MAX - ARTIFACT_OVERHEAD_BYTES || total > usize::MAX - (len + ARTIFACT_OVERHEAD_BYTES) {
            proof {
                lemma_retained_monotone(toml_len as int, artifacts@, i + 1);
            }
            return None;
        }
        total = total + (len + ARTIFACT_OVERHEAD_BYTES);
        i += 1;
    }
    proof {
        assert(artifacts@.subrange(0, i as int) =~= artifacts@);
    }
    Some(total)
}

/// Index of the managed-source artifact frozen at `path`, if any.
fn find_source(artifacts: &Vec<FrozenArtifact>, path: &PathBuf) -> (r: Option<usize>)
    ensures
        r matches Some(i) ==> i < artifacts@.len() && artifacts@[i as int].spec_kind()
            == ArtifactKind::ManagedComponentSource,
{
    let mut i: usize = 0;
    while i < artifacts.len()
        invariant
            i <= artifacts@.len(),
        decreases artifacts@.len() - i,
    {
        if artifacts[i].kind == ArtifactKind::ManagedComponentSource && path_equal(
            &artifacts[i].declared_path,
            path,
        ) {
            return Some(i);
        }
        i += 1;
    }
    None
}

/// Whether an equal component declaration occurs in the list.
fn declares_component(components: &Vec<ManagedComponentDto>, component: &ManagedComponentDto) -> (r: bool)
    ensures
        r <==> exists|i: int| 0 <= i < components@.len() && (#[trigger] components@[i]).same(component),
{
    let mut i: usize = 0;
    while i < components.len()
        invariant
            i <= components@.len(),
            forall|j: int| 0 <= j < i ==> !(#[trigger] components@[j]).same(component),
        decreases components@.len() - i,
    {
        if components[i].equals(component) {
            return true;
        }
        i += 1;
    }
    false
}

/// Component `c` declares a source and an equal declaration is active, so its
/// source bytes are taken from the active bundle.
pub open spec fn reuses_source(active: DeploymentDto, c: ManagedComponentDto) -> bool {
    &&& c.source is Some
    &&& exists|j: int| 0 <= j < active.managed_components@.len() && (#[trigger] active.managed_components@[j]).same(&c)
}

/// No component of `candidate` takes its source bytes from `active`.
pub open spec fn reuses_nothing(candidate: DeploymentDto, active: DeploymentDto) -> bool {
    forall|c: int| 0 <= c < candidate.managed_components@.len() ==> !#[trigger] reuses_source(
        active,
        candidate.managed_components@[c],
    )
}

/// No component of the document declares a source.
pub open spec fn sourceless(dto: DeploymentDto) -> bool {
    forall|c: int| 0 <= c < dto.managed_components@.len() ==> (#[trigger] dto.managed_components@[c]).source is None
}

/// `after` keeps the count and kinds of `before`, and every artifact of `after` is
/// either the one of `before` at its position or carries the bytes and digest of one
/// of `donors`.
pub open spec fn sources_replaced_from(
    before: Seq<FrozenArtifact>,
    after: Seq<FrozenArtifact>,
    donors: Seq<FrozenArtifact>,
) -> bool {
    &&& after.len() == before.len()
    &&& forall|i: int| 0 <= i < after.len() ==> (#[trigger] after[i]).spec_kind() == before[i].spec_kind()
    &&& forall|i: int| 0 <= i < after.len() ==> #[trigger] after[i] == before[i] || exists|j: int|
        0 <= j < donors.len() && after[i].spec_bytes() == donors[j].spec_bytes() && after[i].spec_hash()
            == donors[j].spec_hash()
}

impl FrozenDeployment {
    /// Directory against which relative artifact paths were resolved.
    pub fn base(&self) -> (b: &PathBuf)
        ensures
            *b == self.spec_base(),
    {
        &self.base
    }

    /// Exact frozen bytes of the artifact declared as `declared`, if it was frozen.
    pub fn artifact_bytes(&self, declared: &str) -> (r: Option<&[u8]>)
        ensures
            declared@.len() == 0 ==> r is None,
            r matches Some(b) ==> exists|i: int| 0 <= i < self.spec_artifacts().len() && b@ == (
            #[trigger] self.spec_artifacts()[i]).spec_bytes(),
    {
        let resolved = match resolve_artifact(&self.base, declared) {
            Ok(path) => path,
            Err(_) => {
                return None;
            },
        };
        let mut i: usize = 0;
        while i < self.artifacts.len()
            invariant
                i <= self.artifacts@.len(),
                declared@.len() > 0,
            decreases self.artifacts@.len() - i,
        {
            if path_equal(&self.artifacts[i].declared_path, &resolved) {
                let bytes = self.artifacts[i].bytes.as_slice();
                assert(bytes@ == self.spec_artifacts()[i as int].spec_bytes());
                return Some(bytes);
            }
            i += 1;
        }
        None
    }

    /// Reuse the active bundle's source bytes for every managed declaration that is
    /// unchanged from the active deployment, so a configuration reload never rereads
    /// those mutable pathnames; only the distinct source-reload operation does.
    pub fn reuse_unchanged_managed_sources(self, active: &Self) -> (r: Result<Self, ConfigurationError>)
        ensures
            r matches Ok(out) ==> {
                &&& out.spec_dto() == self.spec_dto()
                &&& out.spec_toml_bytes() == self.spec_toml_bytes()
                &&& out.spec_toml_hash() == self.spec_toml_hash()
                &&& out.spec_base() == self.spec_base()
                &&& sources_replaced_from(self.spec_artifacts(), out.spec_artifacts(), active.spec_artifacts())
                &&& (self.wf() && active.wf() ==> out.wf())
            },
            reuses_nothing(self.spec_dto(), active.spec_dto()) ==> (r matches Ok(out) && out == self),
    {
        let mut next = self;
        let ghost original = next;
        let mut c: usize = 0;
        while c < next.effective.dto.managed_components.len()
            invariant
                c <= next.effective.dto.managed_components@.len(),
                next.spec_dto() == original.spec_dto(),
                next.spec_toml_bytes() == original.spec_toml_bytes(),
                next.spec_toml_hash() == original.spec_toml_hash(),
                next.base == original.base,
                sources_replaced_from(original.spec_artifacts(), next.spec_artifacts(), active.spec_artifacts()),
                original.wf() && active.wf() ==> next.wf(),
                reuses_nothing(original.spec_dto(), active.spec_dto()) ==> next == original,
                original == self,
            decreases next.effective.dto.managed_components@.len() - c,
        {
            let declared = match &next.effective.dto.managed_components[c].source {
                Some(source) => source.clone(),
                None => {
                    c += 1;
                    continue;
                },
            };
            if !declares_component(&active.effective.dto.managed_components, &next.effective.dto.managed_components[c]) {
                c += 1;
                continue;
            }
            proof {
                assert(reuses_source(active.spec_dto(), original.spec_dto().managed_components@[c as int]));
            }
            let candidate_path = resolve_artifact(&next.base, declared.as_str())?;
            let active_path = resolve_artifact(&active.base, declared.as_str())?;
            let donor = match find_source(&active.artifacts, &active_path) {
                Some(j) => j,
                None => {
                    return Err(ConfigurationError::artifact("active managed source missing"));
                },
            };
            let target = match find_source(&next.artifacts, &candidate_path) {
                Some(j) => j,
                None => {
                    return Err(ConfigurationError::artifact("candidate managed source missing"));
                },
            };
            let ghost before = next.artifacts@;
            let mut artifact = next.artifacts.remove(target);
            artifact.bytes = active.artifacts[donor].bytes.clone();
            artifact.sha256 = active.artifacts[donor].sha256;
            next.artifacts.insert(target, artifact);
            proof {
                assert(next.artifacts@ =~= before.update(target as int, artifact));
                assert(artifact.spec_bytes() == active.spec_artifacts()[donor as int].spec_bytes());
                assert forall|i: int| 0 <= i < next.spec_artifacts().len() implies #[trigger] next.spec_artifacts()[i]
                    == original.spec_artifacts()[i] || exists|j: int| 0 <= j < active.spec_artifacts().len()
                    && next.spec_artifacts()[i].spec_bytes() == active.spec_artifacts()[j].spec_bytes()
                    && next.spec_artifacts()[i].spec_hash() == active.spec_artifacts()[j].spec_hash() by {
                    if i == target {
                        assert(next.spec_artifacts()[i].spec_bytes() == active.spec_artifacts()[donor as int].spec_bytes());
                    } else {
                        assert(next.spec_artifacts()[i] == before[i]);
                    }
                }
                if original.wf() && active.wf() {
                    assert(active.spec_artifacts()[donor as int].wf());
                    assert forall|i: int| 0 <= i < next.spec_artifacts().len() implies #[trigger] next.spec_artifacts()[i].wf() by {
                        if i != target {
                            assert(next.spec_artifacts()[i] == before[i]);
                        }
                    }
                }
            }
            c += 1;
        }
        Ok(next)
    }

    /// Reread every declared managed source into the bundle, keeping the TOML, the
    /// definitions and the effective deployment unchanged, then bound the retained
    /// bytes again.
    pub fn reload_managed_sources<R: ArtifactReader>(self, reader: &mut R) -> (r: Result<Self, ConfigurationError>)
        ensures
            r matches Ok(out) ==> {
                &&& out.spec_dto() == self.spec_dto()
                &&& out.spec_toml_bytes() == self.spec_toml_bytes()
                &&& out.spec_toml_hash() == self.spec_toml_hash()
                &&& out.spec_artifacts().len() == self.spec_artifacts().len()
                &&& forall|i: int| 0 <= i < out.spec_artifacts().len() ==> (#[trigger] out.spec_artifacts()[i]).spec_kind()
                    == self.spec_artifacts()[i].spec_kind()
                &&& forall|i: int| 0 <= i < out.spec_artifacts().len() && (#[trigger] out.spec_artifacts()[i]).spec_kind()
                    == ArtifactKind::InstrumentDefinition ==> out.spec_artifacts()[i] == self.spec_artifacts()[i]
                &&& out.spec_base() == self.spec_base()
                &&& (self.wf() ==> out.wf())
                &&& retained_total(out.spec_toml_bytes().len() as int, out.spec_artifacts()) <= MAX_DEPLOYMENT_BYTES
                &&& reloaded_from(
                    self.spec_artifacts(),
                    out.spec_artifacts(),
                    final(reader).spec_reads()@.subrange(old(reader).spec_reads()@.len() as int, final(reader).spec_reads()@.len() as int),
                )
            },
            sourceless(self.spec_dto()) ==> *final(reader) == *old(reader),
            reads_limited(old(reader).spec_reads()@, final(reader).spec_reads()@, 0),
            sourceless(self.spec_dto()) && retained_total(self.spec_toml_bytes().len() as int, self.spec_artifacts())
                <= MAX_DEPLOYMENT_BYTES ==> (r matches Ok(out) && out == self),
            sourceless(self.spec_dto()) && retained_total(self.spec_toml_bytes().len() as int, self.spec_artifacts())
                > MAX_DEPLOYMENT_BYTES ==> r matches Err(ConfigurationError::TooLarge),
    {
        proof {
            assert(reader.spec_reads()@.subrange(0, reader.spec_reads()@.len() as int) =~= reader.spec_reads()@);
        }
        let mut next = self;
        let ghost original = next;
        let mut c: usize = 0;
        while c < next.effective.dto.managed_components.len()
            invariant
                c <= next.effective.dto.managed_components@.len(),
                next.spec_dto() == original.spec_dto(),
                next.spec_toml_bytes() == original.spec_toml_bytes(),
                next.spec_toml_hash() == original.spec_toml_hash(),
                next.base == original.base,
                next.spec_artifacts().len() == original.spec_artifacts().len(),
                forall|i: int| 0 <= i < next.spec_artifacts().len() ==> (#[trigger] next.spec_artifacts()[i]).spec_kind()
                    == original.spec_artifacts()[i].spec_kind(),
                forall|i: int| 0 <= i < next.spec_artifacts().len() && (#[trigger] next.spec_artifacts()[i]).spec_kind()
                    == ArtifactKind::InstrumentDefinition ==> next.spec_artifacts()[i] == original.spec_artifacts()[i],
                original.wf() ==> next.wf(),
                sourceless(original.spec_dto()) ==> next == original && *reader == *old(reader),
                reads_limited(old(reader).spec_reads()@, reader.spec_reads()@, 0),
                reloaded_from(
                    original.spec_artifacts(),
                    next.spec_artifacts(),
                    reader.spec_reads()@.subrange(old(reader).spec_reads()@.len() as int, reader.spec_reads()@.len() as int),
                ),
                original == self,
            decreases next.effective.dto.managed_components@.len() - c,
        {
            let declared = match &next.effective.dto.managed_components[c].source {
                Some(source) => source.clone(),
                None => {
                    c += 1;
                    continue;
                },
            };
            proof {
                assert(original.spec_dto().managed_components@[c as int].source is Some);
            }
            let path = resolve_artifact(&next.base, declared.as_str())?;
            let ghost reads_before = reader.spec_reads()@;
            let read = reader.read(&path, MAX_MANAGED_SOURCE_BYTES);
            proof {
                let r0 = old(reader).spec_reads()@;
                let r1 = reader.spec_reads()@;
                assert(r1.subrange(0, r0.len() as int) =~= reads_before.subrange(0, r0.len() as int));
                assert forall|j: int| r0.len() <= j < r1.len() implies (#[trigger] r1[j]).maximum == read_limit(
                    j - r0.len(),
                    0,
                ) by {
                    if j < reads_before.len() {
                        assert(r1[j] == reads_before[j]);
                    }
                }
            }
            let bytes = read?;
            let ghost fresh = bytes@;
            if str_from_utf8(bytes.as_slice()).is_none() {
                return Err(ConfigurationError::artifact("managed source must be UTF-8"));
            }
            let target = match find_source(&next.artifacts, &path) {
                Some(j) => j,
                None => {
                    return Err(ConfigurationError::artifact("managed source not frozen"));
                },
            };
            let ghost before = next.artifacts@;
            let mut artifact = next.artifacts.remove(target);
            artifact.sha256 = hash_bytes(bytes.as_slice());
            artifact.bytes = bytes;
            next.artifacts.insert(target, artifact);
            proof {
                assert(next.artifacts@ =~= before.update(target as int, artifact));
                assert forall|i: int| 0 <= i < next.spec_artifacts().len() && (#[trigger] next.spec_artifacts()[i]).spec_kind()
                    == ArtifactKind::InstrumentDefinition implies next.spec_artifacts()[i] == original.spec_artifacts()[i] by {
                    assert(i != target);
                    assert(next.spec_artifacts()[i] == before[i]);
                }
                assert forall|i: int| 0 <= i < next.spec_artifacts().len() implies (#[trigger] next.spec_artifacts()[i]).spec_kind()
                    == original.spec_artifacts()[i].spec_kind() by {
                    if i != target {
                        assert(next.spec_artifacts()[i] == before[i]);
                    }
                }
                if original.wf() {
                    assert forall|i: int| 0 <= i < next.spec_artifacts().len() implies #[trigger] next.spec_artifacts()[i].wf() by {
                        if i != target {
                            assert(next.spec_artifacts()[i] == before[i]);
                        }
                    }
                }
                let r0len = old(reader).spec_reads()@.len() as int;
                let old_new = reads_before.subrange(r0len, reads_before.len() as int);
                let new_new = reader.spec_reads()@.subrange(r0len, reader.spec_reads()@.len() as int);
                assert(new_new.len() == old_new.len() + 1);
                assert forall|j: int| 0 <= j < old_new.len() implies new_new[j] == old_new[j] by {
                    assert(reader.spec_reads()@[r0len + j] == reads_before[r0len + j]);
                }
                assert(new_new[old_new.len() as int] == reader.spec_reads()@.last());
                assert(read_returned(new_new, old_new.len() as int, next.spec_artifacts()[target as int]));
                assert forall|i: int| 0 <= i < next.spec_artifacts().len() implies #[trigger] next.spec_artifacts()[i]
                    == original.spec_artifacts()[i] || exists|j: int| read_returned(new_new, j, next.spec_artifacts()[i]) by {
                    if i != target {
                        assert(next.spec_artifacts()[i] == before[i]);
                        if before[i] != original.spec_artifacts()[i] {
                            let j = choose|j: int| read_returned(old_new, j, before[i]);
                            assert(read_returned(new_new, j, next.spec_artifacts()[i]));
                        }
                    } else {
                        assert(read_returned(new_new, old_new.len() as int, next.spec_artifacts()[i]));
                    }
                }
            }
            c += 1;
        }
        match retained_bytes(next.toml_bytes.len(), &next.artifacts) {
            Some(total) => {
                if total > MAX_DEPLOYMENT_BYTES {
                    return Err(ConfigurationError::TooLarge);
                }
            },
            None => {
                return Err(ConfigurationError::TooLarge);
            },
        }
        Ok(next)
    }
}

} // verus!
