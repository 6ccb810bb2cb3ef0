//! Admission of the declarative `metakon-5x3-v1` instrument profile.
//!
//! The format selects known operations and metadata; it cannot supply raw
//! addresses, frames, functions or executable expressions. Before any JSON is
//! parsed the text is bounded in size and, by a string-aware byte scan, in
//! object/array nesting. After parsing, a physical instrument definition must be
//! read-only.
use crate::text::concat;
use vstd::prelude::*;
use vstd::string::*;

verus! {

/// Maximum UTF-8 bytes accepted before JSON parsing.
pub const MAX_DEFINITION_BYTES: usize = 16384;

/// Maximum JSON object/array nesting accepted by this small format.
pub const MAX_DEFINITION_DEPTH: usize = 8;

/// The one trusted instrument profile.
pub const DEFINITION_PROFILE: &'static str = "metakon-5x3-v1";

/// Failure while loading or validating a declarative instrument.
#[derive(Clone, Debug, PartialEq, Eq)]
pub enum DefinitionError {
    /// Input exceeded the fixed 16 KiB parser admission bound.
    TooLarge,
    /// Object/array nesting exceeded the fixed depth bound.
    TooDeep,
    /// JSON syntax, duplicate fields or unknown fields were rejected.
    InvalidJson(String),
    /// Parsed metadata conflicts with the trusted profile.
    InvalidDomain(String),
}

/// Human-readable description of each definition failure.
pub open spec fn definition_error_message(e: DefinitionError) -> Seq<char> {
    match e {
        DefinitionError::TooLarge => "instrument definition exceeds 16 KiB"@,
        DefinitionError::TooDeep => "instrument definition nesting exceeds 8"@,
        DefinitionError::InvalidJson(m) => "invalid definition JSON: "@ + m@,
        DefinitionError::InvalidDomain(m) => "invalid instrument definition: "@ + m@,
    }
}

impl DefinitionError {
    /// Human-readable description.
    pub fn message(&self) -> (m: String)
        ensures
            m@ == definition_error_message(*self),
    {
        proof {
            reveal_strlit("instrument definition exceeds 16 KiB");
            reveal_strlit("instrument definition nesting exceeds 8");
        }
        match self {
            DefinitionError::TooLarge => "instrument definition exceeds 16 KiB".to_owned(),
            DefinitionError::TooDeep => "instrument definition nesting exceeds 8".to_owned(),
            DefinitionError::InvalidJson(m) => concat("invalid definition JSON: ", m.as_str()),
            DefinitionError::InvalidDomain(m) => concat("invalid instrument definition: ", m.as_str()),
        }
    }
}

/// One step of the nesting scan over `(depth, in_string, escaped)`; `None` once the
/// nesting bound is exceeded.
pub open spec fn depth_step(s: (int, bool, bool), byte: u8) -> Option<(int, bool, bool)> {
    let (depth, in_string, escaped) = s;
    if in_string {
        if escaped {
            Some((depth, true, false))
        } else if byte == 92 {
            Some((depth, true, true))
        } else if byte == 34 {
            Some((depth, false, false))
        } else {
            Some(s)
        }
    } else if byte == 34 {
        Some((depth, true, escaped))
    } else if byte == 123 || byte == 91 {
        if depth + 1 > MAX_DEFINITION_DEPTH {
            None
        } else {
            Some((depth + 1, in_string, escaped))
        }
    } else if byte == 125 || byte == 93 {
        Some((if depth > 0 { depth - 1 } else { 0 }, in_string, escaped))
    } else {
        Some(s)
    }
}

/// The nesting scan over a prefix: its final state, or `None` if the bound was hit.
pub open spec fn depth_run(bytes: Seq<u8>) -> Option<(int, bool, bool)>
    decreases bytes.len(),
{
    if bytes.len() == 0 {
        Some((0, false, false))
    } else {
        match depth_run(bytes.drop_last()) {
            Some(s) => depth_step(s, bytes.last()),
            None => None,
        }
    }
}

/// Once the scan hits the bound on a prefix, the whole scan does.
proof fn lemma_depth_error_sticks(bytes: Seq<u8>, k: int)
    requires
        0 <= k <= bytes.len(),
        depth_run(bytes.subrange(0, k)) is None,
    ensures
        depth_run(bytes) is None,
    decreases bytes.len() - k,
{
    if k == bytes.len() {
        assert(bytes.subrange(0, k) =~= bytes);
    } else {
        assert(bytes.subrange(0, k + 1).drop_last() =~= bytes.subrange(0, k));
        lemma_depth_error_sticks(bytes, k + 1);
    }
}

/// Bound object/array nesting outside strings before any allocation by a parser.
pub fn check_depth(input: &str) -> (r: Result<(), DefinitionError>)
    ensures
        r is Ok <==> depth_run(input.spec_bytes()) is Some,
        r is Err ==> r == Err::<(), DefinitionError>(DefinitionError::TooDeep),
{
    let bytes = input.as_bytes();
    let mut depth: usize = 0;
    let mut in_string = false;
    let mut escaped = false;
    let mut i: usize = 0;
    while i < bytes.len()
        invariant
            bytes@ == input.spec_bytes(),
            i <= bytes@.len(),
            depth <= MAX_DEFINITION_DEPTH,
            depth_run(bytes@.subrange(0, i as int)) == Some((depth as int, in_string, escaped)),
        decreases bytes@.len() - i,
    {
        let byte = bytes[i];
        proof {
            assert(bytes@.subrange(0, i + 1).drop_last() =~= bytes@.subrange(0, i as int));
            assert(bytes@.subrange(0, i + 1).last() == byte);
        }
        if in_string {
            if escaped {
                escaped = false;
            } else if byte == 92 {
                escaped = true;
            } else if byte == 34 {
                in_string = false;
            }
        } else if byte == 34 {
            in_string = true;
        } else if byte == 123 || byte == 91 {
            if depth + 1 > MAX_DEFINITION_DEPTH {
                proof {
                    lemma_depth_error_sticks(bytes@, (i + 1) as int);
                }
                return Err(DefinitionError::TooDeep);
            }
            depth = depth + 1;
        } else if byte == 125 || byte == 93 {
            depth = if depth > 0 { depth - 1 } else { 0 };
        }
        i += 1;
    }
    proof {
        assert(bytes@.subrange(0, bytes@.len() as int) =~= bytes@);
    }
    Ok(())
}

/// Admission before JSON parsing: at most 16 KiB, then nesting at most 8.
pub fn admit_definition_text(input: &str) -> (r: Result<(), DefinitionError>)
    ensures
        input.spec_bytes().len() > MAX_DEFINITION_BYTES ==> r == Err::<(), DefinitionError>(
            DefinitionError::TooLarge,
        ),
        input.spec_bytes().len() <= MAX_DEFINITION_BYTES ==> (r is Ok <==> depth_run(
            input.spec_bytes(),
        ) is Some),
        input.spec_bytes().len() <= MAX_DEFINITION_BYTES && r is Err ==> r == Err::<
            (),
            DefinitionError,
        >(DefinitionError::TooDeep),
{
    if input.as_bytes().len() > MAX_DEFINITION_BYTES {
        return Err(DefinitionError::TooLarge);
    }
    check_depth(input)
}

/// Whether the declared profile is the trusted one.
pub fn check_profile(profile: &str) -> (r: Result<(), DefinitionError>)
    ensures
        r is Ok <==> profile@ == DEFINITION_PROFILE@,
        r is Err ==> (r matches Err(DefinitionError::InvalidDomain(m)) && m@
            == "unsupported instrument profile"@),
{
    let declared = profile.to_owned();
    let trusted = DEFINITION_PROFILE.to_owned();
    if declared == trusted {
        Ok(())
    } else {
        Err(DefinitionError::InvalidDomain("unsupported instrument profile".to_owned()))
    }
}

/// How a parameter may be accessed.
#[derive(Clone, Copy, Debug, PartialEq, Eq, Structural)]
pub enum ParameterAccess {
    /// Read only.
    ReadOnly,
    /// Read and write.
    ReadWrite,
    /// Write only.
    WriteOnly,
}

/// What a parameter is for.
#[derive(Clone, Copy, Debug, PartialEq, Eq, Structural)]
pub enum ParameterRole {
    /// A measured value.
    Measurement,
    /// An actuator setting.
    Actuator,
    /// A diagnostic value.
    Diagnostic,
}

/// Whether writing a parameter affects an output.
#[derive(Clone, Copy, Debug, PartialEq, Eq, Structural)]
pub enum WriteEffect {
    /// Writing has no output effect.
    NoEffect,
    /// Writing affects an output.
    OutputAffecting,
}

/// The known instrument operation a parameter selects.
#[derive(Clone, Copy, Debug, PartialEq, Eq, Structural)]
pub enum KnownOperation {
    /// Channel type query.
    ChannelType,
    /// Temperature read.
    Temperature,
    /// Output control.
    Output,
}

/// The safety-relevant metadata of one declared parameter.
#[derive(Clone, Copy, Debug, PartialEq, Eq, Structural)]
pub struct ParameterSafety {
    /// Access mode.
    pub access: ParameterAccess,
    /// Role.
    pub role: ParameterRole,
    /// Write effect.
    pub write_effect: WriteEffect,
    /// Selected operation.
    pub operation: KnownOperation,
}

/// A parameter that cannot act on the plant.
pub open spec fn parameter_read_only(p: ParameterSafety) -> bool {
    &&& p.access == ParameterAccess::ReadOnly
    &&& p.role != ParameterRole::Actuator
    &&& p.write_effect != WriteEffect::OutputAffecting
    &&& p.operation != KnownOperation::Output
}

/// A physical definition must be read-only: every parameter is read-only, has no
/// actuator role, no output-affecting write effect and no output operation.
pub fn definition_read_only(parameters: &Vec<ParameterSafety>) -> (r: bool)
    ensures
        r <==> forall|i: int| 0 <= i < parameters@.len() ==> #[trigger] parameter_read_only(
            parameters@[i],
        ),
{
    let mut i: usize = 0;
    while i < parameters.len()
        invariant
            i <= parameters@.len(),
            forall|j: int| 0 <= j < i ==> #[trigger] parameter_read_only(parameters@[j]),
        decreases parameters@.len() - i,
    {
        let p = parameters[i];
        if !(p.access == ParameterAccess::ReadOnly) || p.role == ParameterRole::Actuator
            || p.write_effect == WriteEffect::OutputAffecting || p.operation
            == KnownOperation::Output {
            assert(!parameter_read_only(parameters@[i as int]));
            return false;
        }
        i += 1;
    }
    true
}

} // verus!
