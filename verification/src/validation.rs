//! Structural, cross-reference and safety validation of a deployment document.
//!
//! The domain core supplies a few facts about the document that it alone can
//! decide: which implementation identities and component configurations it admits,
//! which units it knows, the parameter identities of heater power and temperature,
//! the Celsius unit identity and the script implementation identity. They arrive as
//! plain values in [`DomainFacts`]; everything else is decided here.
use crate::binary64::{Real, real_le, real_lt, le, lt, zero, hundred, minus_hundred, zero_value, hundred_value, minus_hundred_value};
use crate::configuration::{
    ConfigurationError, key_valid, display_name_valid, normalized_port, is_invalid, rejects,
    validate_key, validate_display_name, validate_nonzero, validate_period, validate_transaction_time,
    validate_history, normalize_port, com_digits,
};
use crate::dto::{
    ConfigEntry, ConfigValue, DeploymentDto, InstrumentDto, ManagedComponentDto, RecordingPolicyDto,
    ReferenceDto, ReferenceKindDto, ResourceDto, SafeProfileDto, ControllerDto,
};
use vstd::prelude::*;
use vstd::string::*;
use crate::text::trimmed;

verus! {

/// Stable semantic identity of the reference native transform.
pub const MOVING_MEAN_IMPLEMENTATION: &'static str = "native.moving_mean.v1";

/// Facts the domain core decides about a document, index-aligned with its lists.
#[derive(Clone, Debug)]
pub struct DomainFacts {
    /// Identity of the script component implementation.
    pub lua_implementation: String,
    /// Parameter identity of heater power outputs.
    pub heater_power_parameter: u64,
    /// Parameter identity of temperature signals.
    pub temperature_parameter: u64,
    /// Unit identity of degrees Celsius.
    pub celsius_unit: String,
    /// Per managed component: its implementation identity is admitted.
    pub implementation_valid: Vec<bool>,
    /// Per managed component: its configuration is admitted plain data.
    pub config_valid: Vec<bool>,
    /// Per Reference: its unit identity and symbol are admitted.
    pub reference_unit_valid: Vec<bool>,
}

/// The facts cover every component and Reference of the document, and the script
/// implementation is not the native moving-mean transform.
pub open spec fn facts_aligned(dto: DeploymentDto, facts: DomainFacts) -> bool {
    &&& facts.lua_implementation@ != MOVING_MEAN_IMPLEMENTATION@
    &&& facts.implementation_valid@.len() == dto.managed_components@.len()
    &&& facts.config_valid@.len() == dto.managed_components@.len()
    &&& facts.reference_unit_valid@.len() == dto.references@.len()
}

/// A configuration that is exactly one integer `window` in 2..=64.
pub open spec fn configured_window(config: Seq<ConfigEntry>) -> Option<int> {
    if config.len() == 1 && config[0].key@ == "window"@ {
        match config[0].value {
            ConfigValue::Integer(v) => if 2 <= v <= 64 {
                Some(v as int)
            } else {
                None
            },
            _ => None,
        }
    } else {
        None
    }
}

/// The window of a moving-mean configuration, if it is exactly `window = 2..=64`.
pub fn window_of(config: &Vec<ConfigEntry>) -> (w: Option<usize>)
    ensures
        match configured_window(config@) {
            None => w is None,
            Some(v) => w == Some(v as usize),
        },
{
    if config.len() != 1 {
        return None;
    }
    let window_key = "window".to_owned();
    if !(config[0].key == window_key) {
        return None;
    }
    match &config[0].value {
        ConfigValue::Integer(v) => {
            if 2 <= *v && *v <= 64 {
                Some(*v as usize)
            } else {
                None
            }
        },
        _ => None,
    }
}

// ---------------------------------------------------------------------------
// Shared predicates and helpers.

/// A stable logical key, as text.
pub open spec fn kv(s: Seq<char>) -> bool {
    key_valid(vstd::utf8::encode_utf8(s))
}

/// A period or transaction time in 1..=60000 ms.
pub open spec fn ms_ok(v: u64) -> bool {
    1 <= v <= 60000
}

/// `r` is a configuration rejection.
pub open spec fn rejected<T>(r: Result<T, ConfigurationError>) -> bool {
    r matches Err(ConfigurationError::InvalidConfiguration(_))
}

/// The first diagnostic among per-entry outcomes, if any entry has one.
pub open spec fn first_error(errors: Seq<Option<Seq<char>>>) -> Option<Seq<char>>
    decreases errors.len(),
{
    if errors.len() == 0 {
        None
    } else if errors[0] is Some {
        errors[0]
    } else {
        first_error(errors.drop_first())
    }
}

proof fn lemma_first_error(errors: Seq<Option<Seq<char>>>, i: int)
    requires
        0 <= i < errors.len(),
        forall|j: int| 0 <= j < i ==> errors[j] is None,
        errors[i] is Some,
    ensures
        first_error(errors) == errors[i],
    decreases i,
{
    if i > 0 {
        lemma_first_error(errors.drop_first(), i - 1);
    }
}

proof fn lemma_no_error(errors: Seq<Option<Seq<char>>>)
    requires
        forall|j: int| 0 <= j < errors.len() ==> errors[j] is None,
    ensures
        first_error(errors) is None,
    decreases errors.len(),
{
    if errors.len() > 0 {
        lemma_no_error(errors.drop_first());
    }
}

fn check_key(s: &String) -> (r: Result<(), ConfigurationError>)
    ensures
        r is Ok <==> kv(s@),
        r is Err ==> rejected(r),
        r is Err ==> rejects(r, "invalid logical key"@),
{
    validate_key(s.as_str())
}

fn kv_exec(s: &String) -> (r: bool)
    ensures
        r == kv(s@),
{
    validate_key(s.as_str()).is_ok()
}

fn display_name_exec(s: &String) -> (r: bool)
    ensures
        r == display_name_valid(s@),
{
    validate_display_name(s.as_str()).is_ok()
}

fn check_display_name(s: &String) -> (r: Result<(), ConfigurationError>)
    ensures
        r is Ok <==> display_name_valid(s@),
        r is Err ==> rejected(r),
        r is Err ==> rejects(r, "invalid display name"@),
{
    validate_display_name(s.as_str())
}

/// Whether `x` occurs in `v`.
pub fn contains_id(v: &Vec<u64>, x: u64) -> (r: bool)
    ensures
        r == v@.contains(x),
{
    let mut i: usize = 0;
    while i < v.len()
        invariant
            i <= v@.len(),
            forall|j: int| 0 <= j < i ==> v@[j] != x,
        decreases v@.len() - i,
    {
        if v[i] == x {
            proof {
                assert(v@[i as int] == x);
            }
            return true;
        }
        i += 1;
    }
    false
}

/// Some text in `v` equals `x`.
pub open spec fn has_text(v: Seq<String>, x: Seq<char>) -> bool {
    exists|j: int| 0 <= j < v.len() && (#[trigger] v[j])@ == x
}

/// Whether a text equal to `x` occurs in `v`.
pub fn contains_text(v: &Vec<String>, x: &String) -> (r: bool)
    ensures
        r == has_text(v@, x@),
{
    let mut i: usize = 0;
    while i < v.len()
        invariant
            i <= v@.len(),
            forall|j: int| 0 <= j < i ==> (#[trigger] v@[j])@ != x@,
        decreases v@.len() - i,
    {
        if v[i] == *x {
            proof {
                assert(v@[i as int]@ == x@);
            }
            return true;
        }
        i += 1;
    }
    false
}

/// Whether the pair occurs in `v`.
pub fn contains_pair(v: &Vec<(u64, u64)>, x: (u64, u64)) -> (r: bool)
    ensures
        r == v@.contains(x),
{
    let mut i: usize = 0;
    while i < v.len()
        invariant
            i <= v@.len(),
            forall|j: int| 0 <= j < i ==> v@[j] != x,
        decreases v@.len() - i,
    {
        if v[i].0 == x.0 && v[i].1 == x.1 {
            proof {
                assert(v@[i as int] == x);
            }
            return true;
        }
        i += 1;
    }
    false
}

// ---------------------------------------------------------------------------
// Prelude: schema, identity, listener, recording and counts.

/// Document-level settings are admitted.
pub open spec fn prelude_valid(dto: DeploymentDto) -> bool {
    &&& dto.schema_version == 1
    &&& kv(dto.runtime.key@)
    &&& display_name_valid(dto.runtime.display_name@)
    &&& dto.server.host@ == "127.0.0.1"@
    &&& (dto.recording.enabled ==> dto.recording.path@.len() > 0)
    &&& (!dto.recording.enabled ==> dto.recording.policy != RecordingPolicyDto::Required)
    &&& dto.resources@.len() <= 8
    &&& dto.instruments@.len() <= 64
    &&& dto.managed_components@.len() <= 8
    &&& dto.references@.len() <= 8
    &&& dto.controllers@.len() <= 8
    &&& dto.safe_profiles@.len() <= 8
}

/// The first document-level setting that is not admitted, as its diagnostic.
pub open spec fn prelude_error(dto: DeploymentDto) -> Option<Seq<char>> {
    if dto.schema_version != 1 {
        Some("unsupported schema_version"@)
    } else if !kv(dto.runtime.key@) {
        Some("invalid logical key"@)
    } else if !display_name_valid(dto.runtime.display_name@) {
        Some("invalid display name"@)
    } else if dto.server.host@ != "127.0.0.1"@ {
        Some("server host must be 127.0.0.1"@)
    } else if dto.recording.enabled && dto.recording.path@.len() == 0 {
        Some("enabled recording requires path"@)
    } else if !dto.recording.enabled && dto.recording.policy == RecordingPolicyDto::Required {
        Some("Required recording cannot be disabled"@)
    } else if !(dto.resources@.len() <= 8 && dto.instruments@.len() <= 64
        && dto.managed_components@.len() <= 8 && dto.references@.len() <= 8
        && dto.controllers@.len() <= 8 && dto.safe_profiles@.len() <= 8) {
        Some("deployment object limit exceeded"@)
    } else {
        None
    }
}

fn check_prelude(dto: &DeploymentDto) -> (r: Result<(), ConfigurationError>)
    ensures
        r is Ok <==> prelude_valid(*dto),
        r is Err ==> rejected(r),
        prelude_valid(*dto) <==> prelude_error(*dto) is None,
        prelude_error(*dto) matches Some(m) ==> rejects(r, m),
{
    if dto.schema_version != 1 {
        return Err(ConfigurationError::invalid("unsupported schema_version"));
    }
    check_key(&dto.runtime.key)?;
    check_display_name(&dto.runtime.display_name)?;
    let loopback = "127.0.0.1".to_owned();
    if !(dto.server.host == loopback) {
        return Err(ConfigurationError::invalid("server host must be 127.0.0.1"));
    }
    if dto.recording.enabled && dto.recording.path.as_str().is_empty() {
        return Err(ConfigurationError::invalid("enabled recording requires path"));
    }
    if !dto.recording.enabled && dto.recording.policy == RecordingPolicyDto::Required {
        return Err(ConfigurationError::invalid("Required recording cannot be disabled"));
    }
    if dto.resources.len() > 8 || dto.instruments.len() > 64 || dto.managed_components.len() > 8
        || dto.references.len() > 8 || dto.controllers.len() > 8 || dto.safe_profiles.len() > 8 {
        return Err(ConfigurationError::invalid("deployment object limit exceeded"));
    }
    Ok(())
}

// ---------------------------------------------------------------------------
// Resources.

/// Bounded serial settings.
pub open spec fn serial_valid(r: ResourceDto) -> bool {
    &&& 1 <= r.baud_rate <= 4_000_000
    &&& 5 <= r.data_bits <= 8
    &&& (r.stop_bits == 1 || r.stop_bits == 2)
    &&& 1 <= r.read_timeout_ms <= 250
    &&& 1 <= r.write_timeout_ms <= 250
    &&& 1 <= r.open_timeout_ms <= 2000
    &&& 1 <= r.recovery_timeout_ms <= 2000
}

/// One resource is admitted on its own.
pub open spec fn resource_ok(r: ResourceDto) -> bool {
    &&& r.id != 0
    &&& kv(r.key@)
    &&& normalized_port(r.port@) is Some
    &&& serial_valid(r)
}

/// Two resources do not share identity, key or normalized port.
pub open spec fn resources_distinct(a: ResourceDto, b: ResourceDto) -> bool {
    &&& a.id != b.id
    &&& a.key@ != b.key@
    &&& normalized_port(a.port@) != normalized_port(b.port@)
}

/// Every resource is admitted and no two collide.
pub open spec fn resources_valid(rs: Seq<ResourceDto>) -> bool {
    &&& forall|i: int| 0 <= i < rs.len() ==> #[trigger] resource_ok(rs[i])
    &&& forall|a: int, b: int| 0 <= a < b < rs.len() ==> #[trigger] resources_distinct(rs[a], rs[b])
}

/// Validate bounded serial settings.
pub fn validate_serial(resource: &ResourceDto) -> (r: Result<(), ConfigurationError>)
    ensures
        r is Ok <==> serial_valid(*resource),
        r is Err ==> rejects(r, "invalid bounded serial settings"@),
{
    if !(1 <= resource.baud_rate && resource.baud_rate <= 4_000_000) || !(5 <= resource.data_bits
        && resource.data_bits <= 8) || !(resource.stop_bits == 1 || resource.stop_bits == 2) || !(1
        <= resource.read_timeout_ms && resource.read_timeout_ms <= 250) || !(1
        <= resource.write_timeout_ms && resource.write_timeout_ms <= 250) || !(1
        <= resource.open_timeout_ms && resource.open_timeout_ms <= 2000) || !(1
        <= resource.recovery_timeout_ms && resource.recovery_timeout_ms <= 2000) {
        return Err(ConfigurationError::invalid("invalid bounded serial settings"));
    }
    Ok(())
}

/// Diagnostic of an unusable port text.
pub open spec fn port_error(port: Seq<char>) -> Seq<char> {
    if com_digits(trimmed(port)) is None {
        "Windows port must be COM<number>"@
    } else {
        "invalid COM port"@
    }
}

/// Diagnostic of resource `i`, checked after every resource before it.
pub open spec fn resource_error(rs: Seq<ResourceDto>, i: int) -> Option<Seq<char>> {
    let r = rs[i];
    if r.id == 0 {
        Some("resource id must be nonzero"@)
    } else if !kv(r.key@) {
        Some("invalid logical key"@)
    } else if exists|j: int| 0 <= j < i && ((#[trigger] rs[j]).id == r.id || rs[j].key@ == r.key@) {
        Some("duplicate resource identity"@)
    } else if normalized_port(r.port@) is None {
        Some(port_error(r.port@))
    } else if exists|j: int| 0 <= j < i && normalized_port((#[trigger] rs[j]).port@) == normalized_port(r.port@) {
        Some("duplicate COM binding"@)
    } else if !serial_valid(r) {
        Some("invalid bounded serial settings"@)
    } else {
        None
    }
}

/// The first resource diagnostic, in document order.
pub open spec fn resources_error(rs: Seq<ResourceDto>) -> Option<Seq<char>> {
    first_error(Seq::new(rs.len(), |i: int| resource_error(rs, i)))
}

fn check_resources(rs: &Vec<ResourceDto>) -> (r: Result<(), ConfigurationError>)
    ensures
        r is Ok <==> resources_valid(rs@),
        r is Err ==> rejected(r),
        r is Ok <==> resources_error(rs@) is None,
        resources_error(rs@) matches Some(m) ==> rejects(r, m),
{
    let ghost errors = Seq::new(rs@.len(), |i: int| resource_error(rs@, i));
    proof {
        reveal_strlit("resource id");
        reveal_strlit(" must be nonzero");
        reveal_strlit("resource id must be nonzero");
        assert("resource id"@ + " must be nonzero"@ =~= "resource id must be nonzero"@);
    }
    let mut ids: Vec<u64> = Vec::new();
    let mut keys: Vec<String> = Vec::new();
    let mut ports: Vec<String> = Vec::new();
    let mut i: usize = 0;
    while i < rs.len()
        invariant
            i <= rs@.len(),
            ids@.len() == i,
            keys@.len() == i,
            ports@.len() == i,
            forall|j: int| 0 <= j < i ==> #[trigger] resource_ok(rs@[j]),
            forall|a: int, b: int| 0 <= a < b < i ==> #[trigger] resources_distinct(rs@[a], rs@[b]),
            forall|j: int| 0 <= j < i ==> ids@[j] == (#[trigger] rs@[j]).id,
            forall|j: int| 0 <= j < i ==> keys@[j]@ == (#[trigger] rs@[j]).key@,
            forall|j: int| 0 <= j < i ==> Some(ports@[j]@) == normalized_port((#[trigger] rs@[j]).port@),
            errors == Seq::new(rs@.len(), |i: int| resource_error(rs@, i)),
            forall|j: int| 0 <= j < i ==> (#[trigger] errors[j]) is None,
            "resource id"@ + " must be nonzero"@ == "resource id must be nonzero"@,
        decreases rs@.len() - i,
    {
        let resource = &rs[i];
        proof {
            assert(resources_valid(rs@) ==> resource_ok(rs@[i as int]));
        }
        if resource.id == 0 {
            proof {
                assert(errors[i as int] == Some("resource id must be nonzero"@));
                lemma_first_error(errors, i as int);
            }
        }
        validate_nonzero(resource.id, "resource id")?;
        if !kv_exec(&resource.key) {
            proof {
                lemma_first_error(errors, i as int);
            }
        }
        check_key(&resource.key)?;
        let dup_id = contains_id(&ids, resource.id);
        let dup_key = contains_text(&keys, &resource.key);
        proof {
            if dup_id || dup_key {
                if dup_id {
                    let j = choose|j: int| 0 <= j < ids@.len() && ids@[j] == resource.id;
                    assert(rs@[j].id == rs@[i as int].id);
                } else {
                    let j = choose|j: int| 0 <= j < keys@.len() && (#[trigger] keys@[j])@ == resource.key@;
                    assert(rs@[j].key@ == rs@[i as int].key@);
                }
                assert(errors[i as int] == Some("duplicate resource identity"@));
                lemma_first_error(errors, i as int);
            } else {
                assert forall|j: int| 0 <= j < i implies !((#[trigger] rs@[j]).id == resource.id || rs@[j].key@ == resource.key@) by {
                    assert(ids@[j] == rs@[j].id);
                    assert(keys@[j]@ == rs@[j].key@);
                }
            }
        }
        if dup_id || dup_key {
            proof {
                if dup_id {
                    let j = choose|j: int| 0 <= j < ids@.len() && ids@[j] == resource.id;
                    assert(!resources_distinct(rs@[j], rs@[i as int]));
                } else {
                    let j = choose|j: int| 0 <= j < keys@.len() && (#[trigger] keys@[j])@ == resource.key@;
                    assert(!resources_distinct(rs@[j], rs@[i as int]));
                }
            }
            return Err(ConfigurationError::invalid("duplicate resource identity"));
        }
        proof {
            if normalized_port(resource.port@) is None {
                assert(errors[i as int] == Some(port_error(resource.port@)));
                lemma_first_error(errors, i as int);
            }
        }
        let normalized = normalize_port(resource.port.as_str())?;
        let dup_port = contains_text(&ports, &normalized);
        if dup_port {
            proof {
                let j = choose|j: int| 0 <= j < ports@.len() && (#[trigger] ports@[j])@ == normalized@;
                assert(!resources_distinct(rs@[j], rs@[i as int]));
                assert(normalized_port(rs@[j].port@) == normalized_port(resource.port@));
                assert(errors[i as int] == Some("duplicate COM binding"@));
                lemma_first_error(errors, i as int);
            }
            return Err(ConfigurationError::invalid("duplicate COM binding"));
        }
        proof {
            assert forall|j: int| 0 <= j < i implies normalized_port((#[trigger] rs@[j]).port@) != normalized_port(resource.port@) by {
                assert(Some(ports@[j]@) == normalized_port(rs@[j].port@));
                assert(ports@[j]@ != normalized@);
            }
            if !serial_valid(*resource) {
                assert(errors[i as int] == Some("invalid bounded serial settings"@));
                lemma_first_error(errors, i as int);
            }
        }
        validate_serial(resource)?;
        proof {
            assert(errors[i as int] is None);
            assert(resource_ok(rs@[i as int]));
            assert forall|a: int, b: int| 0 <= a < b < i + 1 implies #[trigger] resources_distinct(rs@[a], rs@[b]) by {
                if b == i {
                    assert(ids@[a] == rs@[a].id);
                    assert(!ids@.contains(resource.id)) ;
                    assert(ids@[a] != resource.id);
                    assert(keys@[a]@ != resource.key@);
                    assert(ports@[a]@ != normalized@);
                }
            }
        }
        ids.push(resource.id);
        keys.push(resource.key.clone());
        ports.push(normalized);
        i += 1;
    }
    proof {
        lemma_no_error(errors);
    }
    Ok(())
}

// ---------------------------------------------------------------------------
// Instruments.

/// Some resource carries this identity.
pub open spec fn has_resource(rs: Seq<ResourceDto>, id: u64) -> bool {
    exists|j: int| 0 <= j < rs.len() && (#[trigger] rs[j]).id == id
}

/// Kind-specific settings of one instrument are admitted.
pub open spec fn instrument_settings_ok(rs: Seq<ResourceDto>, x: InstrumentDto) -> bool {
    match x {
        InstrumentDto::Metakon {
            resource_id,
            address,
            poll_period_ms,
            queue_timeout_ms,
            transaction_timeout_ms,
            ..
        } => has_resource(rs, resource_id) && 1 <= address <= 247 && ms_ok(poll_period_ms) && ms_ok(
            queue_timeout_ms,
        ) && ms_ok(transaction_timeout_ms),
        InstrumentDto::VirtualMeasurement {
            display_name,
            history_capacity,
            base_temperature,
            poll_period_ms,
            ..
        } => display_name_valid(display_name@) && 1 <= history_capacity <= 1024
            && base_temperature.spec_finite() && real_le(minus_hundred(), base_temperature)
            && real_le(base_temperature, hundred()) && ms_ok(poll_period_ms),
        InstrumentDto::ThermalPlant {
            display_name,
            history_capacity,
            ambient_temperature,
            initial_temperature,
            gain_per_percent,
            time_constant_ms,
            poll_period_ms,
            ..
        } => display_name_valid(display_name@) && 1 <= history_capacity <= 1024
            && ambient_temperature.spec_finite() && initial_temperature.spec_finite()
            && gain_per_percent.spec_finite() && !real_le(gain_per_percent, zero())
            && time_constant_ms != 0 && ms_ok(poll_period_ms),
    }
}

/// One instrument is admitted on its own.
pub open spec fn instrument_ok(rs: Seq<ResourceDto>, x: InstrumentDto) -> bool {
    &&& x.spec_id() != 0
    &&& kv(x.spec_key())
    &&& instrument_settings_ok(rs, x)
}

/// Two instruments do not share identity or key.
pub open spec fn instruments_distinct(a: InstrumentDto, b: InstrumentDto) -> bool {
    a.spec_id() != b.spec_id() && a.spec_key() != b.spec_key()
}

/// Every instrument is admitted and no two collide.
pub open spec fn instruments_valid(rs: Seq<ResourceDto>, xs: Seq<InstrumentDto>) -> bool {
    &&& forall|i: int| 0 <= i < xs.len() ==> #[trigger] instrument_ok(rs, xs[i])
    &&& forall|a: int, b: int| 0 <= a < b < xs.len() ==> #[trigger] instruments_distinct(xs[a], xs[b])
}

fn resource_known(rs: &Vec<ResourceDto>, id: u64) -> (r: bool)
    ensures
        r == has_resource(rs@, id),
{
    let mut i: usize = 0;
    while i < rs.len()
        invariant
            i <= rs@.len(),
            forall|j: int| 0 <= j < i ==> (#[trigger] rs@[j]).id != id,
        decreases rs@.len() - i,
    {
        if rs[i].id == id {
            proof {
                assert(rs@[i as int].id == id);
            }
            return true;
        }
        i += 1;
    }
    false
}

/// Diagnostic of an instrument's kind-specific settings.
pub open spec fn settings_error(rs: Seq<ResourceDto>, x: InstrumentDto) -> Option<Seq<char>> {
    match x {
        InstrumentDto::Metakon {
            resource_id,
            address,
            poll_period_ms,
            queue_timeout_ms,
            transaction_timeout_ms,
            ..
        } => if !has_resource(rs, resource_id) {
            Some("unknown resource reference"@)
        } else if !(1 <= address <= 247) {
            Some("Metakon address out of range"@)
        } else if !ms_ok(poll_period_ms) {
            Some("poll period must be 1..=60000 ms"@)
        } else if !ms_ok(queue_timeout_ms) {
            Some("queue timeout must be 1..=60000 ms"@)
        } else if !ms_ok(transaction_timeout_ms) {
            Some("transaction timeout must be 1..=60000 ms"@)
        } else {
            None
        },
        InstrumentDto::VirtualMeasurement {
            display_name,
            history_capacity,
            base_temperature,
            poll_period_ms,
            ..
        } => if !display_name_valid(display_name@) {
            Some("invalid display name"@)
        } else if !(1 <= history_capacity <= 1024) {
            Some("history capacity out of range"@)
        } else if !(base_temperature.spec_finite() && real_le(minus_hundred(), base_temperature)
            && real_le(base_temperature, hundred())) {
            Some("virtual temperature out of range"@)
        } else if !ms_ok(poll_period_ms) {
            Some("poll period must be 1..=60000 ms"@)
        } else {
            None
        },
        InstrumentDto::ThermalPlant {
            display_name,
            history_capacity,
            ambient_temperature,
            initial_temperature,
            gain_per_percent,
            time_constant_ms,
            poll_period_ms,
            ..
        } => if !display_name_valid(display_name@) {
            Some("invalid display name"@)
        } else if !(1 <= history_capacity <= 1024) {
            Some("history capacity out of range"@)
        } else if !(ambient_temperature.spec_finite() && initial_temperature.spec_finite()
            && gain_per_percent.spec_finite() && !real_le(gain_per_percent, zero())
            && time_constant_ms != 0) {
            Some("invalid thermal plant values"@)
        } else if !ms_ok(poll_period_ms) {
            Some("poll period must be 1..=60000 ms"@)
        } else {
            None
        },
    }
}

/// Diagnostic of instrument `i`, checked after every instrument before it.
pub open spec fn instrument_error(rs: Seq<ResourceDto>, xs: Seq<InstrumentDto>, i: int) -> Option<Seq<char>> {
    let x = xs[i];
    if x.spec_id() == 0 {
        Some("instrument id must be nonzero"@)
    } else if !kv(x.spec_key()) {
        Some("invalid logical key"@)
    } else if exists|j: int| 0 <= j < i && ((#[trigger] xs[j]).spec_id() == x.spec_id() || xs[j].spec_key() == x.spec_key()) {
        Some("duplicate instrument identity"@)
    } else {
        settings_error(rs, x)
    }
}

/// The first instrument diagnostic, in document order.
pub open spec fn instruments_error(rs: Seq<ResourceDto>, xs: Seq<InstrumentDto>) -> Option<Seq<char>> {
    first_error(Seq::new(xs.len(), |i: int| instrument_error(rs, xs, i)))
}

fn check_instrument_settings(rs: &Vec<ResourceDto>, x: &InstrumentDto) -> (r: Result<(), ConfigurationError>)
    ensures
        r is Ok <==> instrument_settings_ok(rs@, *x),
        r is Err ==> rejected(r),
        r is Ok <==> settings_error(rs@, *x) is None,
        settings_error(rs@, *x) matches Some(m) ==> rejects(r, m),
{
    proof {
        reveal_strlit("poll period");
        reveal_strlit("queue timeout");
        reveal_strlit("transaction timeout");
        reveal_strlit(" must be 1..=60000 ms");
        reveal_strlit("poll period must be 1..=60000 ms");
        reveal_strlit("queue timeout must be 1..=60000 ms");
        reveal_strlit("transaction timeout must be 1..=60000 ms");
        assert("poll period"@ + " must be 1..=60000 ms"@ =~= "poll period must be 1..=60000 ms"@);
        assert("queue timeout"@ + " must be 1..=60000 ms"@ =~= "queue timeout must be 1..=60000 ms"@);
        assert("transaction timeout"@ + " must be 1..=60000 ms"@ =~= "transaction timeout must be 1..=60000 ms"@);
    }
    match x {
        InstrumentDto::Metakon {
            resource_id,
            address,
            poll_period_ms,
            queue_timeout_ms,
            transaction_timeout_ms,
            ..
        } => {
            if !resource_known(rs, *resource_id) {
                return Err(ConfigurationError::invalid("unknown resource reference"));
            }
            if !(1 <= *address && *address <= 247) {
                return Err(ConfigurationError::invalid("Metakon address out of range"));
            }
            validate_period(*poll_period_ms, "poll period")?;
            validate_transaction_time(*queue_timeout_ms, "queue timeout")?;
            validate_transaction_time(*transaction_timeout_ms, "transaction timeout")?;
            Ok(())
        },
        InstrumentDto::VirtualMeasurement {
            display_name,
            history_capacity,
            base_temperature,
            poll_period_ms,
            ..
        } => {
            check_display_name(display_name)?;
            validate_history(*history_capacity)?;
            if !base_temperature.is_finite() || !(le(minus_hundred_value(), *base_temperature) && le(
                *base_temperature,
                hundred_value(),
            )) {
                return Err(ConfigurationError::invalid("virtual temperature out of range"));
            }
            validate_period(*poll_period_ms, "poll period")?;
            Ok(())
        },
        InstrumentDto::ThermalPlant {
            display_name,
            history_capacity,
            ambient_temperature,
            initial_temperature,
            gain_per_percent,
            time_constant_ms,
            poll_period_ms,
            ..
        } => {
            check_display_name(display_name)?;
            validate_history(*history_capacity)?;
            if !ambient_temperature.is_finite() || !initial_temperature.is_finite()
                || !gain_per_percent.is_finite() || le(*gain_per_percent, zero_value())
                || *time_constant_ms == 0 {
                return Err(ConfigurationError::invalid("invalid thermal plant values"));
            }
            validate_period(*poll_period_ms, "poll period")?;
            Ok(())
        },
    }
}

fn check_instruments(rs: &Vec<ResourceDto>, xs: &Vec<InstrumentDto>) -> (r: Result<(), ConfigurationError>)
    ensures
        r is Ok <==> instruments_valid(rs@, xs@),
        r is Err ==> rejected(r),
        r is Ok <==> instruments_error(rs@, xs@) is None,
        instruments_error(rs@, xs@) matches Some(m) ==> rejects(r, m),
{
    let ghost errors = Seq::new(xs@.len(), |i: int| instrument_error(rs@, xs@, i));
    proof {
        reveal_strlit("instrument id");
        reveal_strlit(" must be nonzero");
        reveal_strlit("instrument id must be nonzero");
        assert("instrument id"@ + " must be nonzero"@ =~= "instrument id must be nonzero"@);
    }
    let mut ids: Vec<u64> = Vec::new();
    let mut keys: Vec<String> = Vec::new();
    let mut i: usize = 0;
    while i < xs.len()
        invariant
            i <= xs@.len(),
            ids@.len() == i,
            keys@.len() == i,
            forall|j: int| 0 <= j < i ==> #[trigger] instrument_ok(rs@, xs@[j]),
            forall|a: int, b: int| 0 <= a < b < i ==> #[trigger] instruments_distinct(xs@[a], xs@[b]),
            forall|j: int| 0 <= j < i ==> ids@[j] == (#[trigger] xs@[j]).spec_id(),
            forall|j: int| 0 <= j < i ==> keys@[j]@ == (#[trigger] xs@[j]).spec_key(),
            errors == Seq::new(xs@.len(), |i: int| instrument_error(rs@, xs@, i)),
            forall|j: int| 0 <= j < i ==> (#[trigger] errors[j]) is None,
            "instrument id"@ + " must be nonzero"@ == "instrument id must be nonzero"@,
        decreases xs@.len() - i,
    {
        let x = &xs[i];
        proof {
            assert(instruments_valid(rs@, xs@) ==> instrument_ok(rs@, xs@[i as int]));
        }
        if x.id() == 0 {
            proof {
                lemma_first_error(errors, i as int);
            }
        }
        validate_nonzero(x.id(), "instrument id")?;
        if !kv_exec(x.key()) {
            proof {
                lemma_first_error(errors, i as int);
            }
        }
        check_key(x.key())?;
        let dup_id = contains_id(&ids, x.id());
        let dup_key = contains_text(&keys, x.key());
        proof {
            if dup_id || dup_key {
                if dup_id {
                    let j = choose|j: int| 0 <= j < ids@.len() && ids@[j] == x.spec_id();
                    assert(xs@[j].spec_id() == x.spec_id());
                } else {
                    let j = choose|j: int| 0 <= j < keys@.len() && (#[trigger] keys@[j])@ == x.spec_key();
                    assert(xs@[j].spec_key() == x.spec_key());
                }
                assert(errors[i as int] == Some("duplicate instrument identity"@));
                lemma_first_error(errors, i as int);
            } else {
                assert forall|j: int| 0 <= j < i implies !((#[trigger] xs@[j]).spec_id() == x.spec_id() || xs@[j].spec_key() == x.spec_key()) by {
                    assert(ids@[j] == xs@[j].spec_id());
                    assert(keys@[j]@ == xs@[j].spec_key());
                }
            }
        }
        if dup_id || dup_key {
            proof {
                if dup_id {
                    let j = choose|j: int| 0 <= j < ids@.len() && ids@[j] == x.spec_id();
                    assert(!instruments_distinct(xs@[j], xs@[i as int]));
                } else {
                    let j = choose|j: int| 0 <= j < keys@.len() && (#[trigger] keys@[j])@ == x.spec_key();
                    assert(!instruments_distinct(xs@[j], xs@[i as int]));
                }
            }
            return Err(ConfigurationError::invalid("duplicate instrument identity"));
        }
        proof {
            assert(errors[i as int] == settings_error(rs@, *x));
            if settings_error(rs@, *x) is Some {
                lemma_first_error(errors, i as int);
            }
        }
        check_instrument_settings(rs, x)?;
        proof {
            assert(errors[i as int] is None);
            assert(instrument_ok(rs@, xs@[i as int]));
            assert forall|a: int, b: int| 0 <= a < b < i + 1 implies #[trigger] instruments_distinct(xs@[a], xs@[b]) by {
                if b == i {
                    assert(ids@[a] == xs@[a].spec_id());
                    assert(ids@[a] != x.spec_id());
                    assert(keys@[a]@ != x.spec_key());
                }
            }
        }
        ids.push(x.id());
        keys.push(x.key().clone());
        i += 1;
    }
    proof {
        lemma_no_error(errors);
    }
    Ok(())
}

// ---------------------------------------------------------------------------
// Managed components.

/// A configuration value is a plain-data leaf: a number, boolean, text or an array
/// of numbers.
pub open spec fn plain_leaf(v: ConfigValue) -> bool {
    match v {
        ConfigValue::Array(items) => forall|k: int| 0 <= k < items@.len() ==> !(#[trigger] items@[k] is Other),
        ConfigValue::Other(_) => false,
        _ => true,
    }
}

/// Every configuration value is a plain-data leaf.
pub open spec fn plain_config_shape(config: Seq<ConfigEntry>) -> bool {
    forall|j: int| 0 <= j < config.len() ==> #[trigger] plain_leaf(config[j].value)
}

/// The implementation-specific declaration rule.
pub open spec fn implementation_rule(c: ManagedComponentDto, facts: DomainFacts) -> bool {
    if c.implementation@ == facts.lua_implementation@ {
        c.source is Some
    } else if c.implementation@ == MOVING_MEAN_IMPLEMENTATION@ {
        c.source is None && c.input_instrument_id is Some && configured_window(c.config@) is Some
    } else {
        false
    }
}

/// One component is admitted on its own (with its domain facts at index `i`).
pub open spec fn component_ok(facts: DomainFacts, i: int, c: ManagedComponentDto) -> bool {
    &&& c.id != 0
    &&& c.instrument_id != 0
    &&& kv(c.key@)
    &&& display_name_valid(c.display_name@)
    &&& ms_ok(c.period_ms)
    &&& facts.implementation_valid@[i]
    &&& plain_config_shape(c.config@)
    &&& facts.config_valid@[i]
    &&& implementation_rule(c, facts)
}

/// Some declared instrument carries this identity.
pub open spec fn has_instrument(xs: Seq<InstrumentDto>, id: u64) -> bool {
    exists|j: int| 0 <= j < xs.len() && (#[trigger] xs[j]).spec_id() == id
}

/// Some component publishes this instrument identity.
pub open spec fn has_component_instrument(cs: Seq<ManagedComponentDto>, id: u64) -> bool {
    exists|j: int| 0 <= j < cs.len() && (#[trigger] cs[j]).instrument_id == id
}

/// Two components share neither identity nor published instrument.
pub open spec fn components_distinct(a: ManagedComponentDto, b: ManagedComponentDto) -> bool {
    a.id != b.id && a.instrument_id != b.instrument_id
}

/// Every component is admitted, no two collide and none publishes a declared
/// instrument identity.
pub open spec fn components_valid(dto: DeploymentDto, facts: DomainFacts) -> bool {
    let cs = dto.managed_components@;
    &&& forall|i: int| 0 <= i < cs.len() ==> #[trigger] component_ok(facts, i, cs[i])
    &&& forall|a: int, b: int| 0 <= a < b < cs.len() ==> #[trigger] components_distinct(cs[a], cs[b])
    &&& forall|i: int| 0 <= i < cs.len() ==> !has_instrument(dto.instruments@, (#[trigger] cs[i]).instrument_id)
}

/// Diagnostic of one configuration value that is not a plain-data leaf.
pub open spec fn leaf_error(v: ConfigValue) -> Option<Seq<char>> {
    match v {
        ConfigValue::Array(items) => if exists|k: int| 0 <= k < items@.len() && (#[trigger] items@[k]) is Other {
            Some("managed config arrays must contain numbers"@)
        } else {
            None
        },
        ConfigValue::Other(_) => Some("managed config values must be bounded PlainData leaves"@),
        _ => None,
    }
}

/// Diagnostic of a component configuration: the first value that is not a leaf,
/// in key order, else a configuration the domain does not admit.
pub open spec fn config_error(config: Seq<ConfigEntry>, admitted: bool) -> Option<Seq<char>> {
    match first_error(Seq::new(config.len(), |j: int| leaf_error(config[j].value))) {
        Some(m) => Some(m),
        None => if !admitted {
            Some("invalid managed PlainData config"@)
        } else {
            None
        },
    }
}

/// Check the plain-data shape of a component configuration, in key order.
fn check_plain_config(config: &Vec<ConfigEntry>, admitted: bool) -> (r: Result<(), ConfigurationError>)
    ensures
        r is Ok <==> plain_config_shape(config@) && admitted,
        r is Err ==> rejected(r),
        r is Ok <==> config_error(config@, admitted) is None,
        config_error(config@, admitted) matches Some(m) ==> rejects(r, m),
{
    let ghost errors = Seq::new(config@.len(), |j: int| leaf_error(config@[j].value));
    let mut j: usize = 0;
    while j < config.len()
        invariant
            j <= config@.len(),
            forall|k: int| 0 <= k < j ==> #[trigger] plain_leaf(config@[k].value),
            errors == Seq::new(config@.len(), |j: int| leaf_error(config@[j].value)),
            forall|k: int| 0 <= k < j ==> (#[trigger] errors[k]) is None,
        decreases config@.len() - j,
    {
        match &config[j].value {
            ConfigValue::Array(items) => {
                let mut k: usize = 0;
                while k < items.len()
                    invariant
                        j < config@.len(),
                        config@[j as int].value == ConfigValue::Array(*items),
                        k <= items@.len(),
                        forall|m: int| 0 <= m < k ==> !(#[trigger] items@[m] is Other),
                        errors == Seq::new(config@.len(), |j: int| leaf_error(config@[j].value)),
                        forall|m: int| 0 <= m < j ==> (#[trigger] errors[m]) is None,
                    decreases items@.len() - k,
                {
                    if let crate::dto::ConfigItem::Other(_) = &items[k] {
                        proof {
                            assert(items@[k as int] is Other);
                            assert(!plain_leaf(config@[j as int].value));
                            assert(errors[j as int] == Some("managed config arrays must contain numbers"@));
                            lemma_first_error(errors, j as int);
                        }
                        return Err(ConfigurationError::invalid("managed config arrays must contain numbers"));
                    }
                    k += 1;
                }
            },
            ConfigValue::Other(_) => {
                proof {
                    assert(!plain_leaf(config@[j as int].value));
                    lemma_first_error(errors, j as int);
                }
                return Err(ConfigurationError::invalid(
                    "managed config values must be bounded PlainData leaves",
                ));
            },
            _ => {},
        }
        proof {
            assert(errors[j as int] is None);
        }
        j += 1;
    }
    proof {
        lemma_no_error(errors);
    }
    if !admitted {
        return Err(ConfigurationError::invalid("invalid managed PlainData config"));
    }
    Ok(())
}

/// Diagnostic of the implementation-specific declaration rule.
pub open spec fn rule_error(c: ManagedComponentDto, facts: DomainFacts) -> Option<Seq<char>> {
    if c.implementation@ == facts.lua_implementation@ {
        if c.source is Some {
            None
        } else {
            Some("Lua component requires source"@)
        }
    } else if c.implementation@ == MOVING_MEAN_IMPLEMENTATION@ {
        if c.source is None && c.input_instrument_id is Some && configured_window(c.config@) is Some {
            None
        } else {
            Some("native moving mean requires Transform input, no source and window 2..=64"@)
        }
    } else {
        Some("unknown managed implementation"@)
    }
}

fn check_implementation_rule(c: &ManagedComponentDto, facts: &DomainFacts) -> (r: Result<(), ConfigurationError>)
    ensures
        r is Ok <==> implementation_rule(*c, *facts),
        r is Err ==> rejected(r),
        rule_error(*c, *facts) matches Some(m) ==> rejects(r, m),
{
    let moving_mean = MOVING_MEAN_IMPLEMENTATION.to_owned();
    if c.implementation == facts.lua_implementation {
        if c.source.is_some() {
            return Ok(());
        }
        return Err(ConfigurationError::invalid("Lua component requires source"));
    }
    if c.implementation == moving_mean {
        if c.source.is_none() && c.input_instrument_id.is_some() && window_of(&c.config).is_some() {
            return Ok(());
        }
        return Err(ConfigurationError::invalid(
            "native moving mean requires Transform input, no source and window 2..=64",
        ));
    }
    Err(ConfigurationError::invalid("unknown managed implementation"))
}

fn instrument_known(xs: &Vec<InstrumentDto>, id: u64) -> (r: bool)
    ensures
        r == has_instrument(xs@, id),
{
    let mut i: usize = 0;
    while i < xs.len()
        invariant
            i <= xs@.len(),
            forall|j: int| 0 <= j < i ==> (#[trigger] xs@[j]).spec_id() != id,
        decreases xs@.len() - i,
    {
        if xs[i].id() == id {
            proof {
                assert(xs@[i as int].spec_id() == id);
            }
            return true;
        }
        i += 1;
    }
    false
}

/// Diagnostic of component `i`, checked after every component before it.
pub open spec fn component_error(dto: DeploymentDto, facts: DomainFacts, i: int) -> Option<Seq<char>> {
    let cs = dto.managed_components@;
    let c = cs[i];
    if c.id == 0 {
        Some("component id must be nonzero"@)
    } else if c.instrument_id == 0 {
        Some("component instrument id must be nonzero"@)
    } else if !kv(c.key@) {
        Some("invalid logical key"@)
    } else if !display_name_valid(c.display_name@) {
        Some("invalid display name"@)
    } else if !ms_ok(c.period_ms) {
        Some("component period must be 1..=60000 ms"@)
    } else if !facts.implementation_valid@[i] {
        Some("invalid component implementation"@)
    } else if config_error(c.config@, facts.config_valid@[i]) is Some {
        config_error(c.config@, facts.config_valid@[i])
    } else if rule_error(c, facts) is Some {
        rule_error(c, facts)
    } else if (exists|j: int| 0 <= j < i && ((#[trigger] cs[j]).id == c.id || cs[j].instrument_id == c.instrument_id))
        || has_instrument(dto.instruments@, c.instrument_id) {
        Some("duplicate component identity"@)
    } else {
        None
    }
}

/// The first component diagnostic, in document order.
pub open spec fn components_error(dto: DeploymentDto, facts: DomainFacts) -> Option<Seq<char>> {
    first_error(Seq::new(dto.managed_components@.len(), |i: int| component_error(dto, facts, i)))
}

fn check_components(dto: &DeploymentDto, facts: &DomainFacts) -> (r: Result<(), ConfigurationError>)
    requires
        facts_aligned(*dto, *facts),
    ensures
        r is Ok <==> components_valid(*dto, *facts),
        r is Err ==> rejected(r),
        r is Ok <==> components_error(*dto, *facts) is None,
        components_error(*dto, *facts) matches Some(m) ==> rejects(r, m),
{
    let ghost errors = Seq::new(dto.managed_components@.len(), |i: int| component_error(*dto, *facts, i));
    proof {
        reveal_strlit("component id");
        reveal_strlit("component instrument id");
        reveal_strlit(" must be nonzero");
        reveal_strlit("component id must be nonzero");
        reveal_strlit("component instrument id must be nonzero");
        reveal_strlit("component period");
        reveal_strlit(" must be 1..=60000 ms");
        reveal_strlit("component period must be 1..=60000 ms");
        assert("component id"@ + " must be nonzero"@ =~= "component id must be nonzero"@);
        assert("component instrument id"@ + " must be nonzero"@ =~= "component instrument id must be nonzero"@);
        assert("component period"@ + " must be 1..=60000 ms"@ =~= "component period must be 1..=60000 ms"@);
    }
    let cs = &dto.managed_components;
    let mut ids: Vec<u64> = Vec::new();
    let mut outputs: Vec<u64> = Vec::new();
    let mut i: usize = 0;
    while i < cs.len()
        invariant
            facts_aligned(*dto, *facts),
            cs == &dto.managed_components,
            i <= cs@.len(),
            ids@.len() == i,
            outputs@.len() == i,
            forall|j: int| 0 <= j < i ==> #[trigger] component_ok(*facts, j, cs@[j]),
            forall|a: int, b: int| 0 <= a < b < i ==> #[trigger] components_distinct(cs@[a], cs@[b]),
            forall|j: int| 0 <= j < i ==> !has_instrument(dto.instruments@, (#[trigger] cs@[j]).instrument_id),
            forall|j: int| 0 <= j < i ==> ids@[j] == (#[trigger] cs@[j]).id,
            forall|j: int| 0 <= j < i ==> outputs@[j] == (#[trigger] cs@[j]).instrument_id,
            errors == Seq::new(dto.managed_components@.len(), |i: int| component_error(*dto, *facts, i)),
            forall|j: int| 0 <= j < i ==> (#[trigger] errors[j]) is None,
            "component id"@ + " must be nonzero"@ == "component id must be nonzero"@,
            "component instrument id"@ + " must be nonzero"@ == "component instrument id must be nonzero"@,
            "component period"@ + " must be 1..=60000 ms"@ == "component period must be 1..=60000 ms"@,
        decreases cs@.len() - i,
    {
        let c = &cs[i];
        proof {
            assert(components_valid(*dto, *facts) ==> component_ok(*facts, i as int, cs@[i as int]));
            assert(errors[i as int] == component_error(*dto, *facts, i as int));
        }
        let early = c.id == 0 || c.instrument_id == 0 || !kv_exec(&c.key) || !display_name_exec(
            &c.display_name,
        ) || !(1 <= c.period_ms && c.period_ms <= 60000) || !facts.implementation_valid[i];
        if early {
            proof {
                lemma_first_error(errors, i as int);
            }
        }
        validate_nonzero(c.id, "component id")?;
        validate_nonzero(c.instrument_id, "component instrument id")?;
        check_key(&c.key)?;
        check_display_name(&c.display_name)?;
        validate_period(c.period_ms, "component period")?;
        if !facts.implementation_valid[i] {
            return Err(ConfigurationError::invalid("invalid component implementation"));
        }
        proof {
            if config_error(c.config@, facts.config_valid@[i as int]) is Some {
                lemma_first_error(errors, i as int);
            }
        }
        check_plain_config(&c.config, facts.config_valid[i])?;
        proof {
            if rule_error(*c, *facts) is Some {
                lemma_first_error(errors, i as int);
            }
        }
        check_implementation_rule(c, facts)?;
        let dup_id = contains_id(&ids, c.id);
        let declared = instrument_known(&dto.instruments, c.instrument_id);
        let dup_output = contains_id(&outputs, c.instrument_id);
        proof {
            if !(dup_id || declared || dup_output) {
                assert forall|j: int| 0 <= j < i implies !((#[trigger] cs@[j]).id == c.id || cs@[j].instrument_id == c.instrument_id) by {
                    assert(ids@[j] == cs@[j].id);
                    assert(outputs@[j] == cs@[j].instrument_id);
                }
            }
        }
        if dup_id || declared || dup_output {
            proof {
                if dup_id {
                    let j = choose|j: int| 0 <= j < ids@.len() && ids@[j] == c.id;
                    assert(!components_distinct(cs@[j], cs@[i as int]));
                    assert(cs@[j].id == c.id);
                } else if dup_output {
                    let j = choose|j: int| 0 <= j < outputs@.len() && outputs@[j] == c.instrument_id;
                    assert(!components_distinct(cs@[j], cs@[i as int]));
                    assert(cs@[j].instrument_id == c.instrument_id);
                }
                assert(errors[i as int] == Some("duplicate component identity"@));
                lemma_first_error(errors, i as int);
            }
            return Err(ConfigurationError::invalid("duplicate component identity"));
        }
        proof {
            assert(errors[i as int] is None);
            assert(component_ok(*facts, i as int, cs@[i as int]));
            assert forall|a: int, b: int| 0 <= a < b < i + 1 implies #[trigger] components_distinct(cs@[a], cs@[b]) by {
                if b == i {
                    assert(ids@[a] == cs@[a].id);
                    assert(ids@[a] != c.id);
                    assert(outputs@[a] != c.instrument_id);
                }
            }
        }
        ids.push(c.id);
        outputs.push(c.instrument_id);
        i += 1;
    }
    proof {
        lemma_no_error(errors);
    }
    Ok(())
}

// ---------------------------------------------------------------------------
// Managed inputs and their dependency chains.

/// Every declared transform input names a declared or managed instrument.
pub open spec fn inputs_known(dto: DeploymentDto) -> bool {
    let cs = dto.managed_components@;
    forall|i: int| 0 <= i < cs.len() && (#[trigger] cs[i]).input_instrument_id is Some ==> has_instrument(
        dto.instruments@,
        cs[i].input_instrument_id->Some_0,
    ) || has_component_instrument(cs, cs[i].input_instrument_id->Some_0)
}

/// Index of the first component at or after `k` publishing instrument `x`.
pub open spec fn find_component_from(cs: Seq<ManagedComponentDto>, x: u64, k: int) -> Option<int>
    decreases cs.len() - k,
{
    if k < 0 || k >= cs.len() {
        None
    } else if cs[k].instrument_id == x {
        Some(k)
    } else {
        find_component_from(cs, x, k + 1)
    }
}

/// The instrument a managed instrument reads, if it is managed and has an input.
pub open spec fn chain_next(cs: Seq<ManagedComponentDto>, x: u64) -> Option<u64> {
    match find_component_from(cs, x, 0) {
        Some(k) => cs[k].input_instrument_id,
        None => None,
    }
}

/// The `n`-th instrument on the dependency chain starting at `start`.
pub open spec fn chain_at(cs: Seq<ManagedComponentDto>, start: u64, n: nat) -> Option<u64>
    decreases n,
{
    if n == 0 {
        Some(start)
    } else {
        match chain_at(cs, start, (n - 1) as nat) {
            Some(x) => chain_next(cs, x),
            None => None,
        }
    }
}

/// The chain from `start` returns to an instrument it already visited within its
/// first `cs.len() + 1` positions (a chain through `n` managed instruments that
/// cycles does so within that many steps).
pub open spec fn chain_revisits(cs: Seq<ManagedComponentDto>, start: u64) -> bool {
    exists|a: nat, b: nat| a < b <= cs.len() && (#[trigger] chain_at(cs, start, a)) is Some && chain_at(cs, start, a)
        == #[trigger] chain_at(cs, start, b)
}

/// No managed dependency chain cycles.
pub open spec fn acyclic(cs: Seq<ManagedComponentDto>) -> bool {
    forall|i: int| 0 <= i < cs.len() ==> !chain_revisits(cs, (#[trigger] cs[i]).instrument_id)
}

proof fn lemma_chain_ends(cs: Seq<ManagedComponentDto>, start: u64, k: nat, n: nat)
    requires
        chain_at(cs, start, k) is None,
        k <= n,
    ensures
        chain_at(cs, start, n) is None,
    decreases n - k,
{
    if k < n {
        lemma_chain_ends(cs, start, k, (n - 1) as nat);
    }
}

fn find_component(cs: &Vec<ManagedComponentDto>, x: u64) -> (r: Option<u64>)
    ensures
        r == chain_next(cs@, x),
{
    let mut k: usize = 0;
    while k < cs.len()
        invariant
            k <= cs@.len(),
            find_component_from(cs@, x, 0) == find_component_from(cs@, x, k as int),
        decreases cs@.len() - k,
    {
        if cs[k].instrument_id == x {
            return cs[k].input_instrument_id;
        }
        k += 1;
    }
    None
}

fn check_inputs(dto: &DeploymentDto) -> (r: Result<(), ConfigurationError>)
    ensures
        r is Ok <==> inputs_known(*dto),
        r is Err ==> rejected(r),
        r is Err ==> rejects(r, "unknown managed input"@),
{
    let cs = &dto.managed_components;
    let mut outputs: Vec<u64> = Vec::new();
    let mut k: usize = 0;
    while k < cs.len()
        invariant
            cs == &dto.managed_components,
            k <= cs@.len(),
            outputs@.len() == k,
            forall|j: int| 0 <= j < k ==> outputs@[j] == (#[trigger] cs@[j]).instrument_id,
        decreases cs@.len() - k,
    {
        outputs.push(cs[k].instrument_id);
        k += 1;
    }
    let mut i: usize = 0;
    while i < cs.len()
        invariant
            cs == &dto.managed_components,
            i <= cs@.len(),
            outputs@.len() == cs@.len(),
            forall|j: int| 0 <= j < cs@.len() ==> outputs@[j] == (#[trigger] cs@[j]).instrument_id,
            forall|j: int| 0 <= j < i && (#[trigger] cs@[j]).input_instrument_id is Some ==> has_instrument(
                dto.instruments@,
                cs@[j].input_instrument_id->Some_0,
            ) || has_component_instrument(cs@, cs@[j].input_instrument_id->Some_0),
        decreases cs@.len() - i,
    {
        if let Some(input) = cs[i].input_instrument_id {
            let declared = instrument_known(&dto.instruments, input);
            let managed = contains_id(&outputs, input);
            if !declared && !managed {
                proof {
                    if has_component_instrument(cs@, input) {
                        let j = choose|j: int| 0 <= j < cs@.len() && (#[trigger] cs@[j]).instrument_id == input;
                        assert(outputs@[j] == input);
                    }
                }
                return Err(ConfigurationError::invalid("unknown managed input"));
            }
            proof {
                if managed {
                    let j = choose|j: int| 0 <= j < outputs@.len() && outputs@[j] == input;
                    assert(cs@[j].instrument_id == input);
                }
            }
        }
        i += 1;
    }
    Ok(())
}

fn check_acyclic(cs: &Vec<ManagedComponentDto>) -> (r: Result<(), ConfigurationError>)
    requires
        cs@.len() <= 8,
    ensures
        r is Ok <==> acyclic(cs@),
        r is Err ==> rejected(r),
        r is Err ==> rejects(r, "managed dependency cycle"@),
{
    let mut i: usize = 0;
    while i < cs.len()
        invariant
            cs@.len() <= 8,
            i <= cs@.len(),
            forall|j: int| 0 <= j < i ==> !chain_revisits(cs@, (#[trigger] cs@[j]).instrument_id),
        decreases cs@.len() - i,
    {
        let start = cs[i].instrument_id;
        let mut visited: Vec<u64> = Vec::new();
        let mut current: Option<u64> = Some(start);
        let mut k: usize = 0;
        while k <= cs.len() && current.is_some()
            invariant
                cs@.len() <= 8,
                i < cs@.len(),
                start == cs@[i as int].instrument_id,
                k <= cs@.len() + 1,
                visited@.len() == k,
                current == chain_at(cs@, start, k as nat),
                forall|a: int| 0 <= a < k ==> Some(#[trigger] visited@[a]) == chain_at(cs@, start, a as nat),
                forall|a: int, b: int| 0 <= a < b < k ==> visited@[a] != visited@[b],
            decreases cs@.len() + 1 - k,
        {
            let x = current.unwrap();
            if contains_id(&visited, x) {
                proof {
                    let a = choose|a: int| 0 <= a < visited@.len() && visited@[a] == x;
                    assert(chain_at(cs@, start, a as nat) == Some(x));
                    assert(chain_revisits(cs@, start));
                }
                return Err(ConfigurationError::invalid("managed dependency cycle"));
            }
            let next = find_component(cs, x);
            proof {
                assert(chain_at(cs@, start, (k + 1) as nat) == chain_next(cs@, x));
            }
            visited.push(x);
            current = next;
            k += 1;
        }
        proof {
            assert forall|a: nat, b: nat| a < b <= cs@.len() && (#[trigger] chain_at(cs@, start, a)) is Some
                implies chain_at(cs@, start, a) != #[trigger] chain_at(cs@, start, b) by {
                if b < k {
                    assert(Some(visited@[a as int]) == chain_at(cs@, start, a));
                    assert(Some(visited@[b as int]) == chain_at(cs@, start, b));
                } else {
                    lemma_chain_ends(cs@, start, k as nat, b);
                }
            }
            assert(!chain_revisits(cs@, start));
        }
        i += 1;
    }
    Ok(())
}

// ---------------------------------------------------------------------------
// References.

/// The kind-specific fields of a Reference are admitted.
pub open spec fn reference_kind_ok(r: ReferenceDto) -> bool {
    match r.kind {
        ReferenceKindDto::Fixed => r.target is None && r.rate is None,
        ReferenceKindDto::Ramp => r.target is Some && r.rate is Some && r.target->Some_0.spec_finite()
            && r.rate->Some_0.spec_finite() && !real_le(r.rate->Some_0, zero()),
    }
}

/// One Reference is admitted on its own (with its unit fact at index `i`).
pub open spec fn reference_ok(facts: DomainFacts, i: int, r: ReferenceDto) -> bool {
    &&& kv(r.key@)
    &&& facts.reference_unit_valid@[i]
    &&& r.value.spec_finite()
    &&& reference_kind_ok(r)
}

/// Two References share neither identity nor key.
pub open spec fn references_distinct(a: ReferenceDto, b: ReferenceDto) -> bool {
    a.id != b.id && a.key@ != b.key@
}

/// Every Reference is admitted, none has identity zero and no two collide.
pub open spec fn references_valid(rs: Seq<ReferenceDto>, facts: DomainFacts) -> bool {
    &&& forall|i: int| 0 <= i < rs.len() ==> (#[trigger] rs[i]).id != 0
    &&& forall|a: int, b: int| 0 <= a < b < rs.len() ==> #[trigger] references_distinct(rs[a], rs[b])
    &&& forall|i: int| 0 <= i < rs.len() ==> #[trigger] reference_ok(facts, i, rs[i])
}

/// Diagnostic of Reference `i` on its own.
pub open spec fn reference_item_error(facts: DomainFacts, i: int, r: ReferenceDto) -> Option<Seq<char>> {
    if !kv(r.key@) {
        Some("invalid logical key"@)
    } else if !facts.reference_unit_valid@[i] {
        Some("invalid Reference unit"@)
    } else if !r.value.spec_finite() {
        Some("invalid Reference value"@)
    } else {
        match r.kind {
            ReferenceKindDto::Fixed => if r.target is Some || r.rate is Some {
                Some("Fixed Reference cannot declare ramp fields"@)
            } else {
                None
            },
            ReferenceKindDto::Ramp => if !(r.target is Some && r.rate is Some) {
                Some("Ramp Reference requires target and rate"@)
            } else if !(r.target->Some_0.spec_finite() && r.rate->Some_0.spec_finite() && !real_le(
                r.rate->Some_0,
                zero(),
            )) {
                Some("invalid Ramp Reference"@)
            } else {
                None
            },
        }
    }
}

/// The first Reference diagnostic: identities first, then keys, then each
/// Reference in document order.
pub open spec fn references_error(rs: Seq<ReferenceDto>, facts: DomainFacts) -> Option<Seq<char>> {
    if (exists|a: int, b: int| #![trigger rs[a], rs[b]] 0 <= a < b < rs.len() && rs[a].id == rs[b].id)
        || (exists|i: int| 0 <= i < rs.len() && (#[trigger] rs[i]).id == 0) {
        Some("duplicate or zero Reference identity"@)
    } else if exists|a: int, b: int| #![trigger rs[a], rs[b]] 0 <= a < b < rs.len() && rs[a].key@ == rs[b].key@ {
        Some("duplicate Reference key"@)
    } else {
        first_error(Seq::new(rs.len(), |i: int| reference_item_error(facts, i, rs[i])))
    }
}

fn check_references(rs: &Vec<ReferenceDto>, facts: &DomainFacts) -> (r: Result<(), ConfigurationError>)
    requires
        facts.reference_unit_valid@.len() == rs@.len(),
    ensures
        r is Ok <==> references_valid(rs@, *facts),
        r is Err ==> rejected(r),
        r is Ok <==> references_error(rs@, *facts) is None,
        references_error(rs@, *facts) matches Some(m) ==> rejects(r, m),
{
    let ghost errors = Seq::new(rs@.len(), |i: int| reference_item_error(*facts, i, rs@[i]));
    // Identities first, then keys, then each Reference.
    let mut ids: Vec<u64> = Vec::new();
    let mut id_clash = false;
    let mut i: usize = 0;
    while i < rs.len()
        invariant
            i <= rs@.len(),
            ids@.len() == i,
            forall|j: int| 0 <= j < i ==> ids@[j] == (#[trigger] rs@[j]).id,
            id_clash == exists|a: int, b: int| #![trigger rs@[a], rs@[b]] 0 <= a < b < i && rs@[a].id == rs@[b].id,
        decreases rs@.len() - i,
    {
        let dup = contains_id(&ids, rs[i].id);
        proof {
            if dup {
                let a = choose|a: int| 0 <= a < ids@.len() && ids@[a] == rs@[i as int].id;
                assert(rs@[a].id == rs@[i as int].id);
            }
            if id_clash || dup {
                assert(exists|a: int, b: int| #![trigger rs@[a], rs@[b]] 0 <= a < b < i + 1 && rs@[a].id == rs@[b].id);
            } else {
                assert forall|a: int, b: int| #![trigger rs@[a], rs@[b]] 0 <= a < b < i + 1 implies rs@[a].id != rs@[b].id by {
                    if b == i {
                        assert(ids@[a] == rs@[a].id);
                    }
                }
            }
        }
        id_clash = id_clash || dup;
        ids.push(rs[i].id);
        i += 1;
    }
    let has_zero = contains_id(&ids, 0);
    if id_clash || has_zero {
        proof {
            if has_zero {
                let j = choose|j: int| 0 <= j < ids@.len() && ids@[j] == 0;
                assert(rs@[j].id == 0);
            } else {
                let (a, b) = choose|a: int, b: int| #![trigger rs@[a], rs@[b]] 0 <= a < b < rs@.len() && rs@[a].id == rs@[b].id;
                assert(!references_distinct(rs@[a], rs@[b]));
            }
        }
        return Err(ConfigurationError::invalid("duplicate or zero Reference identity"));
    }
    let mut keys: Vec<String> = Vec::new();
    let mut k: usize = 0;
    while k < rs.len()
        invariant
            k <= rs@.len(),
            keys@.len() == k,
            forall|j: int| 0 <= j < k ==> keys@[j]@ == (#[trigger] rs@[j]).key@,
            forall|a: int, b: int| #![trigger rs@[a], rs@[b]] 0 <= a < b < k ==> rs@[a].key@ != rs@[b].key@,
            !id_clash,
            !has_zero,
            ids@.len() == rs@.len(),
            forall|j: int| 0 <= j < rs@.len() ==> ids@[j] == (#[trigger] rs@[j]).id,
            id_clash == exists|a: int, b: int| #![trigger rs@[a], rs@[b]] 0 <= a < b < rs@.len() && rs@[a].id == rs@[b].id,
            has_zero == ids@.contains(0),
        decreases rs@.len() - k,
    {
        let dup = contains_text(&keys, &rs[k].key);
        if dup {
            proof {
                let a = choose|a: int| 0 <= a < keys@.len() && (#[trigger] keys@[a])@ == rs@[k as int].key@;
                assert(!references_distinct(rs@[a], rs@[k as int]));
                assert(rs@[a].key@ == rs@[k as int].key@);
                assert(!(exists|i: int| 0 <= i < rs@.len() && (#[trigger] rs@[i]).id == 0)) by {
                    if exists|i: int| 0 <= i < rs@.len() && (#[trigger] rs@[i]).id == 0 {
                        let i = choose|i: int| 0 <= i < rs@.len() && (#[trigger] rs@[i]).id == 0;
                        assert(ids@[i] == rs@[i].id);
                    }
                }
            }
            return Err(ConfigurationError::invalid("duplicate Reference key"));
        }
        proof {
            assert forall|a: int, b: int| #![trigger rs@[a], rs@[b]] 0 <= a < b < k + 1 implies rs@[a].key@ != rs@[b].key@ by {
                if b == k {
                    assert(keys@[a]@ == rs@[a].key@);
                }
            }
        }
        keys.push(rs[k].key.clone());
        k += 1;
    }
    proof {
        assert forall|i: int| 0 <= i < rs@.len() implies (#[trigger] rs@[i]).id != 0 by {
            assert(ids@[i] == rs@[i].id);
        }
        assert forall|a: int, b: int| 0 <= a < b < rs@.len() implies #[trigger] references_distinct(rs@[a], rs@[b]) by {
            assert(rs@[a].key@ != rs@[b].key@);
        }
        assert(references_error(rs@, *facts) == first_error(errors));
    }
    let mut m: usize = 0;
    while m < rs.len()
        invariant
            facts.reference_unit_valid@.len() == rs@.len(),
            m <= rs@.len(),
            forall|i: int| 0 <= i < rs@.len() ==> (#[trigger] rs@[i]).id != 0,
            forall|a: int, b: int| 0 <= a < b < rs@.len() ==> #[trigger] references_distinct(rs@[a], rs@[b]),
            forall|i: int| 0 <= i < m ==> #[trigger] reference_ok(*facts, i, rs@[i]),
            errors == Seq::new(rs@.len(), |i: int| reference_item_error(*facts, i, rs@[i])),
            forall|i: int| 0 <= i < m ==> (#[trigger] errors[i]) is None,
            references_error(rs@, *facts) == first_error(errors),
        decreases rs@.len() - m,
    {
        let reference = &rs[m];
        proof {
            assert(references_valid(rs@, *facts) ==> reference_ok(*facts, m as int, rs@[m as int]));
            assert(errors[m as int] == reference_item_error(*facts, m as int, *reference));
            if errors[m as int] is Some {
                lemma_first_error(errors, m as int);
            }
        }
        check_key(&reference.key)?;
        if !facts.reference_unit_valid[m] {
            return Err(ConfigurationError::invalid("invalid Reference unit"));
        }
        if !reference.value.is_finite() {
            return Err(ConfigurationError::invalid("invalid Reference value"));
        }
        match reference.kind {
            ReferenceKindDto::Fixed => {
                if reference.target.is_some() || reference.rate.is_some() {
                    return Err(ConfigurationError::invalid("Fixed Reference cannot declare ramp fields"));
                }
            },
            ReferenceKindDto::Ramp => {
                match (reference.target, reference.rate) {
                    (Some(target), Some(rate)) => {
                        if !target.is_finite() || !rate.is_finite() || le(rate, zero_value()) {
                            return Err(ConfigurationError::invalid("invalid Ramp Reference"));
                        }
                    },
                    _ => {
                        return Err(ConfigurationError::invalid("Ramp Reference requires target and rate"));
                    },
                }
            },
        }
        proof {
            assert(errors[m as int] is None);
        }
        m += 1;
    }
    proof {
        lemma_no_error(errors);
    }
    Ok(())
}

// ---------------------------------------------------------------------------
// Output safety profiles.

/// Some instrument, declared or managed, carries this identity.
pub open spec fn has_any_instrument(dto: DeploymentDto, id: u64) -> bool {
    has_instrument(dto.instruments@, id) || has_component_instrument(dto.managed_components@, id)
}

/// A virtual or thermal instrument carries this identity.
pub open spec fn has_native_instrument(xs: Seq<InstrumentDto>, id: u64) -> bool {
    exists|j: int| 0 <= j < xs.len() && !((#[trigger] xs[j]) is Metakon) && xs[j].spec_id() == id
}

/// Safety values of one profile are admitted.
pub open spec fn safe_values_ok(s: SafeProfileDto) -> bool {
    &&& s.min.spec_finite()
    &&& s.max.spec_finite()
    &&& s.safe_value.spec_finite()
    &&& !real_le(s.max, s.min)
    &&& real_le(s.min, s.safe_value)
    &&& real_le(s.safe_value, s.max)
    &&& s.max_lease_ms != 0
    &&& s.max_proposal_ttl_ms != 0
}

/// One profile is admitted.
pub open spec fn safe_ok(dto: DeploymentDto, facts: DomainFacts, s: SafeProfileDto) -> bool {
    &&& s.instrument_id != 0
    &&& s.parameter_id != 0
    &&& has_any_instrument(dto, s.instrument_id)
    &&& safe_values_ok(s)
    &&& has_native_instrument(dto.instruments@, s.instrument_id)
    &&& s.parameter_id == facts.heater_power_parameter
    &&& !real_lt(s.min, zero())
    &&& !real_lt(hundred(), s.max)
}

/// The output a profile protects.
pub open spec fn safe_output(s: SafeProfileDto) -> (u64, u64) {
    (s.instrument_id, s.parameter_id)
}

/// Every profile is admitted and no two protect the same output.
pub open spec fn safe_profiles_valid(dto: DeploymentDto, facts: DomainFacts) -> bool {
    let ss = dto.safe_profiles@;
    &&& forall|a: int, b: int| 0 <= a < b < ss.len() ==> safe_output(#[trigger] ss[a]) != safe_output(#[trigger] ss[b])
    &&& forall|i: int| 0 <= i < ss.len() ==> #[trigger] safe_ok(dto, facts, ss[i])
}

fn any_instrument_known(dto: &DeploymentDto, id: u64) -> (r: bool)
    ensures
        r == has_any_instrument(*dto, id),
{
    if instrument_known(&dto.instruments, id) {
        return true;
    }
    let cs = &dto.managed_components;
    let mut k: usize = 0;
    while k < cs.len()
        invariant
            cs == &dto.managed_components,
            k <= cs@.len(),
            forall|j: int| 0 <= j < k ==> (#[trigger] cs@[j]).instrument_id != id,
        decreases cs@.len() - k,
    {
        if cs[k].instrument_id == id {
            proof {
                assert(cs@[k as int].instrument_id == id);
            }
            return true;
        }
        k += 1;
    }
    false
}

fn native_instrument_known(xs: &Vec<InstrumentDto>, id: u64) -> (r: bool)
    ensures
        r == has_native_instrument(xs@, id),
{
    let mut i: usize = 0;
    while i < xs.len()
        invariant
            i <= xs@.len(),
            forall|j: int| 0 <= j < i ==> !(!((#[trigger] xs@[j]) is Metakon) && xs@[j].spec_id() == id),
        decreases xs@.len() - i,
    {
        let native = match &xs[i] {
            InstrumentDto::Metakon { .. } => false,
            _ => true,
        };
        if native && xs[i].id() == id {
            proof {
                assert(!(xs@[i as int] is Metakon) && xs@[i as int].spec_id() == id);
            }
            return true;
        }
        i += 1;
    }
    false
}

/// Diagnostic of one profile on its own.
pub open spec fn safe_item_error(dto: DeploymentDto, facts: DomainFacts, s: SafeProfileDto) -> Option<Seq<char>> {
    if s.instrument_id == 0 {
        Some("safe instrument id"@ + " must be nonzero"@)
    } else if s.parameter_id == 0 {
        Some("safe parameter id"@ + " must be nonzero"@)
    } else if !has_any_instrument(dto, s.instrument_id) {
        Some("unknown safe-profile instrument"@)
    } else if !safe_values_ok(s) {
        Some("invalid safe profile"@)
    } else if !(has_native_instrument(dto.instruments@, s.instrument_id) && s.parameter_id
        == facts.heater_power_parameter) || real_lt(s.min, zero()) || real_lt(hundred(), s.max) {
        Some("safe profile targets an ineligible output"@)
    } else {
        None
    }
}

/// The first profile diagnostic: protected outputs first, then each profile in
/// document order.
pub open spec fn safe_profiles_error(dto: DeploymentDto, facts: DomainFacts) -> Option<Seq<char>> {
    let ss = dto.safe_profiles@;
    if exists|a: int, b: int| #![trigger ss[a], ss[b]] 0 <= a < b < ss.len() && safe_output(ss[a]) == safe_output(ss[b]) {
        Some("duplicate safe profile"@)
    } else {
        first_error(Seq::new(ss.len(), |i: int| safe_item_error(dto, facts, ss[i])))
    }
}

fn check_safe_profiles(dto: &DeploymentDto, facts: &DomainFacts) -> (r: Result<(), ConfigurationError>)
    ensures
        r is Ok <==> safe_profiles_valid(*dto, *facts),
        r is Err ==> rejected(r),
        r is Ok <==> safe_profiles_error(*dto, *facts) is None,
        safe_profiles_error(*dto, *facts) matches Some(m) ==> rejects(r, m),
{
    let ghost errors = Seq::new(dto.safe_profiles@.len(), |i: int| safe_item_error(*dto, *facts, dto.safe_profiles@[i]));
    let ss = &dto.safe_profiles;
    let mut outputs: Vec<(u64, u64)> = Vec::new();
    let mut clash = false;
    let mut i: usize = 0;
    while i < ss.len()
        invariant
            ss == &dto.safe_profiles,
            i <= ss@.len(),
            outputs@.len() == i,
            forall|j: int| 0 <= j < i ==> outputs@[j] == safe_output(#[trigger] ss@[j]),
            clash == exists|a: int, b: int| #![trigger ss@[a], ss@[b]] 0 <= a < b < i && safe_output(ss@[a]) == safe_output(ss@[b]),
        decreases ss@.len() - i,
    {
        let output = (ss[i].instrument_id, ss[i].parameter_id);
        let dup = contains_pair(&outputs, output);
        proof {
            if dup {
                let a = choose|a: int| 0 <= a < outputs@.len() && outputs@[a] == output;
                assert(safe_output(ss@[a]) == safe_output(ss@[i as int]));
            }
            if clash || dup {
                assert(exists|a: int, b: int| #![trigger ss@[a], ss@[b]] 0 <= a < b < i + 1 && safe_output(ss@[a]) == safe_output(ss@[b]));
            } else {
                assert forall|a: int, b: int| #![trigger ss@[a], ss@[b]] 0 <= a < b < i + 1 implies safe_output(ss@[a]) != safe_output(ss@[b]) by {
                    if b == i {
                        assert(outputs@[a] == safe_output(ss@[a]));
                    }
                }
            }
        }
        clash = clash || dup;
        outputs.push(output);
        i += 1;
    }
    if clash {
        return Err(ConfigurationError::invalid("duplicate safe profile"));
    }
    proof {
        assert(safe_profiles_error(*dto, *facts) == first_error(errors));
    }
    let mut k: usize = 0;
    while k < ss.len()
        invariant
            ss == &dto.safe_profiles,
            k <= ss@.len(),
            forall|a: int, b: int| 0 <= a < b < ss@.len() ==> safe_output(#[trigger] ss@[a]) != safe_output(#[trigger] ss@[b]),
            forall|j: int| 0 <= j < k ==> #[trigger] safe_ok(*dto, *facts, ss@[j]),
            errors == Seq::new(ss@.len(), |i: int| safe_item_error(*dto, *facts, ss@[i])),
            forall|j: int| 0 <= j < k ==> (#[trigger] errors[j]) is None,
            safe_profiles_error(*dto, *facts) == first_error(errors),
        decreases ss@.len() - k,
    {
        let safe = &ss[k];
        proof {
            assert(safe_profiles_valid(*dto, *facts) ==> safe_ok(*dto, *facts, ss@[k as int]));
            assert(errors[k as int] == safe_item_error(*dto, *facts, *safe));
            if errors[k as int] is Some {
                lemma_first_error(errors, k as int);
            }
        }
        validate_nonzero(safe.instrument_id, "safe instrument id")?;
        validate_nonzero(safe.parameter_id, "safe parameter id")?;
        if !any_instrument_known(dto, safe.instrument_id) {
            return Err(ConfigurationError::invalid("unknown safe-profile instrument"));
        }
        if !safe.min.is_finite() || !safe.max.is_finite() || !safe.safe_value.is_finite() || le(
            safe.max,
            safe.min,
        ) || !(le(safe.min, safe.safe_value) && le(safe.safe_value, safe.max)) || safe.max_lease_ms
            == 0 || safe.max_proposal_ttl_ms == 0 {
            return Err(ConfigurationError::invalid("invalid safe profile"));
        }
        let eligible = native_instrument_known(&dto.instruments, safe.instrument_id)
            && safe.parameter_id == facts.heater_power_parameter;
        if !eligible || lt(safe.min, zero_value()) || lt(hundred_value(), safe.max) {
            return Err(ConfigurationError::invalid("safe profile targets an ineligible output"));
        }
        proof {
            assert(errors[k as int] is None);
        }
        k += 1;
    }
    proof {
        lemma_no_error(errors);
    }
    Ok(())
}

// ---------------------------------------------------------------------------
// Native controllers.

/// Some Reference carries this identity.
pub open spec fn has_reference(rs: Seq<ReferenceDto>, id: u64) -> bool {
    exists|j: int| 0 <= j < rs.len() && (#[trigger] rs[j]).id == id
}

/// Index of the first Reference at or after `k` with this identity.
pub open spec fn find_reference_from(rs: Seq<ReferenceDto>, id: u64, k: int) -> Option<int>
    decreases rs.len() - k,
{
    if k < 0 || k >= rs.len() {
        None
    } else if rs[k].id == id {
        Some(k)
    } else {
        find_reference_from(rs, id, k + 1)
    }
}

/// Unit identity of the Reference with this identity.
pub open spec fn reference_unit(rs: Seq<ReferenceDto>, id: u64) -> Seq<char> {
    match find_reference_from(rs, id, 0) {
        Some(k) => rs[k].unit_id@,
        None => Seq::empty(),
    }
}

/// Some profile protects this output.
pub open spec fn has_safe_output(ss: Seq<SafeProfileDto>, output: (u64, u64)) -> bool {
    exists|j: int| 0 <= j < ss.len() && safe_output(#[trigger] ss[j]) == output
}

/// Index of the first profile at or after `k` protecting this output.
pub open spec fn find_safe_from(ss: Seq<SafeProfileDto>, output: (u64, u64), k: int) -> Option<int>
    decreases ss.len() - k,
{
    if k < 0 || k >= ss.len() {
        None
    } else if safe_output(ss[k]) == output {
        Some(k)
    } else {
        find_safe_from(ss, output, k + 1)
    }
}

/// The controller's input is a native or managed temperature signal.
pub open spec fn temperature_input(dto: DeploymentDto, facts: DomainFacts, c: ControllerDto) -> bool {
    c.input_parameter_id == facts.temperature_parameter && (has_native_instrument(
        dto.instruments@,
        c.input_instrument_id,
    ) || has_component_instrument(dto.managed_components@, c.input_instrument_id))
}

/// The controller's input is a physical Metakon instrument.
pub open spec fn metakon_input(xs: Seq<InstrumentDto>, id: u64) -> bool {
    exists|j: int| 0 <= j < xs.len() && (#[trigger] xs[j]) is Metakon && xs[j].spec_id() == id
}

/// Timing and gain settings of a controller are admitted.
pub open spec fn controller_settings_ok(c: ControllerDto) -> bool {
    &&& ms_ok(c.ema_time_constant_ms)
    &&& ms_ok(c.max_input_age_ms)
    &&& ms_ok(c.max_tick_gap_ms)
    &&& ms_ok(c.lease_lifetime_ms)
    &&& ms_ok(c.proposal_ttl_ms)
    &&& 1 <= c.ema_warmup_samples <= 1024
    &&& c.kp.spec_finite()
    &&& c.ki.spec_finite()
    &&& c.kd.spec_finite()
    &&& c.output_min.spec_finite()
    &&& c.output_max.spec_finite()
    &&& !real_le(c.output_max, c.output_min)
}

/// The controller stays within the profile protecting its output.
pub open spec fn within_profile(c: ControllerDto, s: SafeProfileDto) -> bool {
    &&& !real_lt(c.output_min, s.min)
    &&& !real_lt(s.max, c.output_max)
    &&& c.lease_lifetime_ms <= s.max_lease_ms
    &&& c.proposal_ttl_ms <= s.max_proposal_ttl_ms
    &&& c.proposal_ttl_ms <= c.lease_lifetime_ms
}

/// One controller is admitted on its own.
pub open spec fn controller_ok(dto: DeploymentDto, facts: DomainFacts, c: ControllerDto) -> bool {
    &&& c.id != 0
    &&& kv(c.key@)
    &&& controller_links_ok(dto, facts, c)
}

/// A controller's bindings, timing, gains and profile limits are admitted.
pub open spec fn controller_links_ok(dto: DeploymentDto, facts: DomainFacts, c: ControllerDto) -> bool {
    let output = (c.output_instrument_id, c.output_parameter_id);
    &&& has_any_instrument(dto, c.input_instrument_id)
    &&& has_reference(dto.references@, c.reference_id)
    &&& has_safe_output(dto.safe_profiles@, output)
    &&& ms_ok(c.period_ms)
    &&& (temperature_input(dto, facts, c) || metakon_input(dto.instruments@, c.input_instrument_id))
    &&& (temperature_input(dto, facts, c) ==> facts.celsius_unit@ == reference_unit(dto.references@, c.reference_id))
    &&& controller_settings_ok(c)
    &&& within_profile(c, dto.safe_profiles@[find_safe_from(dto.safe_profiles@, output, 0)->Some_0])
}

/// Two controllers share neither identity nor key.
pub open spec fn controllers_distinct(a: ControllerDto, b: ControllerDto) -> bool {
    a.id != b.id && a.key@ != b.key@
}

/// Every controller is admitted and no two collide.
pub open spec fn controllers_valid(dto: DeploymentDto, facts: DomainFacts) -> bool {
    let cs = dto.controllers@;
    &&& forall|i: int| 0 <= i < cs.len() ==> #[trigger] controller_ok(dto, facts, cs[i])
    &&& forall|a: int, b: int| 0 <= a < b < cs.len() ==> #[trigger] controllers_distinct(cs[a], cs[b])
}

fn find_reference(rs: &Vec<ReferenceDto>, id: u64) -> (r: Option<usize>)
    ensures
        r is None ==> find_reference_from(rs@, id, 0) is None,
        r matches Some(k) ==> find_reference_from(rs@, id, 0) == Some(k as int),
        r is Some <==> has_reference(rs@, id),
        r matches Some(k) ==> k < rs@.len(),
{
    let mut k: usize = 0;
    while k < rs.len()
        invariant
            k <= rs@.len(),
            find_reference_from(rs@, id, 0) == find_reference_from(rs@, id, k as int),
            forall|j: int| 0 <= j < k ==> (#[trigger] rs@[j]).id != id,
        decreases rs@.len() - k,
    {
        if rs[k].id == id {
            proof {
                assert(rs@[k as int].id == id);
            }
            return Some(k);
        }
        k += 1;
    }
    None
}

fn find_safe(ss: &Vec<SafeProfileDto>, output: (u64, u64)) -> (r: Option<usize>)
    ensures
        r is None ==> find_safe_from(ss@, output, 0) is None,
        r matches Some(k) ==> find_safe_from(ss@, output, 0) == Some(k as int),
        r is Some <==> has_safe_output(ss@, output),
        r matches Some(k) ==> k < ss@.len(),
{
    let mut k: usize = 0;
    while k < ss.len()
        invariant
            k <= ss@.len(),
            find_safe_from(ss@, output, 0) == find_safe_from(ss@, output, k as int),
            forall|j: int| 0 <= j < k ==> safe_output(#[trigger] ss@[j]) != output,
        decreases ss@.len() - k,
    {
        if ss[k].instrument_id == output.0 && ss[k].parameter_id == output.1 {
            proof {
                assert(safe_output(ss@[k as int]) == output);
            }
            return Some(k);
        }
        k += 1;
    }
    None
}

fn metakon_known(xs: &Vec<InstrumentDto>, id: u64) -> (r: bool)
    ensures
        r == metakon_input(xs@, id),
{
    let mut i: usize = 0;
    while i < xs.len()
        invariant
            i <= xs@.len(),
            forall|j: int| 0 <= j < i ==> !((#[trigger] xs@[j]) is Metakon && xs@[j].spec_id() == id),
        decreases xs@.len() - i,
    {
        let metakon = match &xs[i] {
            InstrumentDto::Metakon { .. } => true,
            _ => false,
        };
        if metakon && xs[i].id() == id {
            proof {
                assert(xs@[i as int] is Metakon && xs@[i as int].spec_id() == id);
            }
            return true;
        }
        i += 1;
    }
    false
}

/// Diagnostic of a controller's bindings, timing, gains and profile limits, in
/// the order they are checked.
pub open spec fn controller_links_error(dto: DeploymentDto, facts: DomainFacts, c: ControllerDto) -> Option<Seq<char>> {
    let output = (c.output_instrument_id, c.output_parameter_id);
    let temperature = temperature_input(dto, facts, c);
    if !has_any_instrument(dto, c.input_instrument_id) {
        Some("unknown controller input"@)
    } else if !has_reference(dto.references@, c.reference_id) {
        Some("unknown controller Reference"@)
    } else if !has_safe_output(dto.safe_profiles@, output) {
        Some("controller output lacks safe profile"@)
    } else if !ms_ok(c.period_ms) {
        Some("controller period"@ + " must be 1..=60000 ms"@)
    } else if !temperature && !metakon_input(dto.instruments@, c.input_instrument_id) {
        Some("controller input is not a signal"@)
    } else if temperature && facts.celsius_unit@ != reference_unit(dto.references@, c.reference_id) {
        Some("controller input and Reference unit mismatch"@)
    } else if !ms_ok(c.ema_time_constant_ms) {
        Some("EMA time constant"@ + " must be 1..=60000 ms"@)
    } else if !ms_ok(c.max_input_age_ms) {
        Some("maximum input age"@ + " must be 1..=60000 ms"@)
    } else if !ms_ok(c.max_tick_gap_ms) {
        Some("maximum tick gap"@ + " must be 1..=60000 ms"@)
    } else if !ms_ok(c.lease_lifetime_ms) {
        Some("lease lifetime"@ + " must be 1..=60000 ms"@)
    } else if !ms_ok(c.proposal_ttl_ms) {
        Some("proposal TTL"@ + " must be 1..=60000 ms"@)
    } else if !(1 <= c.ema_warmup_samples <= 1024) {
        Some("EMA warmup out of range"@)
    } else if !(c.kp.spec_finite() && c.ki.spec_finite() && c.kd.spec_finite() && c.output_min.spec_finite()
        && c.output_max.spec_finite()) || real_le(c.output_max, c.output_min) {
        Some("invalid PID configuration"@)
    } else if !within_profile(c, dto.safe_profiles@[find_safe_from(dto.safe_profiles@, output, 0)->Some_0]) {
        Some("controller exceeds safe-profile limits"@)
    } else {
        None
    }
}

fn check_controller(dto: &DeploymentDto, facts: &DomainFacts, c: &ControllerDto) -> (r: Result<(), ConfigurationError>)
    ensures
        r is Ok <==> controller_links_ok(*dto, *facts, *c),
        r is Err ==> rejected(r),
        r is Ok <==> controller_links_error(*dto, *facts, *c) is None,
        controller_links_error(*dto, *facts, *c) matches Some(m) ==> rejects(r, m),
{
    if !any_instrument_known(dto, c.input_instrument_id) {
        return Err(ConfigurationError::invalid("unknown controller input"));
    }
    let reference = find_reference(&dto.references, c.reference_id);
    if reference.is_none() {
        return Err(ConfigurationError::invalid("unknown controller Reference"));
    }
    let output = (c.output_instrument_id, c.output_parameter_id);
    let safe_index = find_safe(&dto.safe_profiles, output);
    if safe_index.is_none() {
        return Err(ConfigurationError::invalid("controller output lacks safe profile"));
    }
    validate_period(c.period_ms, "controller period")?;
    let temperature = c.input_parameter_id == facts.temperature_parameter && (native_instrument_known(
        &dto.instruments,
        c.input_instrument_id,
    ) || any_component_instrument(&dto.managed_components, c.input_instrument_id));
    if !temperature && !metakon_known(&dto.instruments, c.input_instrument_id) {
        return Err(ConfigurationError::invalid("controller input is not a signal"));
    }
    let reference_index = reference.unwrap();
    proof {
        assert(find_reference_from(dto.references@, c.reference_id, 0) == Some(reference_index as int));
        assert(reference_unit(dto.references@, c.reference_id) == dto.references@[reference_index as int].unit_id@);
    }
    if temperature && !(facts.celsius_unit == dto.references[reference_index].unit_id) {
        return Err(ConfigurationError::invalid("controller input and Reference unit mismatch"));
    }
    validate_transaction_time(c.ema_time_constant_ms, "EMA time constant")?;
    validate_transaction_time(c.max_input_age_ms, "maximum input age")?;
    validate_transaction_time(c.max_tick_gap_ms, "maximum tick gap")?;
    validate_transaction_time(c.lease_lifetime_ms, "lease lifetime")?;
    validate_transaction_time(c.proposal_ttl_ms, "proposal TTL")?;
    if c.ema_warmup_samples == 0 || c.ema_warmup_samples > 1024 {
        return Err(ConfigurationError::invalid("EMA warmup out of range"));
    }
    if !(c.kp.is_finite() && c.ki.is_finite() && c.kd.is_finite() && c.output_min.is_finite()
        && c.output_max.is_finite()) || le(c.output_max, c.output_min) {
        return Err(ConfigurationError::invalid("invalid PID configuration"));
    }
    let si = safe_index.unwrap();
    let safe = &dto.safe_profiles[si];
    proof {
        assert(find_safe_from(dto.safe_profiles@, output, 0) == Some(si as int));
        assert(dto.safe_profiles@[find_safe_from(dto.safe_profiles@, output, 0)->Some_0] == *safe);
    }
    if lt(c.output_min, safe.min) || lt(safe.max, c.output_max) || c.lease_lifetime_ms
        > safe.max_lease_ms || c.proposal_ttl_ms > safe.max_proposal_ttl_ms || c.proposal_ttl_ms
        > c.lease_lifetime_ms {
        return Err(ConfigurationError::invalid("controller exceeds safe-profile limits"));
    }
    Ok(())
}

fn any_component_instrument(cs: &Vec<ManagedComponentDto>, id: u64) -> (r: bool)
    ensures
        r == has_component_instrument(cs@, id),
{
    let mut k: usize = 0;
    while k < cs.len()
        invariant
            k <= cs@.len(),
            forall|j: int| 0 <= j < k ==> (#[trigger] cs@[j]).instrument_id != id,
        decreases cs@.len() - k,
    {
        if cs[k].instrument_id == id {
            proof {
                assert(cs@[k as int].instrument_id == id);
            }
            return true;
        }
        k += 1;
    }
    false
}

/// Diagnostic of controller `i`, given those before it.
pub open spec fn controller_item_error(dto: DeploymentDto, facts: DomainFacts, i: int) -> Option<Seq<char>> {
    let cs = dto.controllers@;
    if cs[i].id == 0 {
        Some("controller id"@ + " must be nonzero"@)
    } else if !kv(cs[i].key@) {
        Some("invalid logical key"@)
    } else if exists|j: int| 0 <= j < i && !(#[trigger] controllers_distinct(cs[j], cs[i])) {
        Some("duplicate controller identity"@)
    } else {
        controller_links_error(dto, facts, cs[i])
    }
}

/// The first controller diagnostic, in document order.
pub open spec fn controllers_error(dto: DeploymentDto, facts: DomainFacts) -> Option<Seq<char>> {
    first_error(Seq::new(dto.controllers@.len(), |i: int| controller_item_error(dto, facts, i)))
}

fn check_controllers(dto: &DeploymentDto, facts: &DomainFacts) -> (r: Result<(), ConfigurationError>)
    ensures
        r is Ok <==> controllers_valid(*dto, *facts),
        r is Err ==> rejected(r),
        r is Ok <==> controllers_error(*dto, *facts) is None,
        controllers_error(*dto, *facts) matches Some(m) ==> rejects(r, m),
{
    let ghost errors = Seq::new(dto.controllers@.len(), |i: int| controller_item_error(*dto, *facts, i));
    let cs = &dto.controllers;
    let mut ids: Vec<u64> = Vec::new();
    let mut keys: Vec<String> = Vec::new();
    let mut i: usize = 0;
    while i < cs.len()
        invariant
            cs == &dto.controllers,
            i <= cs@.len(),
            ids@.len() == i,
            keys@.len() == i,
            forall|j: int| 0 <= j < i ==> #[trigger] controller_ok(*dto, *facts, cs@[j]),
            forall|a: int, b: int| 0 <= a < b < i ==> #[trigger] controllers_distinct(cs@[a], cs@[b]),
            forall|j: int| 0 <= j < i ==> ids@[j] == (#[trigger] cs@[j]).id,
            forall|j: int| 0 <= j < i ==> keys@[j]@ == (#[trigger] cs@[j]).key@,
            errors == Seq::new(cs@.len(), |i: int| controller_item_error(*dto, *facts, i)),
            forall|j: int| 0 <= j < i ==> (#[trigger] errors[j]) is None,
        decreases cs@.len() - i,
    {
        let c = &cs[i];
        proof {
            assert(controllers_valid(*dto, *facts) ==> controller_ok(*dto, *facts, cs@[i as int]));
            assert(errors[i as int] == controller_item_error(*dto, *facts, i as int));
            if errors[i as int] is Some {
                lemma_first_error(errors, i as int);
            }
        }
        validate_nonzero(c.id, "controller id")?;
        check_key(&c.key)?;
        let dup_id = contains_id(&ids, c.id);
        let dup_key = contains_text(&keys, &c.key);
        if dup_id || dup_key {
            proof {
                if dup_id {
                    let j = choose|j: int| 0 <= j < ids@.len() && ids@[j] == c.id;
                    assert(!controllers_distinct(cs@[j], cs@[i as int]));
                } else {
                    let j = choose|j: int| 0 <= j < keys@.len() && (#[trigger] keys@[j])@ == c.key@;
                    assert(!controllers_distinct(cs@[j], cs@[i as int]));
                }
            }
            return Err(ConfigurationError::invalid("duplicate controller identity"));
        }
        proof {
            assert forall|j: int| 0 <= j < i implies #[trigger] controllers_distinct(cs@[j], cs@[i as int]) by {
                assert(ids@[j] == cs@[j].id);
                assert(keys@[j]@ == cs@[j].key@);
            }
        }
        check_controller(dto, facts, c)?;
        proof {
            assert(errors[i as int] is None);
            assert(controller_ok(*dto, *facts, cs@[i as int]));
            assert forall|a: int, b: int| 0 <= a < b < i + 1 implies #[trigger] controllers_distinct(cs@[a], cs@[b]) by {
                if b == i {
                    assert(ids@[a] == cs@[a].id);
                    assert(ids@[a] != c.id);
                    assert(keys@[a]@ != c.key@);
                }
            }
        }
        ids.push(c.id);
        keys.push(c.key.clone());
        i += 1;
    }
    proof {
        lemma_no_error(errors);
    }
    Ok(())
}

// ---------------------------------------------------------------------------
// The whole document.

/// The document satisfies the deployment schema, its cross references and its
/// output-safety constraints.
pub open spec fn deployment_valid(dto: DeploymentDto, facts: DomainFacts) -> bool {
    &&& prelude_valid(dto)
    &&& resources_valid(dto.resources@)
    &&& instruments_valid(dto.resources@, dto.instruments@)
    &&& components_valid(dto, facts)
    &&& inputs_known(dto)
    &&& acyclic(dto.managed_components@)
    &&& references_valid(dto.references@, facts)
    &&& safe_profiles_valid(dto, facts)
    &&& controllers_valid(dto, facts)
}

/// The first diagnostic of the document: its settings, resources, instruments,
/// managed components, their inputs and dependencies, References, safe profiles
/// and controllers, in that order.
pub open spec fn structure_error(dto: DeploymentDto, facts: DomainFacts) -> Option<Seq<char>> {
    match prelude_error(dto) {
        Some(m) => Some(m),
        None => match resources_error(dto.resources@) {
            Some(m) => Some(m),
            None => match instruments_error(dto.resources@, dto.instruments@) {
                Some(m) => Some(m),
                None => match components_error(dto, facts) {
                    Some(m) => Some(m),
                    None => if !inputs_known(dto) {
                        Some("unknown managed input"@)
                    } else if !acyclic(dto.managed_components@) {
                        Some("managed dependency cycle"@)
                    } else {
                        match references_error(dto.references@, facts) {
                            Some(m) => Some(m),
                            None => match safe_profiles_error(dto, facts) {
                                Some(m) => Some(m),
                                None => controllers_error(dto, facts),
                            },
                        }
                    },
                },
            },
        },
    }
}

/// Validate schema, identities, cross references and safety limits, in document
/// section order; the first violation found is reported.
pub fn validate_structure(dto: &DeploymentDto, facts: &DomainFacts) -> (r: Result<(), ConfigurationError>)
    requires
        facts_aligned(*dto, *facts),
    ensures
        r is Ok <==> deployment_valid(*dto, *facts),
        r is Err ==> rejected(r),
        dto.schema_version != 1 ==> rejects(r, "unsupported schema_version"@),
        r is Ok <==> structure_error(*dto, *facts) is None,
        structure_error(*dto, *facts) matches Some(m) ==> rejects(r, m),
        r is Ok ==> forall|i: int, j: int|
            0 <= i < dto.controllers@.len() && 0 <= j < dto.safe_profiles@.len()
                && safe_output(#[trigger] dto.safe_profiles@[j]) == (
                (#[trigger] dto.controllers@[i]).output_instrument_id,
                dto.controllers@[i].output_parameter_id,
            ) ==> !real_lt(dto.safe_profiles@[j].max, dto.controllers@[i].output_max) && !real_lt(
                dto.controllers@[i].output_min,
                dto.safe_profiles@[j].min,
            ),
{
    check_prelude(dto)?;
    check_resources(&dto.resources)?;
    check_instruments(&dto.resources, &dto.instruments)?;
    check_components(dto, facts)?;
    check_inputs(dto)?;
    check_acyclic(&dto.managed_components)?;
    check_references(&dto.references, facts)?;
    check_safe_profiles(dto, facts)?;
    check_controllers(dto, facts)?;
    proof {
        assert forall|i: int, j: int|
            0 <= i < dto.controllers@.len() && 0 <= j < dto.safe_profiles@.len()
                && safe_output(#[trigger] dto.safe_profiles@[j]) == (
                (#[trigger] dto.controllers@[i]).output_instrument_id,
                dto.controllers@[i].output_parameter_id,
            ) implies !real_lt(dto.safe_profiles@[j].max, dto.controllers@[i].output_max) && !real_lt(
                dto.controllers@[i].output_min,
                dto.safe_profiles@[j].min,
            ) by {
            law_admitted_controllers_within_safe_limits(*dto, *facts, i, j);
        }
    }
    Ok(())
}

/// The search for an output's profile from `k` finds the first profile at or after
/// `k` that protects it, or reports that none does.
proof fn lemma_find_safe_from(ss: Seq<SafeProfileDto>, output: (u64, u64), k: int)
    requires
        0 <= k <= ss.len(),
    ensures
        match find_safe_from(ss, output, k) {
            Some(m) => k <= m < ss.len() && safe_output(ss[m]) == output,
            None => forall|j: int| k <= j < ss.len() ==> safe_output(#[trigger] ss[j]) != output,
        },
    decreases ss.len() - k,
{
    if k < ss.len() && safe_output(ss[k]) != output {
        lemma_find_safe_from(ss, output, k + 1);
    }
}

/// In an admitted deployment every controller's output range lies inside the range
/// of the safe profile protecting its output: its maximum is not above the profile's
/// maximum and its minimum not below the profile's minimum, and its lease and
/// proposal lifetimes stay within the profile's.
pub proof fn law_admitted_controllers_within_safe_limits(dto: DeploymentDto, facts: DomainFacts, i: int, j: int)
    requires
        deployment_valid(dto, facts),
        0 <= i < dto.controllers@.len(),
        0 <= j < dto.safe_profiles@.len(),
        safe_output(dto.safe_profiles@[j]) == (dto.controllers@[i].output_instrument_id,
            dto.controllers@[i].output_parameter_id),
    ensures
        !real_lt(dto.safe_profiles@[j].max, dto.controllers@[i].output_max),
        !real_lt(dto.controllers@[i].output_min, dto.safe_profiles@[j].min),
        dto.controllers@[i].lease_lifetime_ms <= dto.safe_profiles@[j].max_lease_ms,
        dto.controllers@[i].proposal_ttl_ms <= dto.safe_profiles@[j].max_proposal_ttl_ms,
{
    let c = dto.controllers@[i];
    let ss = dto.safe_profiles@;
    let output = (c.output_instrument_id, c.output_parameter_id);
    assert(controller_ok(dto, facts, c));
    lemma_find_safe_from(ss, output, 0);
    let m = find_safe_from(ss, output, 0)->Some_0;
    if m < j {
        assert(safe_output(ss[m]) != safe_output(ss[j]));
    } else if j < m {
        assert(safe_output(ss[j]) != safe_output(ss[m]));
    }
    assert(m == j);
}

} // verus!
