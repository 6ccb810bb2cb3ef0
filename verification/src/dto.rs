//! Typed deployment document (`runtime.toml`, schema version 1) and its equality.
//!
//! Equality follows the document's field-by-field comparison; binary64 fields
//! compare by IEEE 754 equality.
use crate::binary64::{Real, real_eq, opt_real_eq, eq, opt_eq};
use vstd::prelude::*;

verus! {

/// Field-wise equality of deployment records.
pub trait DtoEq: Sized {
    /// The records are equal.
    spec fn same(&self, other: &Self) -> bool;

    /// Compare two records.
    fn equals(&self, other: &Self) -> (r: bool)
        ensures
            r == self.same(other),
    ;
}

/// Two record lists are equal: same length and equal at every position.
pub open spec fn all_same<T: DtoEq>(a: Seq<T>, b: Seq<T>) -> bool {
    &&& a.len() == b.len()
    &&& forall|i: int| 0 <= i < a.len() ==> #[trigger] a[i].same(&b[i])
}

/// Compare two record lists.
pub fn vec_equals<T: DtoEq>(a: &Vec<T>, b: &Vec<T>) -> (r: bool)
    ensures
        r == all_same(a@, b@),
{
    if a.len() != b.len() {
        return false;
    }
    let mut i: usize = 0;
    while i < a.len()
        invariant
            a@.len() == b@.len(),
            i <= a@.len(),
            forall|j: int| 0 <= j < i ==> #[trigger] a@[j].same(&b@[j]),
        decreases a@.len() - i,
    {
        if !a[i].equals(&b[i]) {
            return false;
        }
        i += 1;
    }
    true
}

/// Compare two texts.
pub fn text_equals(a: &String, b: &String) -> (r: bool)
    ensures
        r == (a@ == b@),
{
    *a == *b
}

/// Compare two optional texts.
pub fn opt_text_equals(a: &Option<String>, b: &Option<String>) -> (r: bool)
    ensures
        r == opt_text_same(*a, *b),
{
    match (a, b) {
        (None, None) => true,
        (Some(x), Some(y)) => *x == *y,
        _ => false,
    }
}

/// Optional texts are both absent or both present and equal.
pub open spec fn opt_text_same(a: Option<String>, b: Option<String>) -> bool {
    match (a, b) {
        (None, None) => true,
        (Some(x), Some(y)) => x@ == y@,
        _ => false,
    }
}

/// Identity and display of the runtime.
#[derive(Clone, Debug)]
pub struct RuntimeDto {
    /// Stable cross-boot deployment key.
    pub key: String,
    /// Human-readable name.
    pub display_name: String,
}

/// Local API listener.
#[derive(Clone, Debug)]
pub struct ServerDto {
    /// Listener host; only loopback is admitted.
    pub host: String,
    /// Requested port.
    pub port: u16,
}

impl DtoEq for ServerDto {
    open spec fn same(&self, other: &Self) -> bool {
        self.host@ == other.host@ && self.port == other.port
    }

    fn equals(&self, other: &Self) -> (r: bool) {
        self.host == other.host && self.port == other.port
    }
}

/// Recording policy when the recorder cannot keep up or fails.
#[derive(Clone, Copy, Debug, PartialEq, Eq, Structural)]
pub enum RecordingPolicyDto {
    /// Recording gaps are reported and control continues.
    BestEffort,
    /// Recording failure stops the run.
    Required,
}

/// Durable recording settings.
#[derive(Clone, Debug)]
pub struct RecordingDto {
    /// Whether durable recording is configured.
    pub enabled: bool,
    /// Database path text (empty when absent).
    pub path: String,
    /// Failure policy.
    pub policy: RecordingPolicyDto,
}

impl DtoEq for RecordingDto {
    open spec fn same(&self, other: &Self) -> bool {
        self.enabled == other.enabled && self.path@ == other.path@ && self.policy == other.policy
    }

    fn equals(&self, other: &Self) -> (r: bool) {
        self.enabled == other.enabled && self.path == other.path && self.policy == other.policy
    }
}

/// Kind of a physical byte resource.
#[derive(Clone, Copy, Debug, PartialEq, Eq, Structural)]
pub enum ResourceKindDto {
    /// A Windows serial port used for reads only.
    WindowsComReadOnly,
}

/// Serial parity.
#[derive(Clone, Copy, Debug, PartialEq, Eq, Structural)]
pub enum ParityDto {
    /// No parity bit.
    NoParity,
    /// Odd parity.
    Odd,
    /// Even parity.
    Even,
}

/// Serial flow control.
#[derive(Clone, Copy, Debug, PartialEq, Eq, Structural)]
pub enum FlowControlDto {
    /// No flow control.
    NoFlowControl,
    /// XON/XOFF.
    Software,
    /// RTS/CTS.
    Hardware,
}

/// One declared physical resource.
#[derive(Clone, Debug)]
pub struct ResourceDto {
    /// Stable nonzero resource identity.
    pub id: u64,
    /// Stable logical key.
    pub key: String,
    /// Resource kind.
    pub kind: ResourceKindDto,
    /// Port name as written.
    pub port: String,
    /// Baud rate.
    pub baud_rate: u32,
    /// Data bits per character.
    pub data_bits: u8,
    /// Parity.
    pub parity: ParityDto,
    /// Stop bits.
    pub stop_bits: u8,
    /// Flow control.
    pub flow_control: FlowControlDto,
    /// Read timeout in milliseconds.
    pub read_timeout_ms: u64,
    /// Write timeout in milliseconds.
    pub write_timeout_ms: u64,
    /// Open timeout in milliseconds.
    pub open_timeout_ms: u64,
    /// Recovery timeout in milliseconds.
    pub recovery_timeout_ms: u64,
}

impl DtoEq for ResourceDto {
    open spec fn same(&self, other: &Self) -> bool {
        &&& self.id == other.id
        &&& self.key@ == other.key@
        &&& self.kind == other.kind
        &&& self.port@ == other.port@
        &&& self.baud_rate == other.baud_rate
        &&& self.data_bits == other.data_bits
        &&& self.parity == other.parity
        &&& self.stop_bits == other.stop_bits
        &&& self.flow_control == other.flow_control
        &&& self.read_timeout_ms == other.read_timeout_ms
        &&& self.write_timeout_ms == other.write_timeout_ms
        &&& self.open_timeout_ms == other.open_timeout_ms
        &&& self.recovery_timeout_ms == other.recovery_timeout_ms
    }

    fn equals(&self, other: &Self) -> (r: bool) {
        self.id == other.id && self.key == other.key && self.kind == other.kind && self.port
            == other.port && self.baud_rate == other.baud_rate && self.data_bits == other.data_bits
            && self.parity == other.parity && self.stop_bits == other.stop_bits
            && self.flow_control == other.flow_control && self.read_timeout_ms
            == other.read_timeout_ms && self.write_timeout_ms == other.write_timeout_ms
            && self.open_timeout_ms == other.open_timeout_ms && self.recovery_timeout_ms
            == other.recovery_timeout_ms
    }
}

/// One declared instrument.
#[derive(Clone, Debug)]
pub enum InstrumentDto {
    /// A virtual temperature source.
    VirtualMeasurement {
        /// Stable nonzero instrument identity.
        id: u64,
        /// Stable logical key.
        key: String,
        /// Human-readable name.
        display_name: String,
        /// Recent-history capacity.
        history_capacity: usize,
        /// Reported temperature.
        base_temperature: Real,
        /// Whether measurements are produced.
        measurement_enabled: bool,
        /// Whether measurements are published beyond the runtime.
        external_publication: bool,
        /// Acquisition period in milliseconds.
        poll_period_ms: u64,
    },
    /// A simulated first-order thermal plant with a heater output.
    ThermalPlant {
        /// Stable nonzero instrument identity.
        id: u64,
        /// Stable logical key.
        key: String,
        /// Human-readable name.
        display_name: String,
        /// Recent-history capacity.
        history_capacity: usize,
        /// Ambient temperature.
        ambient_temperature: Real,
        /// Initial temperature.
        initial_temperature: Real,
        /// Temperature gain per heater percent.
        gain_per_percent: Real,
        /// Time constant in milliseconds.
        time_constant_ms: u64,
        /// Acquisition period in milliseconds.
        poll_period_ms: u64,
    },
    /// A physical Metakon instrument reached through a declared resource.
    Metakon {
        /// Stable nonzero instrument identity.
        id: u64,
        /// Stable logical key.
        key: String,
        /// Declared definition path text.
        definition: String,
        /// Resource identity.
        resource_id: u64,
        /// Bus address.
        address: u8,
        /// Acquisition period in milliseconds.
        poll_period_ms: u64,
        /// Queue timeout in milliseconds.
        queue_timeout_ms: u64,
        /// Transaction timeout in milliseconds.
        transaction_timeout_ms: u64,
    },
}

/// Which instrument variant.
#[derive(Clone, Copy, Debug, PartialEq, Eq, Structural)]
pub enum InstrumentKind {
    /// `virtual_measurement`.
    VirtualMeasurement,
    /// `thermal_plant`.
    ThermalPlant,
    /// `metakon`.
    Metakon,
}

impl InstrumentDto {
    /// Instrument identity.
    pub open spec fn spec_id(&self) -> u64 {
        match self {
            InstrumentDto::VirtualMeasurement { id, .. } => *id,
            InstrumentDto::ThermalPlant { id, .. } => *id,
            InstrumentDto::Metakon { id, .. } => *id,
        }
    }

    /// Instrument key.
    pub open spec fn spec_key(&self) -> Seq<char> {
        match self {
            InstrumentDto::VirtualMeasurement { key, .. } => key@,
            InstrumentDto::ThermalPlant { key, .. } => key@,
            InstrumentDto::Metakon { key, .. } => key@,
        }
    }

    /// Instrument variant.
    pub open spec fn spec_kind(&self) -> InstrumentKind {
        match self {
            InstrumentDto::VirtualMeasurement { .. } => InstrumentKind::VirtualMeasurement,
            InstrumentDto::ThermalPlant { .. } => InstrumentKind::ThermalPlant,
            InstrumentDto::Metakon { .. } => InstrumentKind::Metakon,
        }
    }

    /// Acquisition period.
    pub open spec fn spec_poll_period_ms(&self) -> u64 {
        match self {
            InstrumentDto::VirtualMeasurement { poll_period_ms, .. } => *poll_period_ms,
            InstrumentDto::ThermalPlant { poll_period_ms, .. } => *poll_period_ms,
            InstrumentDto::Metakon { poll_period_ms, .. } => *poll_period_ms,
        }
    }

    /// Instrument identity.
    pub fn id(&self) -> (id: u64)
        ensures
            id == self.spec_id(),
    {
        match self {
            InstrumentDto::VirtualMeasurement { id, .. } => *id,
            InstrumentDto::ThermalPlant { id, .. } => *id,
            InstrumentDto::Metakon { id, .. } => *id,
        }
    }

    /// Instrument key.
    pub fn key(&self) -> (key: &String)
        ensures
            key@ == self.spec_key(),
    {
        match self {
            InstrumentDto::VirtualMeasurement { key, .. } => key,
            InstrumentDto::ThermalPlant { key, .. } => key,
            InstrumentDto::Metakon { key, .. } => key,
        }
    }

    /// Instrument variant.
    pub fn kind(&self) -> (kind: InstrumentKind)
        ensures
            kind == self.spec_kind(),
    {
        match self {
            InstrumentDto::VirtualMeasurement { .. } => InstrumentKind::VirtualMeasurement,
            InstrumentDto::ThermalPlant { .. } => InstrumentKind::ThermalPlant,
            InstrumentDto::Metakon { .. } => InstrumentKind::Metakon,
        }
    }

    /// Stable kind name used in topology comparison and projections.
    pub fn kind_name(&self) -> (name: &'static str)
        ensures
            name@ == kind_name(self.spec_kind())@,
    {
        match self {
            InstrumentDto::VirtualMeasurement { .. } => "virtual_measurement",
            InstrumentDto::ThermalPlant { .. } => "thermal_plant",
            InstrumentDto::Metakon { .. } => "metakon",
        }
    }

    /// Acquisition period.
    pub fn poll_period_ms(&self) -> (period: u64)
        ensures
            period == self.spec_poll_period_ms(),
    {
        match self {
            InstrumentDto::VirtualMeasurement { poll_period_ms, .. } => *poll_period_ms,
            InstrumentDto::ThermalPlant { poll_period_ms, .. } => *poll_period_ms,
            InstrumentDto::Metakon { poll_period_ms, .. } => *poll_period_ms,
        }
    }

    /// Equal apart from the display and cadence fields that have explicitly live
    /// semantics; binary64 fields compare by their exact rendering, that is by bit
    /// pattern.
    pub open spec fn spec_same_without_live_fields(&self, other: &Self) -> bool {
        match (self, other) {
            (
                InstrumentDto::VirtualMeasurement {
                    id: a_id,
                    key: a_key,
                    history_capacity: a_history,
                    base_temperature: a_base,
                    measurement_enabled: a_enabled,
                    ..
                },
                InstrumentDto::VirtualMeasurement {
                    id: b_id,
                    key: b_key,
                    history_capacity: b_history,
                    base_temperature: b_base,
                    measurement_enabled: b_enabled,
                    ..
                },
            ) => a_id == b_id && a_key@ == b_key@ && a_history == b_history && a_base.bits
                == b_base.bits && a_enabled == b_enabled,
            (
                InstrumentDto::ThermalPlant {
                    id: a_id,
                    key: a_key,
                    history_capacity: a_history,
                    ambient_temperature: a_ambient,
                    initial_temperature: a_initial,
                    gain_per_percent: a_gain,
                    time_constant_ms: a_tc,
                    ..
                },
                InstrumentDto::ThermalPlant {
                    id: b_id,
                    key: b_key,
                    history_capacity: b_history,
                    ambient_temperature: b_ambient,
                    initial_temperature: b_initial,
                    gain_per_percent: b_gain,
                    time_constant_ms: b_tc,
                    ..
                },
            ) => a_id == b_id && a_key@ == b_key@ && a_history == b_history && a_ambient.bits
                == b_ambient.bits && a_initial.bits == b_initial.bits && a_gain.bits == b_gain.bits
                && a_tc == b_tc,
            _ => false,
        }
    }

    /// Compare apart from live fields (virtual and thermal instruments only).
    pub fn same_without_live_fields(&self, other: &Self) -> (r: bool)
        ensures
            r == self.spec_same_without_live_fields(other),
            model_settings_differ(*self, *other) ==> !r,
            r ==> self.spec_id() == other.spec_id() && self.spec_key() == other.spec_key(),
            r ==> (self is ThermalPlant && other is ThermalPlant) || (self is VirtualMeasurement
                && other is VirtualMeasurement),
            ((self is ThermalPlant && other is ThermalPlant) || (self is VirtualMeasurement
                && other is VirtualMeasurement)) && self.spec_id() == other.spec_id()
                && self.spec_key() == other.spec_key() && !model_settings_differ(*self, *other) ==> r,
    {
        match (self, other) {
            (
                InstrumentDto::VirtualMeasurement {
                    id: a_id,
                    key: a_key,
                    history_capacity: a_history,
                    base_temperature: a_base,
                    measurement_enabled: a_enabled,
                    ..
                },
                InstrumentDto::VirtualMeasurement {
                    id: b_id,
                    key: b_key,
                    history_capacity: b_history,
                    base_temperature: b_base,
                    measurement_enabled: b_enabled,
                    ..
                },
            ) => *a_id == *b_id && *a_key == *b_key && *a_history == *b_history && a_base.bits
                == b_base.bits && *a_enabled == *b_enabled,
            (
                InstrumentDto::ThermalPlant {
                    id: a_id,
                    key: a_key,
                    history_capacity: a_history,
                    ambient_temperature: a_ambient,
                    initial_temperature: a_initial,
                    gain_per_percent: a_gain,
                    time_constant_ms: a_tc,
                    ..
                },
                InstrumentDto::ThermalPlant {
                    id: b_id,
                    key: b_key,
                    history_capacity: b_history,
                    ambient_temperature: b_ambient,
                    initial_temperature: b_initial,
                    gain_per_percent: b_gain,
                    time_constant_ms: b_tc,
                    ..
                },
            ) => *a_id == *b_id && *a_key == *b_key && *a_history == *b_history && a_ambient.bits
                == b_ambient.bits && a_initial.bits == b_initial.bits && a_gain.bits
                == b_gain.bits && *a_tc == *b_tc,
            _ => false,
        }
    }
}

/// Both instruments are of one simulated kind and differ in a setting of their
/// model: for a thermal plant its history capacity, ambient or initial temperature,
/// gain or time constant; for a virtual measurement its history capacity, base
/// temperature or whether it measures. Temperatures and gains differ when their bit
/// patterns do.
pub open spec fn model_settings_differ(a: InstrumentDto, b: InstrumentDto) -> bool {
    match (a, b) {
        (
            InstrumentDto::ThermalPlant {
                history_capacity: a_history,
                ambient_temperature: a_ambient,
                initial_temperature: a_initial,
                gain_per_percent: a_gain,
                time_constant_ms: a_tc,
                ..
            },
            InstrumentDto::ThermalPlant {
                history_capacity: b_history,
                ambient_temperature: b_ambient,
                initial_temperature: b_initial,
                gain_per_percent: b_gain,
                time_constant_ms: b_tc,
                ..
            },
        ) => a_history != b_history || a_ambient.bits != b_ambient.bits || a_initial.bits
            != b_initial.bits || a_gain.bits != b_gain.bits || a_tc != b_tc,
        (
            InstrumentDto::VirtualMeasurement {
                history_capacity: a_history,
                base_temperature: a_base,
                measurement_enabled: a_enabled,
                ..
            },
            InstrumentDto::VirtualMeasurement {
                history_capacity: b_history,
                base_temperature: b_base,
                measurement_enabled: b_enabled,
                ..
            },
        ) => a_history != b_history || a_base.bits != b_base.bits || a_enabled != b_enabled,
        _ => false,
    }
}

/// A change to any model setting of a thermal plant or virtual measurement is not
/// a live change: the two instruments are not the same apart from live fields.
pub proof fn law_model_setting_change_is_not_live(a: InstrumentDto, b: InstrumentDto)
    requires
        model_settings_differ(a, b),
    ensures
        !a.spec_same_without_live_fields(&b),
{
}

/// A thermal plant whose model configuration changed (history capacity, ambient or
/// initial temperature, gain or time constant) is not the same apart from live
/// fields, provided none of its old temperatures and gain is NaN.
pub proof fn law_thermal_change_is_not_live(a: InstrumentDto, b: InstrumentDto)
    requires
        spec_thermal_configuration_changed(a, b),
        a matches InstrumentDto::ThermalPlant { ambient_temperature, initial_temperature, gain_per_percent, .. }
            && !ambient_temperature.spec_nan() && !initial_temperature.spec_nan() && !gain_per_percent.spec_nan(),
    ensures
        model_settings_differ(a, b),
        !a.spec_same_without_live_fields(&b),
{
}

/// Both instruments are thermal plants whose model settings differ: history
/// capacity, ambient or initial temperature, gain (binary64 `!=`) or time constant.
pub open spec fn spec_thermal_configuration_changed(old: InstrumentDto, new: InstrumentDto) -> bool {
    match (old, new) {
        (
            InstrumentDto::ThermalPlant {
                history_capacity: a_history,
                ambient_temperature: a_ambient,
                initial_temperature: a_initial,
                gain_per_percent: a_gain,
                time_constant_ms: a_tc,
                ..
            },
            InstrumentDto::ThermalPlant {
                history_capacity: b_history,
                ambient_temperature: b_ambient,
                initial_temperature: b_initial,
                gain_per_percent: b_gain,
                time_constant_ms: b_tc,
                ..
            },
        ) => a_history != b_history || !real_eq(a_ambient, b_ambient) || !real_eq(a_initial, b_initial)
            || !real_eq(a_gain, b_gain) || a_tc != b_tc,
        _ => false,
    }
}

/// Whether a thermal plant's model must be rebuilt for the new settings.
pub fn thermal_configuration_changed(old: &InstrumentDto, new: &InstrumentDto) -> (r: bool)
    ensures
        r == spec_thermal_configuration_changed(*old, *new),
{
    match (old, new) {
        (
            InstrumentDto::ThermalPlant {
                history_capacity: a_history,
                ambient_temperature: a_ambient,
                initial_temperature: a_initial,
                gain_per_percent: a_gain,
                time_constant_ms: a_tc,
                ..
            },
            InstrumentDto::ThermalPlant {
                history_capacity: b_history,
                ambient_temperature: b_ambient,
                initial_temperature: b_initial,
                gain_per_percent: b_gain,
                time_constant_ms: b_tc,
                ..
            },
        ) => *a_history != *b_history || !eq(*a_ambient, *b_ambient) || !eq(*a_initial, *b_initial)
            || !eq(*a_gain, *b_gain) || *a_tc != *b_tc,
        _ => false,
    }
}

/// Stable name of an instrument variant.
pub open spec fn kind_name(kind: InstrumentKind) -> &'static str {
    match kind {
        InstrumentKind::VirtualMeasurement => "virtual_measurement",
        InstrumentKind::ThermalPlant => "thermal_plant",
        InstrumentKind::Metakon => "metakon",
    }
}

impl DtoEq for InstrumentDto {
    open spec fn same(&self, other: &Self) -> bool {
        match (self, other) {
            (
                InstrumentDto::VirtualMeasurement {
                    id: a0,
                    key: a1,
                    display_name: a2,
                    history_capacity: a3,
                    base_temperature: a4,
                    measurement_enabled: a5,
                    external_publication: a7,
                    poll_period_ms: a6,
                },
                InstrumentDto::VirtualMeasurement {
                    id: b0,
                    key: b1,
                    display_name: b2,
                    history_capacity: b3,
                    base_temperature: b4,
                    measurement_enabled: b5,
                    external_publication: b7,
                    poll_period_ms: b6,
                },
            ) => a0 == b0 && a1@ == b1@ && a2@ == b2@ && a3 == b3 && real_eq(*a4, *b4) && a5 == b5
                && a6 == b6 && a7 == b7,
            (
                InstrumentDto::ThermalPlant {
                    id: a0,
                    key: a1,
                    display_name: a2,
                    history_capacity: a3,
                    ambient_temperature: a4,
                    initial_temperature: a5,
                    gain_per_percent: a6,
                    time_constant_ms: a7,
                    poll_period_ms: a8,
                },
                InstrumentDto::ThermalPlant {
                    id: b0,
                    key: b1,
                    display_name: b2,
                    history_capacity: b3,
                    ambient_temperature: b4,
                    initial_temperature: b5,
                    gain_per_percent: b6,
                    time_constant_ms: b7,
                    poll_period_ms: b8,
                },
            ) => a0 == b0 && a1@ == b1@ && a2@ == b2@ && a3 == b3 && real_eq(*a4, *b4) && real_eq(
                *a5,
                *b5,
            ) && real_eq(*a6, *b6) && a7 == b7 && a8 == b8,
            (
                InstrumentDto::Metakon {
                    id: a0,
                    key: a1,
                    definition: a2,
                    resource_id: a3,
                    address: a4,
                    poll_period_ms: a5,
                    queue_timeout_ms: a6,
                    transaction_timeout_ms: a7,
                },
                InstrumentDto::Metakon {
                    id: b0,
                    key: b1,
                    definition: b2,
                    resource_id: b3,
                    address: b4,
                    poll_period_ms: b5,
                    queue_timeout_ms: b6,
                    transaction_timeout_ms: b7,
                },
            ) => a0 == b0 && a1@ == b1@ && a2@ == b2@ && a3 == b3 && a4 == b4 && a5 == b5 && a6
                == b6 && a7 == b7,
            _ => false,
        }
    }

    fn equals(&self, other: &Self) -> (r: bool) {
        match (self, other) {
            (
                InstrumentDto::VirtualMeasurement {
                    id: a0,
                    key: a1,
                    display_name: a2,
                    history_capacity: a3,
                    base_temperature: a4,
                    measurement_enabled: a5,
                    external_publication: a7,
                    poll_period_ms: a6,
                },
                InstrumentDto::VirtualMeasurement {
                    id: b0,
                    key: b1,
                    display_name: b2,
                    history_capacity: b3,
                    base_temperature: b4,
                    measurement_enabled: b5,
                    external_publication: b7,
                    poll_period_ms: b6,
                },
            ) => *a0 == *b0 && *a1 == *b1 && *a2 == *b2 && *a3 == *b3 && eq(*a4, *b4) && *a5 == *b5
                && *a6 == *b6 && *a7 == *b7,
            (
                InstrumentDto::ThermalPlant {
                    id: a0,
                    key: a1,
                    display_name: a2,
                    history_capacity: a3,
                    ambient_temperature: a4,
                    initial_temperature: a5,
                    gain_per_percent: a6,
                    time_constant_ms: a7,
                    poll_period_ms: a8,
                },
                InstrumentDto::ThermalPlant {
                    id: b0,
                    key: b1,
                    display_name: b2,
                    history_capacity: b3,
                    ambient_temperature: b4,
                    initial_temperature: b5,
                    gain_per_percent: b6,
                    time_constant_ms: b7,
                    poll_period_ms: b8,
                },
            ) => *a0 == *b0 && *a1 == *b1 && *a2 == *b2 && *a3 == *b3 && eq(*a4, *b4) && eq(*a5, *b5)
                && eq(*a6, *b6) && *a7 == *b7 && *a8 == *b8,
            (
                InstrumentDto::Metakon {
                    id: a0,
                    key: a1,
                    definition: a2,
                    resource_id: a3,
                    address: a4,
                    poll_period_ms: a5,
                    queue_timeout_ms: a6,
                    transaction_timeout_ms: a7,
                },
                InstrumentDto::Metakon {
                    id: b0,
                    key: b1,
                    definition: b2,
                    resource_id: b3,
                    address: b4,
                    poll_period_ms: b5,
                    queue_timeout_ms: b6,
                    transaction_timeout_ms: b7,
                },
            ) => *a0 == *b0 && *a1 == *b1 && *a2 == *b2 && *a3 == *b3 && *a4 == *b4 && *a5 == *b5
                && *a6 == *b6 && *a7 == *b7,
            _ => false,
        }
    }
}

/// One element of a configuration array.
#[derive(Clone, Debug)]
pub enum ConfigItem {
    /// An integer element.
    Integer(i64),
    /// A binary64 element.
    Float(Real),
    /// Any other element, by its TOML rendering.
    Other(String),
}

/// Equality of configuration array elements.
pub open spec fn item_same(a: ConfigItem, b: ConfigItem) -> bool {
    match (a, b) {
        (ConfigItem::Integer(x), ConfigItem::Integer(y)) => x == y,
        (ConfigItem::Float(x), ConfigItem::Float(y)) => real_eq(x, y),
        (ConfigItem::Other(x), ConfigItem::Other(y)) => x@ == y@,
        _ => false,
    }
}

impl DtoEq for ConfigItem {
    open spec fn same(&self, other: &Self) -> bool {
        item_same(*self, *other)
    }

    fn equals(&self, other: &Self) -> (r: bool) {
        match (self, other) {
            (ConfigItem::Integer(x), ConfigItem::Integer(y)) => *x == *y,
            (ConfigItem::Float(x), ConfigItem::Float(y)) => eq(*x, *y),
            (ConfigItem::Other(x), ConfigItem::Other(y)) => *x == *y,
            _ => false,
        }
    }
}

/// One TOML configuration value of a managed component.
#[derive(Clone, Debug)]
pub enum ConfigValue {
    /// An integer.
    Integer(i64),
    /// A binary64 number.
    Float(Real),
    /// A boolean.
    Boolean(bool),
    /// A string.
    Text(String),
    /// An array.
    Array(Vec<ConfigItem>),
    /// Any other value (table, date-time), by its TOML rendering.
    Other(String),
}

impl DtoEq for ConfigValue {
    open spec fn same(&self, other: &Self) -> bool {
        match (self, other) {
            (ConfigValue::Integer(x), ConfigValue::Integer(y)) => x == y,
            (ConfigValue::Float(x), ConfigValue::Float(y)) => real_eq(*x, *y),
            (ConfigValue::Boolean(x), ConfigValue::Boolean(y)) => x == y,
            (ConfigValue::Text(x), ConfigValue::Text(y)) => x@ == y@,
            (ConfigValue::Array(x), ConfigValue::Array(y)) => all_same(x@, y@),
            (ConfigValue::Other(x), ConfigValue::Other(y)) => x@ == y@,
            _ => false,
        }
    }

    fn equals(&self, other: &Self) -> (r: bool) {
        match (self, other) {
            (ConfigValue::Integer(x), ConfigValue::Integer(y)) => *x == *y,
            (ConfigValue::Float(x), ConfigValue::Float(y)) => eq(*x, *y),
            (ConfigValue::Boolean(x), ConfigValue::Boolean(y)) => *x == *y,
            (ConfigValue::Text(x), ConfigValue::Text(y)) => *x == *y,
            (ConfigValue::Array(x), ConfigValue::Array(y)) => vec_equals(x, y),
            (ConfigValue::Other(x), ConfigValue::Other(y)) => *x == *y,
            _ => false,
        }
    }
}

/// One named configuration value; a component's entries are in ascending key order
/// with unique keys.
#[derive(Clone, Debug)]
pub struct ConfigEntry {
    /// Configuration key.
    pub key: String,
    /// Configuration value.
    pub value: ConfigValue,
}

impl DtoEq for ConfigEntry {
    open spec fn same(&self, other: &Self) -> bool {
        self.key@ == other.key@ && self.value.same(&other.value)
    }

    fn equals(&self, other: &Self) -> (r: bool) {
        self.key == other.key && self.value.equals(&other.value)
    }
}

/// One declared managed component.
#[derive(Clone, Debug)]
pub struct ManagedComponentDto {
    /// Stable nonzero component identity.
    pub id: u64,
    /// Identity of the instrument the component publishes.
    pub instrument_id: u64,
    /// Stable logical key.
    pub key: String,
    /// Human-readable name.
    pub display_name: String,
    /// Implementation identity.
    pub implementation: String,
    /// Declared source path text, for source-backed implementations.
    pub source: Option<String>,
    /// Configuration values by key.
    pub config: Vec<ConfigEntry>,
    /// Input instrument of a transform.
    pub input_instrument_id: Option<u64>,
    /// Execution period in milliseconds.
    pub period_ms: u64,
}

impl DtoEq for ManagedComponentDto {
    open spec fn same(&self, other: &Self) -> bool {
        &&& self.id == other.id
        &&& self.instrument_id == other.instrument_id
        &&& self.key@ == other.key@
        &&& self.display_name@ == other.display_name@
        &&& self.implementation@ == other.implementation@
        &&& opt_text_same(self.source, other.source)
        &&& all_same(self.config@, other.config@)
        &&& self.input_instrument_id == other.input_instrument_id
        &&& self.period_ms == other.period_ms
    }

    fn equals(&self, other: &Self) -> (r: bool) {
        self.id == other.id && self.instrument_id == other.instrument_id && self.key == other.key
            && self.display_name == other.display_name && self.implementation
            == other.implementation && opt_text_equals(&self.source, &other.source) && vec_equals(
            &self.config,
            &other.config,
        ) && self.input_instrument_id == other.input_instrument_id && self.period_ms
            == other.period_ms
    }
}

/// Reference kind.
#[derive(Clone, Copy, Debug, PartialEq, Eq, Structural)]
pub enum ReferenceKindDto {
    /// A constant setpoint.
    Fixed,
    /// A setpoint ramping to a target at a rate.
    Ramp,
}

/// One declared Reference.
#[derive(Clone, Debug)]
pub struct ReferenceDto {
    /// Stable nonzero Reference identity.
    pub id: u64,
    /// Stable logical key.
    pub key: String,
    /// Reference kind.
    pub kind: ReferenceKindDto,
    /// Initial value.
    pub value: Real,
    /// Ramp target.
    pub target: Option<Real>,
    /// Ramp rate.
    pub rate: Option<Real>,
    /// Unit identity.
    pub unit_id: String,
    /// Unit symbol.
    pub unit_symbol: String,
}

impl DtoEq for ReferenceDto {
    open spec fn same(&self, other: &Self) -> bool {
        &&& self.id == other.id
        &&& self.key@ == other.key@
        &&& self.kind == other.kind
        &&& real_eq(self.value, other.value)
        &&& opt_real_eq(self.target, other.target)
        &&& opt_real_eq(self.rate, other.rate)
        &&& self.unit_id@ == other.unit_id@
        &&& self.unit_symbol@ == other.unit_symbol@
    }

    fn equals(&self, other: &Self) -> (r: bool) {
        self.id == other.id && self.key == other.key && self.kind == other.kind && eq(
            self.value,
            other.value,
        ) && opt_eq(self.target, other.target) && opt_eq(self.rate, other.rate) && self.unit_id
            == other.unit_id && self.unit_symbol == other.unit_symbol
    }
}

/// One declared native PID controller.
#[derive(Clone, Debug)]
pub struct ControllerDto {
    /// Stable nonzero controller identity.
    pub id: u64,
    /// Stable logical key.
    pub key: String,
    /// Input instrument.
    pub input_instrument_id: u64,
    /// Input parameter.
    pub input_parameter_id: u64,
    /// Output instrument.
    pub output_instrument_id: u64,
    /// Output parameter.
    pub output_parameter_id: u64,
    /// Reference identity.
    pub reference_id: u64,
    /// Controller period in milliseconds.
    pub period_ms: u64,
    /// EMA time constant in milliseconds.
    pub ema_time_constant_ms: u64,
    /// EMA warmup samples.
    pub ema_warmup_samples: usize,
    /// Proportional gain.
    pub kp: Real,
    /// Integral gain.
    pub ki: Real,
    /// Derivative gain.
    pub kd: Real,
    /// Output lower limit.
    pub output_min: Real,
    /// Output upper limit.
    pub output_max: Real,
    /// Maximum input age in milliseconds.
    pub max_input_age_ms: u64,
    /// Maximum gap between ticks in milliseconds.
    pub max_tick_gap_ms: u64,
    /// Output lease lifetime in milliseconds.
    pub lease_lifetime_ms: u64,
    /// Output proposal time-to-live in milliseconds.
    pub proposal_ttl_ms: u64,
}

impl DtoEq for ControllerDto {
    open spec fn same(&self, other: &Self) -> bool {
        &&& self.id == other.id
        &&& self.key@ == other.key@
        &&& self.input_instrument_id == other.input_instrument_id
        &&& self.input_parameter_id == other.input_parameter_id
        &&& self.output_instrument_id == other.output_instrument_id
        &&& self.output_parameter_id == other.output_parameter_id
        &&& self.reference_id == other.reference_id
        &&& self.period_ms == other.period_ms
        &&& self.ema_time_constant_ms == other.ema_time_constant_ms
        &&& self.ema_warmup_samples == other.ema_warmup_samples
        &&& real_eq(self.kp, other.kp)
        &&& real_eq(self.ki, other.ki)
        &&& real_eq(self.kd, other.kd)
        &&& real_eq(self.output_min, other.output_min)
        &&& real_eq(self.output_max, other.output_max)
        &&& self.max_input_age_ms == other.max_input_age_ms
        &&& self.max_tick_gap_ms == other.max_tick_gap_ms
        &&& self.lease_lifetime_ms == other.lease_lifetime_ms
        &&& self.proposal_ttl_ms == other.proposal_ttl_ms
    }

    fn equals(&self, other: &Self) -> (r: bool) {
        self.id == other.id && self.key == other.key && self.input_instrument_id
            == other.input_instrument_id && self.input_parameter_id == other.input_parameter_id
            && self.output_instrument_id == other.output_instrument_id && self.output_parameter_id
            == other.output_parameter_id && self.reference_id == other.reference_id
            && self.period_ms == other.period_ms && self.ema_time_constant_ms
            == other.ema_time_constant_ms && self.ema_warmup_samples == other.ema_warmup_samples
            && eq(self.kp, other.kp) && eq(self.ki, other.ki) && eq(self.kd, other.kd) && eq(
            self.output_min,
            other.output_min,
        ) && eq(self.output_max, other.output_max) && self.max_input_age_ms
            == other.max_input_age_ms && self.max_tick_gap_ms == other.max_tick_gap_ms
            && self.lease_lifetime_ms == other.lease_lifetime_ms && self.proposal_ttl_ms
            == other.proposal_ttl_ms
    }
}

/// Evidence required before an output counts as safe.
#[derive(Clone, Copy, Debug, PartialEq, Eq, Structural)]
pub enum EvidenceDto {
    /// Acknowledgement of the safe command.
    Ack,
    /// Readback of the safe value.
    Readback,
}

/// One declared output safety profile.
#[derive(Clone, Debug)]
pub struct SafeProfileDto {
    /// Output instrument.
    pub instrument_id: u64,
    /// Output parameter.
    pub parameter_id: u64,
    /// Lowest admitted output.
    pub min: Real,
    /// Highest admitted output.
    pub max: Real,
    /// Output value considered safe.
    pub safe_value: Real,
    /// Longest admitted lease in milliseconds.
    pub max_lease_ms: u64,
    /// Longest admitted proposal time-to-live in milliseconds.
    pub max_proposal_ttl_ms: u64,
    /// Evidence required for safety.
    pub required_evidence: EvidenceDto,
}

impl DtoEq for SafeProfileDto {
    open spec fn same(&self, other: &Self) -> bool {
        &&& self.instrument_id == other.instrument_id
        &&& self.parameter_id == other.parameter_id
        &&& real_eq(self.min, other.min)
        &&& real_eq(self.max, other.max)
        &&& real_eq(self.safe_value, other.safe_value)
        &&& self.max_lease_ms == other.max_lease_ms
        &&& self.max_proposal_ttl_ms == other.max_proposal_ttl_ms
        &&& self.required_evidence == other.required_evidence
    }

    fn equals(&self, other: &Self) -> (r: bool) {
        self.instrument_id == other.instrument_id && self.parameter_id == other.parameter_id && eq(
            self.min,
            other.min,
        ) && eq(self.max, other.max) && eq(self.safe_value, other.safe_value)
            && self.max_lease_ms == other.max_lease_ms && self.max_proposal_ttl_ms
            == other.max_proposal_ttl_ms && self.required_evidence == other.required_evidence
    }
}

/// The whole typed deployment document.
#[derive(Clone, Debug)]
pub struct DeploymentDto {
    /// Document schema version; only 1 is admitted.
    pub schema_version: u16,
    /// Runtime identity.
    pub runtime: RuntimeDto,
    /// Local listener.
    pub server: ServerDto,
    /// Durable recording.
    pub recording: RecordingDto,
    /// Physical resources.
    pub resources: Vec<ResourceDto>,
    /// Instruments.
    pub instruments: Vec<InstrumentDto>,
    /// Managed components.
    pub managed_components: Vec<ManagedComponentDto>,
    /// References.
    pub references: Vec<ReferenceDto>,
    /// Native controllers.
    pub controllers: Vec<ControllerDto>,
    /// Output safety profiles.
    pub safe_profiles: Vec<SafeProfileDto>,
}

impl DtoEq for DeploymentDto {
    open spec fn same(&self, other: &Self) -> bool {
        &&& self.schema_version == other.schema_version
        &&& self.runtime.key@ == other.runtime.key@
        &&& self.runtime.display_name@ == other.runtime.display_name@
        &&& self.server.same(&other.server)
        &&& self.recording.same(&other.recording)
        &&& all_same(self.resources@, other.resources@)
        &&& all_same(self.instruments@, other.instruments@)
        &&& all_same(self.managed_components@, other.managed_components@)
        &&& all_same(self.references@, other.references@)
        &&& all_same(self.controllers@, other.controllers@)
        &&& all_same(self.safe_profiles@, other.safe_profiles@)
    }

    fn equals(&self, other: &Self) -> (r: bool) {
        self.schema_version == other.schema_version && self.runtime.key == other.runtime.key
            && self.runtime.display_name == other.runtime.display_name && self.server.equals(
            &other.server,
        ) && self.recording.equals(&other.recording) && vec_equals(
            &self.resources,
            &other.resources,
        ) && vec_equals(&self.instruments, &other.instruments) && vec_equals(
            &self.managed_components,
            &other.managed_components,
        ) && vec_equals(&self.references, &other.references) && vec_equals(
            &self.controllers,
            &other.controllers,
        ) && vec_equals(&self.safe_profiles, &other.safe_profiles)
    }
}

} // verus!
