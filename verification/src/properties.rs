//! Property projection of a whole deployment: every configured resource,
//! instrument and managed-component property as one JSON record, in byte order.
//!
//! Records are compact JSON objects whose keys stand in byte order, so a record's
//! bytes are its canonical text. Binary64 values are handed in as their JSON number
//! text, one text per bit pattern.
use crate::binary64::Real;
use crate::dto::{ConfigEntry, ConfigItem, ConfigValue, DeploymentDto, InstrumentDto, ManagedComponentDto, ResourceDto};
use crate::managed::{ComponentPropertyMetadata, component_property_metadata};
use crate::projection::{
    InstrumentPropertyAccess, InstrumentPropertyConstraints, InstrumentPropertyMetadata,
    InstrumentPropertyMutation, InstrumentPropertySource, InstrumentPropertyType,
    InstrumentPropertyUnit, InstrumentPropertyValue, access_name, json_string, mutation_name,
    signed_json, unit_json, value_json, value_type_name, append, append_string, append_signed,
    append_value, append_unit, type_text, access_text, mutation_text,
};
use crate::text::{decimal, decimal_bytes};
use crate::validation::MOVING_MEAN_IMPLEMENTATION;
use vstd::prelude::*;
use vstd::string::*;

verus! {

/// Most records one deployment projection holds.
pub const PROPERTY_RECORD_LIMIT: usize = 256;

/// The JSON number text of one binary64 value.
#[derive(Clone, Debug)]
pub struct NumberText {
    /// Bit pattern of the value.
    pub bits: u64,
    /// Its JSON number text.
    pub text: String,
}

/// Why a deployment projection was refused.
#[derive(Clone, Copy, Debug, PartialEq, Eq, Structural)]
pub enum PropertyError {
    /// The deployment has more properties than one projection holds.
    ConfigurationCapacity,
}

impl PropertyError {
    /// Stable wire code.
    pub fn code(&self) -> (code: &'static str)
        ensures
            code@ == "configuration_capacity"@,
    {
        "configuration_capacity"
    }
}

// ---------------------------------------------------------------------------
// Number texts.

/// Some entry gives the text of this bit pattern.
pub open spec fn has_number(numbers: Seq<NumberText>, bits: u64) -> bool {
    exists|j: int| 0 <= j < numbers.len() && (#[trigger] numbers[j]).bits == bits
}

/// Index of the first entry at or after `k` for this bit pattern.
pub open spec fn number_index(numbers: Seq<NumberText>, bits: u64, k: int) -> int
    decreases numbers.len() - k,
{
    if k < 0 || k >= numbers.len() {
        numbers.len() as int
    } else if numbers[k].bits == bits {
        k
    } else {
        number_index(numbers, bits, k + 1)
    }
}

/// The text of a value: that of the first entry for its bit pattern.
pub open spec fn number_text(numbers: Seq<NumberText>, r: Real) -> String {
    numbers[number_index(numbers, r.bits, 0)].text
}

proof fn lemma_number_index(numbers: Seq<NumberText>, bits: u64, k: int)
    requires
        0 <= k <= numbers.len(),
        exists|j: int| k <= j < numbers.len() && (#[trigger] numbers[j]).bits == bits,
    ensures
        k <= number_index(numbers, bits, k) < numbers.len(),
        numbers[number_index(numbers, bits, k)].bits == bits,
    decreases numbers.len() - k,
{
    if numbers[k].bits != bits {
        lemma_number_index(numbers, bits, k + 1);
    }
}

/// The text of a value whose bit pattern has an entry.
fn find_number(numbers: &Vec<NumberText>, r: Real) -> (text: String)
    requires
        has_number(numbers@, r.bits),
    ensures
        text == number_text(numbers@, r),
{
    let mut k: usize = 0;
    while k < numbers.len()
        invariant
            k <= numbers@.len(),
            has_number(numbers@, r.bits),
            number_index(numbers@, r.bits, 0) == number_index(numbers@, r.bits, k as int),
            forall|j: int| 0 <= j < k ==> (#[trigger] numbers@[j]).bits != r.bits,
        decreases numbers@.len() - k,
    {
        if numbers[k].bits == r.bits {
            return numbers[k].text.clone();
        }
        k += 1;
    }
    proof {
        let j = choose|j: int| 0 <= j < numbers@.len() && (#[trigger] numbers@[j]).bits == r.bits;
        assert(numbers@[j].bits != r.bits);
    }
    numbers[0].text.clone()
}

/// Every binary64 value of the instrument has a text.
pub open spec fn instrument_covered(x: InstrumentDto, numbers: Seq<NumberText>) -> bool {
    match x {
        InstrumentDto::VirtualMeasurement { base_temperature, .. } => has_number(numbers, base_temperature.bits),
        InstrumentDto::ThermalPlant { ambient_temperature, initial_temperature, gain_per_percent, .. } => {
            &&& has_number(numbers, ambient_temperature.bits)
            &&& has_number(numbers, initial_temperature.bits)
            &&& has_number(numbers, gain_per_percent.bits)
        },
        InstrumentDto::Metakon { .. } => true,
    }
}

/// Every binary64 value of a configuration value has a text.
pub open spec fn config_covered(v: ConfigValue, numbers: Seq<NumberText>) -> bool {
    match v {
        ConfigValue::Float(r) => has_number(numbers, r.bits),
        ConfigValue::Array(items) => forall|k: int| 0 <= k < items@.len() ==> (#[trigger] items@[k] matches ConfigItem::Float(r)
            ==> has_number(numbers, r.bits)),
        _ => true,
    }
}

/// Every binary64 value of the component's configuration has a text.
pub open spec fn component_covered(c: ManagedComponentDto, numbers: Seq<NumberText>) -> bool {
    forall|k: int| 0 <= k < c.config@.len() ==> config_covered((#[trigger] c.config@[k]).value, numbers)
}

/// Every binary64 value of the document has a text.
pub open spec fn numbers_cover(dto: DeploymentDto, numbers: Seq<NumberText>) -> bool {
    &&& forall|i: int| 0 <= i < dto.instruments@.len() ==> instrument_covered(#[trigger] dto.instruments@[i], numbers)
    &&& forall|i: int| 0 <= i < dto.managed_components@.len() ==> component_covered(
        #[trigger] dto.managed_components@[i],
        numbers,
    )
}

fn has_number_exec(numbers: &Vec<NumberText>, bits: u64) -> (r: bool)
    ensures
        r == has_number(numbers@, bits),
{
    let mut k: usize = 0;
    while k < numbers.len()
        invariant
            k <= numbers@.len(),
            forall|j: int| 0 <= j < k ==> (#[trigger] numbers@[j]).bits != bits,
        decreases numbers@.len() - k,
    {
        if numbers[k].bits == bits {
            return true;
        }
        k += 1;
    }
    false
}

// ---------------------------------------------------------------------------
// Instrument properties.

/// The millisecond unit.
pub open spec fn ms_unit() -> InstrumentPropertyUnit<'static> {
    InstrumentPropertyUnit { id: "ms", symbol: "ms" }
}

/// The degree Celsius unit.
pub open spec fn celsius_unit() -> InstrumentPropertyUnit<'static> {
    InstrumentPropertyUnit { id: "degC", symbol: "°C" }
}

/// A display name, changed live.
pub open spec fn display_property(name: String) -> InstrumentPropertyMetadata<'static> {
    InstrumentPropertyMetadata {
        id: "display_name",
        value_type: InstrumentPropertyType::Text,
        current: InstrumentPropertyValue::Text(name),
        unit: None,
        access: InstrumentPropertyAccess::ReadWrite,
        mutation: InstrumentPropertyMutation::LiveSafe,
        constraints: None,
    }
}

/// An acquisition period in 1..=60000 ms, changed at the next acquisition.
pub open spec fn poll_property(period: u64) -> InstrumentPropertyMetadata<'static> {
    InstrumentPropertyMetadata {
        id: "poll_period_ms",
        value_type: InstrumentPropertyType::Integer,
        current: InstrumentPropertyValue::Unsigned(period),
        unit: Some(ms_unit()),
        access: InstrumentPropertyAccess::ReadWrite,
        mutation: InstrumentPropertyMutation::OrdinaryLive,
        constraints: Some(InstrumentPropertyConstraints::Integer { minimum: 1, maximum: 60000 }),
    }
}

/// A deployment-only value whose change reinitializes the instrument.
pub open spec fn model_property(
    id: &'static str,
    value_type: InstrumentPropertyType,
    current: InstrumentPropertyValue,
    unit: Option<InstrumentPropertyUnit<'static>>,
) -> InstrumentPropertyMetadata<'static> {
    InstrumentPropertyMetadata {
        id,
        value_type,
        current,
        unit,
        access: InstrumentPropertyAccess::DeploymentOnly,
        mutation: InstrumentPropertyMutation::Reinitialize,
        constraints: None,
    }
}

/// The configuration properties of one instrument, in presentation order.
pub open spec fn instrument_table(x: InstrumentDto, numbers: Seq<NumberText>) -> Seq<InstrumentPropertyMetadata<'static>> {
    match x {
        InstrumentDto::VirtualMeasurement {
            display_name,
            base_temperature,
            measurement_enabled,
            external_publication,
            poll_period_ms,
            ..
        } => seq![
            display_property(display_name),
            poll_property(poll_period_ms),
            InstrumentPropertyMetadata {
                id: "base_temperature",
                value_type: InstrumentPropertyType::Number,
                current: InstrumentPropertyValue::Number(number_text(numbers, base_temperature)),
                unit: None,
                access: InstrumentPropertyAccess::DeploymentOnly,
                mutation: InstrumentPropertyMutation::Reinitialize,
                constraints: Some(InstrumentPropertyConstraints::Number { minimum: "-100.0", maximum: "100.0" }),
            },
            model_property(
                "measurement_enabled",
                InstrumentPropertyType::Boolean,
                InstrumentPropertyValue::Boolean(measurement_enabled),
                None,
            ),
            InstrumentPropertyMetadata {
                id: "external_publication",
                value_type: InstrumentPropertyType::Boolean,
                current: InstrumentPropertyValue::Boolean(external_publication),
                unit: None,
                access: InstrumentPropertyAccess::ReadOnly,
                mutation: InstrumentPropertyMutation::Reinitialize,
                constraints: None,
            },
        ],
        InstrumentDto::ThermalPlant {
            display_name,
            ambient_temperature,
            initial_temperature,
            gain_per_percent,
            time_constant_ms,
            poll_period_ms,
            ..
        } => seq![
            display_property(display_name),
            poll_property(poll_period_ms),
            model_property(
                "ambient_temperature",
                InstrumentPropertyType::Number,
                InstrumentPropertyValue::Number(number_text(numbers, ambient_temperature)),
                Some(celsius_unit()),
            ),
            model_property(
                "initial_temperature",
                InstrumentPropertyType::Number,
                InstrumentPropertyValue::Number(number_text(numbers, initial_temperature)),
                Some(celsius_unit()),
            ),
            model_property(
                "gain_per_percent",
                InstrumentPropertyType::Number,
                InstrumentPropertyValue::Number(number_text(numbers, gain_per_percent)),
                None,
            ),
            model_property(
                "time_constant_ms",
                InstrumentPropertyType::Number,
                InstrumentPropertyValue::Unsigned(time_constant_ms),
                Some(ms_unit()),
            ),
        ],
        InstrumentDto::Metakon { poll_period_ms, .. } => seq![poll_property(poll_period_ms)],
    }
}

fn ms() -> (u: InstrumentPropertyUnit<'static>)
    ensures
        u == ms_unit(),
{
    InstrumentPropertyUnit { id: "ms", symbol: "ms" }
}

fn celsius() -> (u: InstrumentPropertyUnit<'static>)
    ensures
        u == celsius_unit(),
{
    InstrumentPropertyUnit { id: "degC", symbol: "°C" }
}

fn poll_metadata(period: u64) -> (m: InstrumentPropertyMetadata<'static>)
    ensures
        m == poll_property(period),
{
    InstrumentPropertyMetadata {
        id: "poll_period_ms",
        value_type: InstrumentPropertyType::Integer,
        current: InstrumentPropertyValue::Unsigned(period),
        unit: Some(ms()),
        access: InstrumentPropertyAccess::ReadWrite,
        mutation: InstrumentPropertyMutation::OrdinaryLive,
        constraints: Some(InstrumentPropertyConstraints::Integer { minimum: 1, maximum: 60000 }),
    }
}

fn model_metadata(
    id: &'static str,
    value_type: InstrumentPropertyType,
    current: InstrumentPropertyValue,
    unit: Option<InstrumentPropertyUnit<'static>>,
) -> (m: InstrumentPropertyMetadata<'static>)
    ensures
        m == model_property(id, value_type, current, unit),
{
    InstrumentPropertyMetadata {
        id,
        value_type,
        current,
        unit,
        access: InstrumentPropertyAccess::DeploymentOnly,
        mutation: InstrumentPropertyMutation::Reinitialize,
        constraints: None,
    }
}

/// The configuration properties of one instrument, in presentation order.
pub fn instrument_properties(x: &InstrumentDto, numbers: &Vec<NumberText>) -> (properties: Vec<
    InstrumentPropertyMetadata<'static>,
>)
    requires
        instrument_covered(*x, numbers@),
    ensures
        properties@ == instrument_table(*x, numbers@),
{
    let mut out: Vec<InstrumentPropertyMetadata<'static>> = Vec::new();
    match x {
        InstrumentDto::VirtualMeasurement {
            display_name,
            base_temperature,
            measurement_enabled,
            external_publication,
            poll_period_ms,
            ..
        } => {
            out.push(
                InstrumentPropertyMetadata {
                    id: "display_name",
                    value_type: InstrumentPropertyType::Text,
                    current: InstrumentPropertyValue::Text(display_name.clone()),
                    unit: None,
                    access: InstrumentPropertyAccess::ReadWrite,
                    mutation: InstrumentPropertyMutation::LiveSafe,
                    constraints: None,
                },
            );
            out.push(poll_metadata(*poll_period_ms));
            out.push(
                InstrumentPropertyMetadata {
                    id: "base_temperature",
                    value_type: InstrumentPropertyType::Number,
                    current: InstrumentPropertyValue::Number(find_number(numbers, *base_temperature)),
                    unit: None,
                    access: InstrumentPropertyAccess::DeploymentOnly,
                    mutation: InstrumentPropertyMutation::Reinitialize,
                    constraints: Some(
                        InstrumentPropertyConstraints::Number { minimum: "-100.0", maximum: "100.0" },
                    ),
                },
            );
            out.push(
                model_metadata(
                    "measurement_enabled",
                    InstrumentPropertyType::Boolean,
                    InstrumentPropertyValue::Boolean(*measurement_enabled),
                    None,
                ),
            );
            out.push(
                InstrumentPropertyMetadata {
                    id: "external_publication",
                    value_type: InstrumentPropertyType::Boolean,
                    current: InstrumentPropertyValue::Boolean(*external_publication),
                    unit: None,
                    access: InstrumentPropertyAccess::ReadOnly,
                    mutation: InstrumentPropertyMutation::Reinitialize,
                    constraints: None,
                },
            );
        },
        InstrumentDto::ThermalPlant {
            display_name,
            ambient_temperature,
            initial_temperature,
            gain_per_percent,
            time_constant_ms,
            poll_period_ms,
            ..
        } => {
            out.push(
                InstrumentPropertyMetadata {
                    id: "display_name",
                    value_type: InstrumentPropertyType::Text,
                    current: InstrumentPropertyValue::Text(display_name.clone()),
                    unit: None,
                    access: InstrumentPropertyAccess::ReadWrite,
                    mutation: InstrumentPropertyMutation::LiveSafe,
                    constraints: None,
                },
            );
            out.push(poll_metadata(*poll_period_ms));
            out.push(
                model_metadata(
                    "ambient_temperature",
                    InstrumentPropertyType::Number,
                    InstrumentPropertyValue::Number(find_number(numbers, *ambient_temperature)),
                    Some(celsius()),
                ),
            );
            out.push(
                model_metadata(
                    "initial_temperature",
                    InstrumentPropertyType::Number,
                    InstrumentPropertyValue::Number(find_number(numbers, *initial_temperature)),
                    Some(celsius()),
                ),
            );
            out.push(
                model_metadata(
                    "gain_per_percent",
                    InstrumentPropertyType::Number,
                    InstrumentPropertyValue::Number(find_number(numbers, *gain_per_percent)),
                    None,
                ),
            );
            out.push(
                model_metadata(
                    "time_constant_ms",
                    InstrumentPropertyType::Number,
                    InstrumentPropertyValue::Unsigned(*time_constant_ms),
                    Some(ms()),
                ),
            );
        },
        InstrumentDto::Metakon { poll_period_ms, .. } => {
            out.push(poll_metadata(*poll_period_ms));
        },
    }
    proof {
        assert(out@ =~= instrument_table(*x, numbers@));
    }
    out
}

/// One instrument described as a property source, with the JSON texts of its
/// binary64 values.
pub struct InstrumentProperties<'a> {
    instrument: &'a InstrumentDto,
    numbers: &'a Vec<NumberText>,
    table: Vec<InstrumentPropertyMetadata<'static>>,
}

impl<'a> InstrumentProperties<'a> {
    /// The described properties are those of the instrument.
    #[verifier::type_invariant]
    spec fn described(self) -> bool {
        &&& instrument_covered(*self.instrument, self.numbers@)
        &&& self.table@ == instrument_table(*self.instrument, self.numbers@)
    }

    /// The instrument described.
    pub closed spec fn spec_instrument(self) -> InstrumentDto {
        *self.instrument
    }

    /// The number texts used.
    pub closed spec fn spec_numbers(self) -> Seq<NumberText> {
        self.numbers@
    }

    /// Describe an instrument, when every binary64 value has a text.
    pub fn new(instrument: &'a InstrumentDto, numbers: &'a Vec<NumberText>) -> (r: Option<Self>)
        ensures
            r is Some <==> instrument_covered(*instrument, numbers@),
            r matches Some(p) ==> p.spec_instrument() == *instrument && p.spec_numbers() == numbers@,
    {
        let covered = match instrument {
            InstrumentDto::VirtualMeasurement { base_temperature, .. } => has_number_exec(
                numbers,
                base_temperature.bits,
            ),
            InstrumentDto::ThermalPlant { ambient_temperature, initial_temperature, gain_per_percent, .. } => {
                has_number_exec(numbers, ambient_temperature.bits) && has_number_exec(
                    numbers,
                    initial_temperature.bits,
                ) && has_number_exec(numbers, gain_per_percent.bits)
            },
            InstrumentDto::Metakon { .. } => true,
        };
        if !covered {
            return None;
        }
        let table = instrument_properties(instrument, numbers);
        Some(InstrumentProperties { instrument, numbers, table })
    }
}

impl<'a> InstrumentPropertySource for InstrumentProperties<'a> {
    open spec fn spec_instrument_id(&self) -> u64 {
        self.spec_instrument().spec_id()
    }

    closed spec fn spec_properties(&self) -> Vec<InstrumentPropertyMetadata<'_>> {
        self.table
    }

    fn instrument_id(&self) -> (id: u64) {
        self.instrument.id()
    }

    fn property_metadata(&self) -> (properties: Vec<InstrumentPropertyMetadata<'_>>) {
        proof {
            use_type_invariant(self);
        }
        instrument_properties(self.instrument, self.numbers)
    }
}

// ---------------------------------------------------------------------------
// Record text. Keys stand in byte order.

/// The owner of a record: its kind and its identity as decimal text.
pub open spec fn owner_text(kind: Seq<u8>, id: u64) -> Seq<u8> {
    "{\"id\":\"".spec_bytes() + decimal(id as nat) + "\",\"kind\":\"".spec_bytes() + kind + "\"}".spec_bytes()
}

/// A range, `null` when absent.
pub open spec fn range_text(c: Option<InstrumentPropertyConstraints>) -> Seq<u8> {
    match c {
        None => "null".spec_bytes(),
        Some(InstrumentPropertyConstraints::Integer { minimum, maximum }) => "{\"maximum\":".spec_bytes()
            + signed_json(maximum) + ",\"minimum\":".spec_bytes() + signed_json(minimum) + "}".spec_bytes(),
        Some(InstrumentPropertyConstraints::Number { minimum, maximum }) => "{\"maximum\":".spec_bytes()
            + maximum.spec_bytes() + ",\"minimum\":".spec_bytes() + minimum.spec_bytes() + "}".spec_bytes(),
    }
}

/// One property record.
#[verifier::opaque]
pub open spec fn property_text(
    owner: Seq<u8>,
    id: Seq<u8>,
    value_type: Seq<u8>,
    current: Seq<u8>,
    unit: Seq<u8>,
    access: Seq<u8>,
    mutation: Seq<u8>,
    range: Seq<u8>,
    revision: Seq<u8>,
) -> Seq<u8> {
    "{\"access\":".spec_bytes() + json_string(access) + ",\"constraints\":".spec_bytes() + range
        + ",\"current\":".spec_bytes() + current + ",\"id\":{\"owner\":".spec_bytes() + owner
        + ",\"property\":".spec_bytes() + json_string(id) + "},\"kind\":\"property\",\"mutation_class\":".spec_bytes()
        + json_string(mutation) + ",\"owner\":".spec_bytes() + owner + ",\"property\":".spec_bytes() + json_string(id)
        + ",\"revision\":".spec_bytes() + json_string(revision) + ",\"unit\":".spec_bytes() + unit
        + ",\"value_type\":".spec_bytes() + json_string(value_type) + "}".spec_bytes()
}

/// The record of one described property.
pub open spec fn metadata_text(owner: Seq<u8>, m: InstrumentPropertyMetadata, revision: Seq<u8>) -> Seq<u8> {
    property_text(
        owner,
        m.id.spec_bytes(),
        value_type_name(m.value_type),
        value_json(m.current),
        unit_json(m.unit),
        access_name(m.access),
        mutation_name(m.mutation),
        range_text(m.constraints),
        revision,
    )
}

/// The records of one resource: its port and its baud rate.
pub open spec fn resource_records(r: ResourceDto, revision: Seq<u8>) -> Seq<Seq<u8>> {
    let owner = owner_text("resource".spec_bytes(), r.id);
    seq![
        property_text(owner, "port".spec_bytes(), "text".spec_bytes(), json_string(vstd::utf8::encode_utf8(r.port@)),
            "null".spec_bytes(), "read_only".spec_bytes(), "rebind_required".spec_bytes(), "null".spec_bytes(), revision),
        property_text(owner, "baud_rate".spec_bytes(), "integer".spec_bytes(), decimal(r.baud_rate as nat),
            "null".spec_bytes(), "deployment_only".spec_bytes(), "rebind_required".spec_bytes(), "null".spec_bytes(), revision),
    ]
}

/// The records of one instrument: its described properties.
pub open spec fn instrument_records(x: InstrumentDto, numbers: Seq<NumberText>, revision: Seq<u8>) -> Seq<Seq<u8>> {
    let owner = owner_text("instrument".spec_bytes(), x.spec_id());
    let table = instrument_table(x, numbers);
    Seq::new(table.len(), |i: int| metadata_text(owner, table[i], revision))
}

/// JSON of one configuration array element; other elements by their TOML text.
pub open spec fn item_text(item: ConfigItem, numbers: Seq<NumberText>) -> Seq<u8> {
    match item {
        ConfigItem::Integer(v) => signed_json(v),
        ConfigItem::Float(r) => vstd::utf8::encode_utf8(number_text(numbers, r)@),
        ConfigItem::Other(t) => vstd::utf8::encode_utf8(t@),
    }
}

/// The elements of a configuration array, separated by commas.
pub open spec fn items_text(items: Seq<ConfigItem>, numbers: Seq<NumberText>) -> Seq<u8>
    decreases items.len(),
{
    if items.len() == 0 {
        Seq::empty()
    } else if items.len() == 1 {
        item_text(items[0], numbers)
    } else {
        items_text(items.drop_last(), numbers) + ",".spec_bytes() + item_text(items.last(), numbers)
    }
}

/// The inferred type name and JSON of a configuration value; tables and date-times
/// give no record.
pub open spec fn config_value_text(v: ConfigValue, numbers: Seq<NumberText>) -> Option<(Seq<u8>, Seq<u8>)> {
    match v {
        ConfigValue::Integer(n) => Some(("integer".spec_bytes(), signed_json(n))),
        ConfigValue::Float(r) => Some(("number".spec_bytes(), vstd::utf8::encode_utf8(number_text(numbers, r)@))),
        ConfigValue::Boolean(b) => Some(("boolean".spec_bytes(), if b { "true".spec_bytes() } else { "false".spec_bytes() })),
        ConfigValue::Text(t) => Some(("text".spec_bytes(), json_string(vstd::utf8::encode_utf8(t@)))),
        ConfigValue::Array(items) => Some(("number_array".spec_bytes(), "[".spec_bytes() + items_text(items@, numbers) + "]".spec_bytes())),
        ConfigValue::Other(_) => None,
    }
}

/// The configuration entry is the registered moving-mean window.
pub open spec fn registered_window(c: ManagedComponentDto, e: ConfigEntry) -> bool {
    c.implementation@ == MOVING_MEAN_IMPLEMENTATION@ && e.key@ == "window"@
}

/// The unit of a property by its name: milliseconds for the period names.
pub open spec fn unit_by_name(name: Seq<char>) -> Seq<u8> {
    if name == "poll_period_ms"@ || name == "period_ms"@ {
        unit_json(Some(ms_unit()))
    } else {
        "null".spec_bytes()
    }
}

/// The record of one configuration entry, if its value gives one: the registered
/// type and range where the implementation describes the entry, else the inferred
/// type and no range.
pub open spec fn config_record(
    c: ManagedComponentDto,
    e: ConfigEntry,
    numbers: Seq<NumberText>,
    revision: Seq<u8>,
) -> Option<Seq<u8>> {
    match config_value_text(e.value, numbers) {
        None => None,
        Some((inferred, current)) => Some(property_text(
            owner_text("component".spec_bytes(), c.id),
            vstd::utf8::encode_utf8(e.key@),
            if registered_window(c, e) { "integer".spec_bytes() } else { inferred },
            current,
            unit_by_name(e.key@),
            "deployment_only".spec_bytes(),
            "reinitialize".spec_bytes(),
            if registered_window(c, e) { "{\"maximum\":64,\"minimum\":2}".spec_bytes() } else { "null".spec_bytes() },
            revision,
        )),
    }
}

/// The records of the first entries of a component's configuration.
pub open spec fn config_records(
    c: ManagedComponentDto,
    entries: Seq<ConfigEntry>,
    numbers: Seq<NumberText>,
    revision: Seq<u8>,
) -> Seq<Seq<u8>>
    decreases entries.len(),
{
    if entries.len() == 0 {
        Seq::empty()
    } else {
        let before = config_records(c, entries.drop_last(), numbers, revision);
        match config_record(c, entries.last(), numbers, revision) {
            Some(r) => before.push(r),
            None => before,
        }
    }
}

/// The records of one component: its period, then its configuration entries.
pub open spec fn component_records(c: ManagedComponentDto, numbers: Seq<NumberText>, revision: Seq<u8>) -> Seq<Seq<u8>> {
    seq![
        property_text(owner_text("component".spec_bytes(), c.id), "period_ms".spec_bytes(), "integer".spec_bytes(),
            decimal(c.period_ms as nat), unit_json(Some(ms_unit())), "deployment_only".spec_bytes(),
            "reinitialize".spec_bytes(), "{\"maximum\":60000,\"minimum\":1}".spec_bytes(), revision),
    ] + config_records(c, c.config@, numbers, revision)
}

/// Records of a list of resources, in order.
pub open spec fn resources_records(rs: Seq<ResourceDto>, revision: Seq<u8>) -> Seq<Seq<u8>>
    decreases rs.len(),
{
    if rs.len() == 0 {
        Seq::empty()
    } else {
        resources_records(rs.drop_last(), revision) + resource_records(rs.last(), revision)
    }
}

/// Records of a list of instruments, in order.
pub open spec fn instruments_records(xs: Seq<InstrumentDto>, numbers: Seq<NumberText>, revision: Seq<u8>) -> Seq<Seq<u8>>
    decreases xs.len(),
{
    if xs.len() == 0 {
        Seq::empty()
    } else {
        instruments_records(xs.drop_last(), numbers, revision) + instrument_records(xs.last(), numbers, revision)
    }
}

/// Records of a list of components, in order.
pub open spec fn components_records(cs: Seq<ManagedComponentDto>, numbers: Seq<NumberText>, revision: Seq<u8>) -> Seq<Seq<u8>>
    decreases cs.len(),
{
    if cs.len() == 0 {
        Seq::empty()
    } else {
        components_records(cs.drop_last(), numbers, revision) + component_records(cs.last(), numbers, revision)
    }
}

/// Every property record of a deployment at `revision`: resources, instruments,
/// then managed components, each in document order.
pub open spec fn deployment_properties(dto: DeploymentDto, numbers: Seq<NumberText>, revision: u64) -> Seq<Seq<u8>> {
    let rev = decimal(revision as nat);
    resources_records(dto.resources@, rev) + instruments_records(dto.instruments@, numbers, rev)
        + components_records(dto.managed_components@, numbers, rev)
}

// ---------------------------------------------------------------------------
// Byte order.

/// `a` comes strictly before `b` in byte order.
pub open spec fn byte_lt(a: Seq<u8>, b: Seq<u8>) -> bool
    decreases a.len(),
{
    if a.len() == 0 {
        b.len() > 0
    } else if b.len() == 0 {
        false
    } else if a[0] != b[0] {
        a[0] < b[0]
    } else {
        byte_lt(a.drop_first(), b.drop_first())
    }
}

/// No record comes before an earlier one.
pub open spec fn in_byte_order(s: Seq<Seq<u8>>) -> bool {
    forall|i: int, j: int| 0 <= i < j < s.len() ==> !byte_lt(#[trigger] s[j], #[trigger] s[i])
}

/// The byte contents of each record.
pub open spec fn record_views(s: Seq<Vec<u8>>) -> Seq<Seq<u8>> {
    s.map_values(|v: Vec<u8>| v@)
}

proof fn lemma_views_push(s: Seq<Vec<u8>>, x: Vec<u8>)
    ensures
        record_views(s.push(x)) == record_views(s).push(x@),
{
    assert(record_views(s.push(x)) =~= record_views(s).push(x@));
}

proof fn lemma_byte_lt_irreflexive(a: Seq<u8>)
    ensures
        !byte_lt(a, a),
    decreases a.len(),
{
    if a.len() > 0 {
        lemma_byte_lt_irreflexive(a.drop_first());
    }
}

proof fn lemma_byte_lt_transitive(a: Seq<u8>, b: Seq<u8>, c: Seq<u8>)
    requires
        byte_lt(a, b),
        byte_lt(b, c),
    ensures
        byte_lt(a, c),
    decreases a.len(),
{
    if a.len() > 0 && b.len() > 0 && c.len() > 0 && a[0] == b[0] && b[0] == c[0] {
        lemma_byte_lt_transitive(a.drop_first(), b.drop_first(), c.drop_first());
    }
}

proof fn lemma_byte_lt_total(a: Seq<u8>, b: Seq<u8>)
    requires
        !byte_lt(a, b),
        !byte_lt(b, a),
    ensures
        a == b,
    decreases a.len(),
{
    if a.len() > 0 && b.len() > 0 {
        lemma_byte_lt_total(a.drop_first(), b.drop_first());
        assert(a =~= seq![a[0]] + a.drop_first());
        assert(b =~= seq![b[0]] + b.drop_first());
    } else {
        assert(a =~= b);
    }
}

/// Whether `a` comes strictly before `b` in byte order.
fn bytes_before(a: &Vec<u8>, b: &Vec<u8>) -> (r: bool)
    ensures
        r == byte_lt(a@, b@),
{
    let mut i: usize = 0;
    proof {
        assert(a@.skip(0) =~= a@);
        assert(b@.skip(0) =~= b@);
    }
    while i < a.len() && i < b.len()
        invariant
            i <= a@.len(),
            i <= b@.len(),
            byte_lt(a@, b@) == byte_lt(a@.skip(i as int), b@.skip(i as int)),
        decreases a@.len() - i,
    {
        if a[i] != b[i] {
            proof {
                assert(a@.skip(i as int)[0] == a@[i as int]);
                assert(b@.skip(i as int)[0] == b@[i as int]);
            }
            return a[i] < b[i];
        }
        proof {
            assert(a@.skip(i as int).drop_first() =~= a@.skip(i + 1));
            assert(b@.skip(i as int).drop_first() =~= b@.skip(i + 1));
        }
        i += 1;
    }
    proof {
        assert(a@.skip(i as int).len() == a@.len() - i);
    }
    i == a.len() && i < b.len()
}

/// Insert a record at its place in byte order.
fn insert_in_order(out: &mut Vec<Vec<u8>>, x: Vec<u8>)
    requires
        in_byte_order(record_views(old(out)@)),
    ensures
        in_byte_order(record_views(final(out)@)),
        record_views(final(out)@).to_multiset() == record_views(old(out)@).to_multiset().insert(x@),
        final(out)@.len() == old(out)@.len() + 1,
{
    broadcast use vstd::seq_lib::group_to_multiset_ensures;

    let ghost before = record_views(out@);
    let mut p: usize = 0;
    while p < out.len()
        invariant
            p <= out@.len(),
            before == record_views(out@),
            forall|i: int| 0 <= i < p ==> !byte_lt(x@, #[trigger] before[i]),
        ensures
            p <= out@.len(),
            before == record_views(out@),
            forall|i: int| 0 <= i < p ==> !byte_lt(x@, #[trigger] before[i]),
            p < out@.len() ==> byte_lt(x@, before[p as int]),
        decreases out@.len() - p,
    {
        if bytes_before(&x, &out[p]) {
            break;
        }
        p += 1;
    }
    let ghost xv = x@;
    out.insert(p, x);
    let ghost after = record_views(out@);
    proof {
        assert(after =~= before.insert(p as int, xv));
        assert forall|i: int, j: int| 0 <= i < j < after.len() implies !byte_lt(#[trigger] after[j], #[trigger] after[i]) by {
            if j < p {
                assert(after[i] == before[i] && after[j] == before[j]);
            } else if j == p {
                assert(after[i] == before[i]);
            } else if i < p {
                assert(after[i] == before[i] && after[j] == before[j - 1]);
            } else if i == p {
                assert(after[j] == before[j - 1]);
                assert(byte_lt(xv, before[p as int]));
                if byte_lt(before[j - 1], xv) {
                    if j - 1 == p {
                        lemma_byte_lt_transitive(xv, before[p as int], xv);
                        lemma_byte_lt_irreflexive(xv);
                    } else {
                        lemma_byte_lt_transitive(before[j - 1], xv, before[p as int]);
                    }
                }
            } else {
                assert(after[i] == before[i - 1] && after[j] == before[j - 1]);
            }
        }
        assert(after.remove(p as int) =~= before);
        assert(after[p as int] == xv);
        assert(after.to_multiset() =~= before.to_multiset().insert(xv)) by {
            assert(after.remove(p as int).to_multiset() == after.to_multiset().remove(xv));
            assert(after.to_multiset().count(xv) > 0) by {
                assert(after.contains(xv));
            }
        }
    }
}

/// Records of one resource.
fn push_resource(out: &mut Vec<Vec<u8>>, r: &ResourceDto, revision: &Vec<u8>)
    ensures
        record_views(final(out)@) == record_views(old(out)@) + resource_records(*r, revision@),
{
    let owner = owner_bytes("resource".as_bytes(), r.id);
    let mut port: Vec<u8> = Vec::new();
    append_string(&mut port, r.port.as_str().as_bytes());
    let mut null: Vec<u8> = Vec::new();
    append(&mut null, "null".as_bytes());
    let first = property_bytes(&owner, "port".as_bytes(), "text".as_bytes(), &port, &null, "read_only".as_bytes(),
        "rebind_required".as_bytes(), &null, revision);
    let baud = decimal_bytes(r.baud_rate as u64);
    let second = property_bytes(&owner, "baud_rate".as_bytes(), "integer".as_bytes(), &baud, &null,
        "deployment_only".as_bytes(), "rebind_required".as_bytes(), &null, revision);
    let ghost start = out@;
    out.push(first);
    out.push(second);
    proof {
        assert(record_views(out@) =~= record_views(start) + resource_records(*r, revision@));
    }
}

/// The owner text of a record.
fn owner_bytes(kind: &[u8], id: u64) -> (o: Vec<u8>)
    ensures
        o@ == owner_text(kind@, id),
{
    let mut o: Vec<u8> = Vec::new();
    append(&mut o, "{\"id\":\"".as_bytes());
    let digits = decimal_bytes(id);
    append(&mut o, digits.as_slice());
    append(&mut o, "\",\"kind\":\"".as_bytes());
    append(&mut o, kind);
    append(&mut o, "\"}".as_bytes());
    proof {
        assert(o@ =~= owner_text(kind@, id));
    }
    o
}

/// One property record.
fn property_bytes(
    owner: &Vec<u8>,
    id: &[u8],
    value_type: &[u8],
    current: &Vec<u8>,
    unit: &Vec<u8>,
    access: &[u8],
    mutation: &[u8],
    range: &Vec<u8>,
    revision: &Vec<u8>,
) -> (r: Vec<u8>)
    ensures
        r@ == property_text(owner@, id@, value_type@, current@, unit@, access@, mutation@, range@, revision@),
{
    let mut o: Vec<u8> = Vec::new();
    append(&mut o, "{\"access\":".as_bytes());
    append_string(&mut o, access);
    append(&mut o, ",\"constraints\":".as_bytes());
    append(&mut o, range.as_slice());
    append(&mut o, ",\"current\":".as_bytes());
    append(&mut o, current.as_slice());
    append(&mut o, ",\"id\":{\"owner\":".as_bytes());
    append(&mut o, owner.as_slice());
    append(&mut o, ",\"property\":".as_bytes());
    append_string(&mut o, id);
    append(&mut o, "},\"kind\":\"property\",\"mutation_class\":".as_bytes());
    append_string(&mut o, mutation);
    append(&mut o, ",\"owner\":".as_bytes());
    append(&mut o, owner.as_slice());
    append(&mut o, ",\"property\":".as_bytes());
    append_string(&mut o, id);
    append(&mut o, ",\"revision\":".as_bytes());
    append_string(&mut o, revision.as_slice());
    append(&mut o, ",\"unit\":".as_bytes());
    append(&mut o, unit.as_slice());
    append(&mut o, ",\"value_type\":".as_bytes());
    append_string(&mut o, value_type);
    append(&mut o, "}".as_bytes());
    proof {
        reveal(property_text);
        assert(o@ =~= property_text(owner@, id@, value_type@, current@, unit@, access@, mutation@, range@, revision@));
    }
    o
}

/// A range, `null` when absent.
fn range_bytes(c: &Option<InstrumentPropertyConstraints>) -> (r: Vec<u8>)
    ensures
        r@ == range_text(*c),
{
    let mut o: Vec<u8> = Vec::new();
    match c {
        None => append(&mut o, "null".as_bytes()),
        Some(InstrumentPropertyConstraints::Integer { minimum, maximum }) => {
            append(&mut o, "{\"maximum\":".as_bytes());
            append_signed(&mut o, *maximum);
            append(&mut o, ",\"minimum\":".as_bytes());
            append_signed(&mut o, *minimum);
            append(&mut o, "}".as_bytes());
        },
        Some(InstrumentPropertyConstraints::Number { minimum, maximum }) => {
            append(&mut o, "{\"maximum\":".as_bytes());
            append(&mut o, maximum.as_bytes());
            append(&mut o, ",\"minimum\":".as_bytes());
            append(&mut o, minimum.as_bytes());
            append(&mut o, "}".as_bytes());
        },
    }
    proof {
        assert(o@ =~= range_text(*c));
    }
    o
}

/// The record of one described property.
fn metadata_bytes(owner: &Vec<u8>, m: &InstrumentPropertyMetadata, revision: &Vec<u8>) -> (r: Vec<u8>)
    ensures
        r@ == metadata_text(owner@, *m, revision@),
{
    let mut current: Vec<u8> = Vec::new();
    append_value(&mut current, &m.current);
    let mut unit: Vec<u8> = Vec::new();
    append_unit(&mut unit, &m.unit);
    let range = range_bytes(&m.constraints);
    property_bytes(
        owner,
        m.id.as_bytes(),
        type_text(m.value_type).as_bytes(),
        &current,
        &unit,
        access_text(m.access).as_bytes(),
        mutation_text(m.mutation).as_bytes(),
        &range,
        revision,
    )
}

/// Records of one instrument.
fn push_instrument(out: &mut Vec<Vec<u8>>, x: &InstrumentDto, numbers: &Vec<NumberText>, revision: &Vec<u8>)
    requires
        instrument_covered(*x, numbers@),
    ensures
        record_views(final(out)@) == record_views(old(out)@) + instrument_records(*x, numbers@, revision@),
{
    let owner = owner_bytes("instrument".as_bytes(), x.id());
    let table = instrument_properties(x, numbers);
    let ghost start = out@;
    let mut i: usize = 0;
    while i < table.len()
        invariant
            i <= table@.len(),
            table@ == instrument_table(*x, numbers@),
            owner@ == owner_text("instrument".spec_bytes(), x.spec_id()),
            record_views(out@) == record_views(start) + instrument_records(*x, numbers@, revision@).subrange(0, i as int),
        decreases table@.len() - i,
    {
        let record = metadata_bytes(&owner, &table[i], revision);
        let ghost prev = out@;
        out.push(record);
        proof {
            let recs = instrument_records(*x, numbers@, revision@);
            lemma_views_push(prev, record);
            assert(recs[i as int] == record@);
            assert(recs.subrange(0, i + 1) =~= recs.subrange(0, i as int).push(recs[i as int]));
            assert(record_views(out@) =~= record_views(start) + recs.subrange(0, i + 1));
        }
        i += 1;
    }
    proof {
        assert(instrument_records(*x, numbers@, revision@).subrange(0, i as int) =~= instrument_records(*x, numbers@, revision@));
    }
}

/// JSON of one configuration array element.
fn push_item(o: &mut Vec<u8>, item: &ConfigItem, numbers: &Vec<NumberText>)
    requires
        item matches ConfigItem::Float(r) ==> has_number(numbers@, r.bits),
    ensures
        final(o)@ == old(o)@ + item_text(*item, numbers@),
{
    match item {
        ConfigItem::Integer(v) => append_signed(o, *v),
        ConfigItem::Float(r) => {
            let text = find_number(numbers, *r);
            append(o, text.as_str().as_bytes());
        },
        ConfigItem::Other(t) => append(o, t.as_str().as_bytes()),
    }
}

/// The inferred type name and JSON of a configuration value, if it gives a record.
fn config_value_bytes(v: &ConfigValue, numbers: &Vec<NumberText>) -> (r: Option<(&'static str, Vec<u8>)>)
    requires
        config_covered(*v, numbers@),
    ensures
        match config_value_text(*v, numbers@) {
            None => r is None,
            Some((kind, current)) => r matches Some((k, c)) && k.spec_bytes() == kind && c@ == current,
        },
        *v matches ConfigValue::Text(t) ==> r matches Some((_k, c)) && c@ == json_string(vstd::utf8::encode_utf8(t@)),
{
    let mut o: Vec<u8> = Vec::new();
    match v {
        ConfigValue::Integer(n) => {
            append_signed(&mut o, *n);
            Some(("integer", o))
        },
        ConfigValue::Float(r) => {
            let text = find_number(numbers, *r);
            append(&mut o, text.as_str().as_bytes());
            Some(("number", o))
        },
        ConfigValue::Boolean(b) => {
            if *b {
                append(&mut o, "true".as_bytes());
            } else {
                append(&mut o, "false".as_bytes());
            }
            Some(("boolean", o))
        },
        ConfigValue::Text(t) => {
            append_string(&mut o, t.as_str().as_bytes());
            Some(("text", o))
        },
        ConfigValue::Array(items) => {
            append(&mut o, "[".as_bytes());
            let ghost start = o@;
            let mut k: usize = 0;
            while k < items.len()
                invariant
                    k <= items@.len(),
                    config_covered(*v, numbers@),
                    *v == ConfigValue::Array(*items),
                    o@ == start + items_text(items@.subrange(0, k as int), numbers@),
                decreases items@.len() - k,
            {
                proof {
                    assert(items@.subrange(0, k + 1).drop_last() =~= items@.subrange(0, k as int));
                    assert(items@.subrange(0, k + 1).last() == items@[k as int]);
                    if k == 0 {
                        assert(items@.subrange(0, 1)[0] == items@[0]);
                    }
                }
                if k > 0 {
                    append(&mut o, ",".as_bytes());
                }
                push_item(&mut o, &items[k], numbers);
                proof {
                    assert(o@ =~= start + items_text(items@.subrange(0, k + 1), numbers@));
                }
                k += 1;
            }
            proof {
                assert(items@.subrange(0, k as int) =~= items@);
            }
            append(&mut o, "]".as_bytes());
            proof {
                assert(o@ =~= "[".spec_bytes() + items_text(items@, numbers@) + "]".spec_bytes());
            }
            Some(("number_array", o))
        },
        ConfigValue::Other(_) => None,
    }
}

/// Records of one component: its period, then its configuration entries.
fn push_component(out: &mut Vec<Vec<u8>>, c: &ManagedComponentDto, numbers: &Vec<NumberText>, revision: &Vec<u8>)
    requires
        component_covered(*c, numbers@),
    ensures
        record_views(final(out)@) == record_views(old(out)@) + component_records(*c, numbers@, revision@),
{
    let owner = owner_bytes("component".as_bytes(), c.id);
    let period = decimal_bytes(c.period_ms);
    let mut ms_text: Vec<u8> = Vec::new();
    append_unit(&mut ms_text, &Some(ms()));
    let mut null: Vec<u8> = Vec::new();
    append(&mut null, "null".as_bytes());
    let mut period_range: Vec<u8> = Vec::new();
    append(&mut period_range, "{\"maximum\":60000,\"minimum\":1}".as_bytes());
    let first = property_bytes(&owner, "period_ms".as_bytes(), "integer".as_bytes(), &period, &ms_text,
        "deployment_only".as_bytes(), "reinitialize".as_bytes(), &period_range, revision);
    let ghost start = out@;
    out.push(first);
    let metadata = component_property_metadata(c.implementation.as_str());
    let window_registered = metadata.len() == 1;
    proof {
        assert(window_registered == (c.implementation@ == MOVING_MEAN_IMPLEMENTATION@));
    }
    let mut k: usize = 0;
    while k < c.config.len()
        invariant
            k <= c.config@.len(),
            component_covered(*c, numbers@),
            owner@ == owner_text("component".spec_bytes(), c.id),
            ms_text@ == unit_json(Some(ms_unit())),
            null@ == "null".spec_bytes(),
            window_registered == (c.implementation@ == MOVING_MEAN_IMPLEMENTATION@),
            record_views(out@) == record_views(start) + seq![first@] + config_records(
                *c,
                c.config@.subrange(0, k as int),
                numbers@,
                revision@,
            ),
        decreases c.config@.len() - k,
    {
        let entry = &c.config[k];
        proof {
            assert(c.config@.subrange(0, k + 1).drop_last() =~= c.config@.subrange(0, k as int));
            assert(c.config@.subrange(0, k + 1).last() == *entry);
            assert(config_covered(entry.value, numbers@));
        }
        let ghost prev = out@;
        match config_value_bytes(&entry.value, numbers) {
            None => {
                proof {
                    assert(config_record(*c, *entry, numbers@, revision@) is None);
                }
            },
            Some((inferred, current)) => {
                let key = entry.key.as_str();
                let window = window_registered && key_is(key, "window");
                let unit = if key_is(key, "poll_period_ms") || key_is(key, "period_ms") {
                    &ms_text
                } else {
                    &null
                };
                let mut range: Vec<u8> = Vec::new();
                if window {
                    append(&mut range, "{\"maximum\":64,\"minimum\":2}".as_bytes());
                } else {
                    append(&mut range, "null".as_bytes());
                }
                let kind = if window { "integer" } else { inferred };
                let record = property_bytes(&owner, key.as_bytes(), kind.as_bytes(), &current, unit,
                    "deployment_only".as_bytes(), "reinitialize".as_bytes(), &range, revision);
                proof {
                    assert(window == registered_window(*c, *entry));
                    assert(unit@ == unit_by_name(entry.key@));
                    assert(key.spec_bytes() == vstd::utf8::encode_utf8(entry.key@));
                    assert(config_record(*c, *entry, numbers@, revision@) == Some(record@));
                    lemma_views_push(prev, record);
                }
                out.push(record);
            },
        }
        proof {
            assert(record_views(out@) =~= record_views(start) + seq![first@] + config_records(
                *c,
                c.config@.subrange(0, k + 1),
                numbers@,
                revision@,
            ));
        }
        k += 1;
    }
    proof {
        assert(c.config@.subrange(0, k as int) =~= c.config@);
        assert(record_views(out@) =~= record_views(start) + component_records(*c, numbers@, revision@));
    }
}

/// Whether a text is exactly the given name.
fn key_is(key: &str, name: &str) -> (r: bool)
    ensures
        r == (key@ == name@),
{
    let a = key.to_owned();
    let b = name.to_owned();
    a == b
}

/// Every property record of a deployment at `revision`, in byte order: each
/// resource's port and baud rate, each instrument's described properties and each
/// managed component's period and configuration entries. Binary64 values appear as
/// the texts `numbers` gives for their bit patterns. A deployment with more than
/// `PROPERTY_RECORD_LIMIT` records is refused.
pub fn deployment_property_records(dto: &DeploymentDto, numbers: &Vec<NumberText>, revision: u64) -> (r: Result<
    Vec<Vec<u8>>,
    PropertyError,
>)
    requires
        numbers_cover(*dto, numbers@),
    ensures
        r is Err <==> deployment_properties(*dto, numbers@, revision).len() > PROPERTY_RECORD_LIMIT,
        r is Err ==> r == Err::<Vec<Vec<u8>>, PropertyError>(PropertyError::ConfigurationCapacity),
        r matches Ok(records) ==> {
            &&& in_byte_order(record_views(records@))
            &&& record_views(records@).to_multiset() == deployment_properties(*dto, numbers@, revision).to_multiset()
        },
{
    broadcast use vstd::seq_lib::group_to_multiset_ensures;

    let rev = decimal_bytes(revision);
    let mut all: Vec<Vec<u8>> = Vec::new();
    let mut i: usize = 0;
    while i < dto.resources.len()
        invariant
            i <= dto.resources@.len(),
            rev@ == decimal(revision as nat),
            record_views(all@) == resources_records(dto.resources@.subrange(0, i as int), rev@),
        decreases dto.resources@.len() - i,
    {
        proof {
            assert(dto.resources@.subrange(0, i + 1).drop_last() =~= dto.resources@.subrange(0, i as int));
        }
        push_resource(&mut all, &dto.resources[i], &rev);
        i += 1;
    }
    proof {
        assert(dto.resources@.subrange(0, i as int) =~= dto.resources@);
    }
    let ghost after_resources = record_views(all@);
    let mut j: usize = 0;
    while j < dto.instruments.len()
        invariant
            j <= dto.instruments@.len(),
            rev@ == decimal(revision as nat),
            numbers_cover(*dto, numbers@),
            after_resources == resources_records(dto.resources@, rev@),
            record_views(all@) == after_resources + instruments_records(dto.instruments@.subrange(0, j as int), numbers@, rev@),
        decreases dto.instruments@.len() - j,
    {
        proof {
            assert(dto.instruments@.subrange(0, j + 1).drop_last() =~= dto.instruments@.subrange(0, j as int));
            assert(instrument_covered(dto.instruments@[j as int], numbers@));
        }
        let ghost before = record_views(all@);
        push_instrument(&mut all, &dto.instruments[j], numbers, &rev);
        proof {
            assert(record_views(all@) =~= after_resources + instruments_records(dto.instruments@.subrange(0, j + 1), numbers@, rev@));
        }
        j += 1;
    }
    proof {
        assert(dto.instruments@.subrange(0, j as int) =~= dto.instruments@);
    }
    let ghost after_instruments = record_views(all@);
    let mut k: usize = 0;
    while k < dto.managed_components.len()
        invariant
            k <= dto.managed_components@.len(),
            rev@ == decimal(revision as nat),
            numbers_cover(*dto, numbers@),
            after_instruments == resources_records(dto.resources@, rev@) + instruments_records(dto.instruments@, numbers@, rev@),
            record_views(all@) == after_instruments + components_records(
                dto.managed_components@.subrange(0, k as int),
                numbers@,
                rev@,
            ),
        decreases dto.managed_components@.len() - k,
    {
        proof {
            assert(dto.managed_components@.subrange(0, k + 1).drop_last() =~= dto.managed_components@.subrange(0, k as int));
            assert(component_covered(dto.managed_components@[k as int], numbers@));
        }
        push_component(&mut all, &dto.managed_components[k], numbers, &rev);
        proof {
            assert(record_views(all@) =~= after_instruments + components_records(
                dto.managed_components@.subrange(0, k + 1),
                numbers@,
                rev@,
            ));
        }
        k += 1;
    }
    proof {
        assert(dto.managed_components@.subrange(0, k as int) =~= dto.managed_components@);
        assert(record_views(all@) == deployment_properties(*dto, numbers@, revision));
    }
    if all.len() > PROPERTY_RECORD_LIMIT {
        return Err(PropertyError::ConfigurationCapacity);
    }
    let ghost unsorted = record_views(all@);
    let mut sorted: Vec<Vec<u8>> = Vec::new();
    let mut rest = all;
    proof {
        assert(record_views(sorted@) =~= Seq::<Seq<u8>>::empty());
        assert(record_views(rest@) == unsorted);
    }
    while rest.len() > 0
        invariant
            in_byte_order(record_views(sorted@)),
            record_views(sorted@).to_multiset().add(record_views(rest@).to_multiset()) == unsorted.to_multiset(),
        decreases rest@.len(),
    {
        let ghost before = rest@;
        let x = rest.pop().unwrap();
        proof {
            assert(before =~= rest@.push(x));
            assert(record_views(before) =~= record_views(rest@).push(x@));
        }
        let ghost xv = x@;
        proof {
            vstd::seq_lib::to_multiset_build(record_views(rest@), xv);
            assert(record_views(before).to_multiset() =~= record_views(rest@).to_multiset().insert(xv));
        }
        insert_in_order(&mut sorted, x);
        proof {
            assert(record_views(sorted@).to_multiset().add(record_views(rest@).to_multiset())
                =~= unsorted.to_multiset());
        }
    }
    proof {
        assert(record_views(rest@) =~= Seq::<Seq<u8>>::empty());
        assert(record_views(sorted@).to_multiset() =~= unsorted.to_multiset());
    }
    Ok(sorted)
}

/// The current value of a text configuration entry is the JSON string literal of
/// its UTF-8 text, as for every other text property: a quote, the escaped text and
/// a quote, under the type name `text`.
pub proof fn law_text_configuration_is_json_string(t: String, numbers: Seq<NumberText>)
    ensures
        config_value_text(ConfigValue::Text(t), numbers) == Some(("text".spec_bytes(), json_string(vstd::utf8::encode_utf8(t@)))),
        ({
            let current = config_value_text(ConfigValue::Text(t), numbers)->Some_0.1;
            &&& current.len() >= 2
            &&& current[0] == 34u8
            &&& current.last() == 34u8
        }),
{
    let current = json_string(vstd::utf8::encode_utf8(t@));
    assert(current[0] == 34u8);
    assert(current.last() == 34u8);
}

} // verus!
