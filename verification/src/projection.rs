//! Generic projection of instrument configuration properties into JSON property
//! records.
//!
//! Every instrument kind describes its properties as neutral metadata; one
//! projection renders all of them, so a new kind needs no new wire handler. A
//! record is produced as the exact bytes of one compact JSON object.
use crate::text::{decimal, decimal_bytes, hex, hex_bytes, hex_digit};
use vstd::prelude::*;
use vstd::string::*;

verus! {

/// Language-neutral scalar type of a property.
#[derive(Clone, Copy, Debug, PartialEq, Eq, Structural)]
pub enum InstrumentPropertyType {
    /// Text.
    Text,
    /// Integer.
    Integer,
    /// Number.
    Number,
    /// Boolean.
    Boolean,
}

/// Current value of a property.
#[derive(Clone, Debug, PartialEq, Eq)]
pub enum InstrumentPropertyValue {
    /// A non-negative integer.
    Unsigned(u64),
    /// A signed integer.
    Signed(i64),
    /// A flag.
    Boolean(bool),
    /// A text.
    Text(String),
    /// A binary64 value, as its JSON number text.
    Number(String),
}

/// Unit of a property.
#[derive(Clone, Copy, Debug, PartialEq, Eq)]
pub struct InstrumentPropertyUnit<'a> {
    /// Stable unit identity.
    pub id: &'a str,
    /// Display symbol.
    pub symbol: &'a str,
}

/// Who may change a property and how.
#[derive(Clone, Copy, Debug, PartialEq, Eq, Structural)]
pub enum InstrumentPropertyAccess {
    /// Never changed at run time.
    ReadOnly,
    /// Changeable through the configuration API.
    ReadWrite,
    /// Changed only through the deployment file.
    DeploymentOnly,
}

/// Runtime lifecycle class of a change.
#[derive(Clone, Copy, Debug, PartialEq, Eq, Structural)]
pub enum InstrumentPropertyMutation {
    /// Applies live with no effect on acquisition.
    LiveSafe,
    /// Applies live at the next acquisition boundary.
    OrdinaryLive,
    /// The owner must reinitialize.
    Reinitialize,
    /// The physical binding must be replaced.
    RebindRequired,
}

/// Admitted range of a property.
#[derive(Clone, Copy, Debug, PartialEq, Eq)]
pub enum InstrumentPropertyConstraints {
    /// Inclusive integer range.
    Integer {
        /// Inclusive minimum.
        minimum: i64,
        /// Inclusive maximum.
        maximum: i64,
    },
    /// Inclusive binary64 range, each bound as its JSON number text.
    Number {
        /// Inclusive minimum.
        minimum: &'static str,
        /// Inclusive maximum.
        maximum: &'static str,
    },
}

/// Neutral description of one instrument property.
#[derive(Clone, Debug, PartialEq, Eq)]
pub struct InstrumentPropertyMetadata<'a> {
    /// Stable property identity within the instrument.
    pub id: &'a str,
    /// Scalar type.
    pub value_type: InstrumentPropertyType,
    /// Current value.
    pub current: InstrumentPropertyValue,
    /// Unit, when the property has one.
    pub unit: Option<InstrumentPropertyUnit<'a>>,
    /// Access policy.
    pub access: InstrumentPropertyAccess,
    /// Lifecycle class of a change.
    pub mutation: InstrumentPropertyMutation,
    /// Admitted range, when constrained.
    pub constraints: Option<InstrumentPropertyConstraints>,
}

/// An instrument kind that describes its configuration properties.
///
/// `spec_instrument_id` and `spec_properties` are what the two methods answer; an
/// implementation answers the same each time it is asked.
pub trait InstrumentPropertySource {
    /// The instrument identity this source describes.
    spec fn spec_instrument_id(&self) -> u64;

    /// The properties this source describes, in presentation order.
    spec fn spec_properties(&self) -> Vec<InstrumentPropertyMetadata<'_>>;

    /// Stable instrument identity.
    fn instrument_id(&self) -> (id: u64)
        ensures
            id == self.spec_instrument_id(),
    ;

    /// Every property, in presentation order.
    fn property_metadata(&self) -> (properties: Vec<InstrumentPropertyMetadata<'_>>)
        ensures
            properties@ == self.spec_properties()@,
    ;
}

// ---------------------------------------------------------------------------
// JSON text model.

/// JSON escape of one byte of UTF-8 text: quote, backslash and control characters
/// are escaped (short forms where JSON has one, else `\u00XX` in lowercase hex);
/// every other byte stands for itself.
pub open spec fn escape_byte(b: u8) -> Seq<u8> {
    if b == 34 {
        seq![92u8, 34u8]
    } else if b == 92 {
        seq![92u8, 92u8]
    } else if b == 8 {
        seq![92u8, 98u8]
    } else if b == 12 {
        seq![92u8, 102u8]
    } else if b == 10 {
        seq![92u8, 110u8]
    } else if b == 13 {
        seq![92u8, 114u8]
    } else if b == 9 {
        seq![92u8, 116u8]
    } else if b < 32 {
        seq![92u8, 117u8, 48u8, 48u8, hex_digit(b / 16), hex_digit(b % 16)]
    } else {
        seq![b]
    }
}

/// JSON escape of UTF-8 text.
pub open spec fn escaped(bytes: Seq<u8>) -> Seq<u8>
    decreases bytes.len(),
{
    if bytes.len() == 0 {
        Seq::empty()
    } else {
        escaped(bytes.drop_last()) + escape_byte(bytes.last())
    }
}

/// JSON string literal of UTF-8 text.
pub open spec fn json_string(bytes: Seq<u8>) -> Seq<u8> {
    seq![34u8] + escaped(bytes) + seq![34u8]
}

/// JSON number of a signed integer.
pub open spec fn signed_json(v: i64) -> Seq<u8> {
    if v < 0 {
        seq![45u8] + decimal((-v) as nat)
    } else {
        decimal(v as nat)
    }
}

/// Wire name of a scalar type.
pub open spec fn value_type_name(t: InstrumentPropertyType) -> Seq<u8> {
    match t {
        InstrumentPropertyType::Text => "text".spec_bytes(),
        InstrumentPropertyType::Integer => "integer".spec_bytes(),
        InstrumentPropertyType::Number => "number".spec_bytes(),
        InstrumentPropertyType::Boolean => "boolean".spec_bytes(),
    }
}

/// Wire name of an access policy.
pub open spec fn access_name(a: InstrumentPropertyAccess) -> Seq<u8> {
    match a {
        InstrumentPropertyAccess::ReadOnly => "read_only".spec_bytes(),
        InstrumentPropertyAccess::ReadWrite => "read_write".spec_bytes(),
        InstrumentPropertyAccess::DeploymentOnly => "deployment_only".spec_bytes(),
    }
}

/// Wire name of a lifecycle class.
pub open spec fn mutation_name(m: InstrumentPropertyMutation) -> Seq<u8> {
    match m {
        InstrumentPropertyMutation::LiveSafe => "live_safe".spec_bytes(),
        InstrumentPropertyMutation::OrdinaryLive => "ordinary_live".spec_bytes(),
        InstrumentPropertyMutation::Reinitialize => "reinitialize".spec_bytes(),
        InstrumentPropertyMutation::RebindRequired => "rebind_required".spec_bytes(),
    }
}

/// JSON of a current value.
pub open spec fn value_json(v: InstrumentPropertyValue) -> Seq<u8> {
    match v {
        InstrumentPropertyValue::Unsigned(n) => decimal(n as nat),
        InstrumentPropertyValue::Signed(n) => signed_json(n),
        InstrumentPropertyValue::Boolean(b) => if b {
            "true".spec_bytes()
        } else {
            "false".spec_bytes()
        },
        InstrumentPropertyValue::Text(s) => json_string(vstd::utf8::encode_utf8(s@)),
        InstrumentPropertyValue::Number(s) => vstd::utf8::encode_utf8(s@),
    }
}

/// JSON of a unit, `null` when absent.
pub open spec fn unit_json(u: Option<InstrumentPropertyUnit>) -> Seq<u8> {
    match u {
        None => "null".spec_bytes(),
        Some(u) => "{\"id\":".spec_bytes() + json_string(u.id.spec_bytes()) + ",\"symbol\":".spec_bytes()
            + json_string(u.symbol.spec_bytes()) + "}".spec_bytes(),
    }
}

/// JSON of a range, `null` when absent.
pub open spec fn constraints_json(c: Option<InstrumentPropertyConstraints>) -> Seq<u8> {
    match c {
        None => "null".spec_bytes(),
        Some(InstrumentPropertyConstraints::Integer { minimum, maximum }) => "{\"minimum\":".spec_bytes()
            + signed_json(minimum) + ",\"maximum\":".spec_bytes() + signed_json(maximum) + "}".spec_bytes(),
        Some(InstrumentPropertyConstraints::Number { minimum, maximum }) => "{\"minimum\":".spec_bytes()
            + minimum.spec_bytes() + ",\"maximum\":".spec_bytes() + maximum.spec_bytes() + "}".spec_bytes(),
    }
}

/// JSON of the owning instrument: its kind and its identity as decimal text.
pub open spec fn owner_json(instrument: u64) -> Seq<u8> {
    "{\"kind\":\"instrument\",\"id\":\"".spec_bytes() + decimal(instrument as nat) + "\"}".spec_bytes()
}

/// The property record of one property of `instrument` at configuration
/// `revision`.
pub open spec fn record_json(instrument: u64, m: InstrumentPropertyMetadata, revision: Seq<u8>) -> Seq<u8> {
    let owner = owner_json(instrument);
    let property = json_string(m.id.spec_bytes());
    "{\"kind\":\"property\",\"id\":{\"owner\":".spec_bytes() + owner + ",\"property\":".spec_bytes()
        + property + "},\"owner\":".spec_bytes() + owner + ",\"property\":".spec_bytes() + property
        + ",\"value_type\":".spec_bytes() + json_string(value_type_name(m.value_type))
        + ",\"current\":".spec_bytes() + value_json(m.current) + ",\"unit\":".spec_bytes() + unit_json(
        m.unit,
    ) + ",\"access\":".spec_bytes() + json_string(access_name(m.access))
        + ",\"mutation_class\":".spec_bytes() + json_string(mutation_name(m.mutation))
        + ",\"constraints\":".spec_bytes() + constraints_json(m.constraints)
        + ",\"revision\":".spec_bytes() + json_string(revision) + "}".spec_bytes()
}

// ---------------------------------------------------------------------------
// Rendering.

pub(crate) fn append(out: &mut Vec<u8>, piece: &[u8])
    ensures
        final(out)@ == old(out)@ + piece@,
{
    let mut i: usize = 0;
    while i < piece.len()
        invariant
            i <= piece@.len(),
            out@ == old(out)@ + piece@.subrange(0, i as int),
        decreases piece@.len() - i,
    {
        out.push(piece[i]);
        proof {
            assert(out@ =~= old(out)@ + piece@.subrange(0, i + 1));
        }
        i += 1;
    }
    proof {
        assert(piece@.subrange(0, piece@.len() as int) =~= piece@);
    }
}

fn nibble(v: u8) -> (d: u8)
    requires
        v < 16,
    ensures
        d == hex_digit(v),
{
    if v < 10 {
        48 + v
    } else {
        87 + v
    }
}

/// Append the JSON escape of UTF-8 text.
fn append_escaped(out: &mut Vec<u8>, text: &[u8])
    ensures
        final(out)@ == old(out)@ + escaped(text@),
{
    let mut i: usize = 0;
    while i < text.len()
        invariant
            i <= text@.len(),
            out@ == old(out)@ + escaped(text@.subrange(0, i as int)),
        decreases text@.len() - i,
    {
        let b = text[i];
        let ghost before = out@;
        if b == 34 {
            out.push(92);
            out.push(34);
        } else if b == 92 {
            out.push(92);
            out.push(92);
        } else if b == 8 {
            out.push(92);
            out.push(98);
        } else if b == 12 {
            out.push(92);
            out.push(102);
        } else if b == 10 {
            out.push(92);
            out.push(110);
        } else if b == 13 {
            out.push(92);
            out.push(114);
        } else if b == 9 {
            out.push(92);
            out.push(116);
        } else if b < 32 {
            out.push(92);
            out.push(117);
            out.push(48);
            out.push(48);
            out.push(nibble(b / 16));
            out.push(nibble(b % 16));
        } else {
            out.push(b);
        }
        proof {
            assert(out@ =~= before + escape_byte(b));
            assert(text@.subrange(0, i + 1).drop_last() =~= text@.subrange(0, i as int));
            assert(text@.subrange(0, i + 1).last() == b);
        }
        i += 1;
    }
    proof {
        assert(text@.subrange(0, text@.len() as int) =~= text@);
    }
}

/// Append a JSON string literal of UTF-8 text.
pub(crate) fn append_string(out: &mut Vec<u8>, text: &[u8])
    ensures
        final(out)@ == old(out)@ + json_string(text@),
{
    let ghost start = out@;
    out.push(34);
    append_escaped(out, text);
    out.push(34);
    proof {
        assert(out@ =~= start + json_string(text@));
    }
}

/// Append a signed integer.
pub(crate) fn append_signed(out: &mut Vec<u8>, v: i64)
    ensures
        final(out)@ == old(out)@ + signed_json(v),
{
    if v < 0 {
        let magnitude: u64 = (0i128 - v as i128) as u64;
        let ghost start = out@;
        out.push(45);
        let digits = decimal_bytes(magnitude);
        append(out, digits.as_slice());
        proof {
            assert(out@ =~= start + signed_json(v));
        }
    } else {
        let digits = decimal_bytes(v as u64);
        append(out, digits.as_slice());
    }
}

pub(crate) fn type_text(t: InstrumentPropertyType) -> (s: &'static str)
    ensures
        s.spec_bytes() == value_type_name(t),
{
    match t {
        InstrumentPropertyType::Text => "text",
        InstrumentPropertyType::Integer => "integer",
        InstrumentPropertyType::Number => "number",
        InstrumentPropertyType::Boolean => "boolean",
    }
}

pub(crate) fn access_text(a: InstrumentPropertyAccess) -> (s: &'static str)
    ensures
        s.spec_bytes() == access_name(a),
{
    match a {
        InstrumentPropertyAccess::ReadOnly => "read_only",
        InstrumentPropertyAccess::ReadWrite => "read_write",
        InstrumentPropertyAccess::DeploymentOnly => "deployment_only",
    }
}

pub(crate) fn mutation_text(m: InstrumentPropertyMutation) -> (s: &'static str)
    ensures
        s.spec_bytes() == mutation_name(m),
{
    match m {
        InstrumentPropertyMutation::LiveSafe => "live_safe",
        InstrumentPropertyMutation::OrdinaryLive => "ordinary_live",
        InstrumentPropertyMutation::Reinitialize => "reinitialize",
        InstrumentPropertyMutation::RebindRequired => "rebind_required",
    }
}

pub(crate) fn append_value(out: &mut Vec<u8>, v: &InstrumentPropertyValue)
    ensures
        final(out)@ == old(out)@ + value_json(*v),
{
    match v {
        InstrumentPropertyValue::Unsigned(n) => {
            let digits = decimal_bytes(*n);
            append(out, digits.as_slice());
        },
        InstrumentPropertyValue::Signed(n) => append_signed(out, *n),
        InstrumentPropertyValue::Boolean(b) => {
            if *b {
                append(out, "true".as_bytes());
            } else {
                append(out, "false".as_bytes());
            }
        },
        InstrumentPropertyValue::Text(s) => append_string(out, s.as_str().as_bytes()),
        InstrumentPropertyValue::Number(s) => append(out, s.as_str().as_bytes()),
    }
}

pub(crate) fn append_unit(out: &mut Vec<u8>, u: &Option<InstrumentPropertyUnit>)
    ensures
        final(out)@ == old(out)@ + unit_json(*u),
{
    match u {
        None => append(out, "null".as_bytes()),
        Some(unit) => {
            let ghost start = out@;
            append(out, "{\"id\":".as_bytes());
            append_string(out, unit.id.as_bytes());
            append(out, ",\"symbol\":".as_bytes());
            append_string(out, unit.symbol.as_bytes());
            append(out, "}".as_bytes());
            proof {
                assert(out@ =~= start + unit_json(*u));
            }
        },
    }
}

fn append_constraints(out: &mut Vec<u8>, c: &Option<InstrumentPropertyConstraints>)
    ensures
        final(out)@ == old(out)@ + constraints_json(*c),
{
    match c {
        None => append(out, "null".as_bytes()),
        Some(InstrumentPropertyConstraints::Integer { minimum, maximum }) => {
            let ghost start = out@;
            append(out, "{\"minimum\":".as_bytes());
            append_signed(out, *minimum);
            append(out, ",\"maximum\":".as_bytes());
            append_signed(out, *maximum);
            append(out, "}".as_bytes());
            proof {
                assert(out@ =~= start + constraints_json(*c));
            }
        },
        Some(InstrumentPropertyConstraints::Number { minimum, maximum }) => {
            let ghost start = out@;
            append(out, "{\"minimum\":".as_bytes());
            append(out, minimum.as_bytes());
            append(out, ",\"maximum\":".as_bytes());
            append(out, maximum.as_bytes());
            append(out, "}".as_bytes());
            proof {
                assert(out@ =~= start + constraints_json(*c));
            }
        },
    }
}

/// Render one property record.
pub fn property_record(instrument: u64, m: &InstrumentPropertyMetadata, revision: &str) -> (record: Vec<u8>)
    ensures
        record@ == record_json(instrument, *m, revision.spec_bytes()),
{
    let mut owner: Vec<u8> = Vec::new();
    append(&mut owner, "{\"kind\":\"instrument\",\"id\":\"".as_bytes());
    let digits = decimal_bytes(instrument);
    append(&mut owner, digits.as_slice());
    append(&mut owner, "\"}".as_bytes());
    proof {
        assert(owner@ =~= owner_json(instrument));
    }
    let mut out: Vec<u8> = Vec::new();
    append(&mut out, "{\"kind\":\"property\",\"id\":{\"owner\":".as_bytes());
    append(&mut out, owner.as_slice());
    append(&mut out, ",\"property\":".as_bytes());
    append_string(&mut out, m.id.as_bytes());
    append(&mut out, "},\"owner\":".as_bytes());
    append(&mut out, owner.as_slice());
    append(&mut out, ",\"property\":".as_bytes());
    append_string(&mut out, m.id.as_bytes());
    append(&mut out, ",\"value_type\":".as_bytes());
    append_string(&mut out, type_text(m.value_type).as_bytes());
    append(&mut out, ",\"current\":".as_bytes());
    append_value(&mut out, &m.current);
    append(&mut out, ",\"unit\":".as_bytes());
    append_unit(&mut out, &m.unit);
    append(&mut out, ",\"access\":".as_bytes());
    append_string(&mut out, access_text(m.access).as_bytes());
    append(&mut out, ",\"mutation_class\":".as_bytes());
    append_string(&mut out, mutation_text(m.mutation).as_bytes());
    append(&mut out, ",\"constraints\":".as_bytes());
    append_constraints(&mut out, &m.constraints);
    append(&mut out, ",\"revision\":".as_bytes());
    append_string(&mut out, revision.as_bytes());
    append(&mut out, "}".as_bytes());
    proof {
        assert(out@ =~= record_json(instrument, *m, revision.spec_bytes()));
    }
    out
}

/// Append one record per property, in order.
pub fn project_properties(
    instrument: u64,
    properties: &Vec<InstrumentPropertyMetadata>,
    revision: &str,
    records: &mut Vec<Vec<u8>>,
)
    ensures
        final(records)@.len() == old(records)@.len() + properties@.len(),
        forall|i: int| 0 <= i < old(records)@.len() ==> final(records)@[i] == old(records)@[i],
        forall|i: int| 0 <= i < properties@.len() ==> (#[trigger] final(records)@[old(records)@.len() + i])@
            == record_json(instrument, properties@[i], revision.spec_bytes()),
{
    let ghost start = records@;
    let mut i: usize = 0;
    while i < properties.len()
        invariant
            i <= properties@.len(),
            records@.len() == start.len() + i,
            forall|j: int| 0 <= j < start.len() ==> records@[j] == start[j],
            forall|j: int| 0 <= j < i ==> (#[trigger] records@[start.len() + j])@ == record_json(
                instrument,
                properties@[j],
                revision.spec_bytes(),
            ),
        decreases properties@.len() - i,
    {
        let record = property_record(instrument, &properties[i], revision);
        records.push(record);
        i += 1;
    }
}

/// `after` is `before` followed by one record per property of `instrument`, in
/// order.
pub open spec fn appends_records(
    before: Seq<Vec<u8>>,
    after: Seq<Vec<u8>>,
    instrument: u64,
    properties: Seq<InstrumentPropertyMetadata>,
    revision: Seq<u8>,
) -> bool {
    &&& after.len() == before.len() + properties.len()
    &&& forall|i: int| 0 <= i < before.len() ==> after[i] == before[i]
    &&& forall|i: int| 0 <= i < properties.len() ==> (#[trigger] after[before.len() + i])@ == record_json(
        instrument,
        properties[i],
        revision,
    )
}

/// Project every property a source describes, owned by its instrument.
pub fn project_instrument_properties<S: InstrumentPropertySource>(
    source: &S,
    revision: &str,
    records: &mut Vec<Vec<u8>>,
)
    ensures
        final(records)@.len() >= old(records)@.len(),
        forall|i: int| 0 <= i < old(records)@.len() ==> final(records)@[i] == old(records)@[i],
        appends_records(
            old(records)@,
            final(records)@,
            source.spec_instrument_id(),
            source.spec_properties()@,
            revision.spec_bytes(),
        ),
{
    let instrument = source.instrument_id();
    let properties = source.property_metadata();
    project_properties(instrument, &properties, revision, records);
    proof {
        assert(appends_records(old(records)@, final(records)@, instrument, properties@, revision.spec_bytes()));
    }
}

/// Lowercase hexadecimal text of bytes, two digits per byte.
pub fn hex_text(bytes: &[u8]) -> (text: Vec<u8>)
    ensures
        text@ == hex(bytes@),
{
    hex_bytes(bytes)
}

/// A canonical 128-bit identity: exactly 32 lowercase hexadecimal digits.
pub open spec fn is_lower_hex_id(bytes: Seq<u8>) -> bool {
    &&& bytes.len() == 32
    &&& forall|i: int| 0 <= i < 32 ==> (48 <= #[trigger] bytes[i] <= 57 || 97 <= bytes[i] <= 102)
}

/// Whether a text is a canonical 128-bit identity.
pub fn lower_hex_id(value: &str) -> (r: bool)
    ensures
        r <==> is_lower_hex_id(value.spec_bytes()),
{
    let bytes = value.as_bytes();
    if bytes.len() != 32 {
        return false;
    }
    let mut i: usize = 0;
    while i < 32
        invariant
            bytes@ == value.spec_bytes(),
            bytes@.len() == 32,
            i <= 32,
            forall|j: int| 0 <= j < i ==> (48 <= #[trigger] bytes@[j] <= 57 || 97 <= bytes@[j] <= 102),
        decreases 32 - i,
    {
        let b = bytes[i];
        if !((48 <= b && b <= 57) || (97 <= b && b <= 102)) {
            return false;
        }
        i += 1;
    }
    true
}

} // verus!
