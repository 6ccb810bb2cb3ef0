use lab_runtime::projection::{
    hex_text, lower_hex_id, project_instrument_properties, project_properties, property_record,
    InstrumentPropertyAccess, InstrumentPropertyConstraints, InstrumentPropertyMetadata,
    InstrumentPropertyMutation, InstrumentPropertySource, InstrumentPropertyType,
    InstrumentPropertyUnit, InstrumentPropertyValue,
};
use lab_runtime::binary64::Real;
use lab_runtime::dto::{
    ConfigEntry, ConfigItem, ConfigValue, DeploymentDto, FlowControlDto, InstrumentDto,
    ManagedComponentDto, ParityDto, RecordingDto, RecordingPolicyDto, ResourceDto,
    ResourceKindDto, RuntimeDto, ServerDto,
};
use lab_runtime::properties::{
    deployment_property_records, InstrumentProperties, NumberText, PropertyError,
};
use serde_json::Value;

fn projected(source: &impl InstrumentPropertySource) -> Vec<Value> {
    let mut records = Vec::new();
    project_instrument_properties(source, "7", &mut records);
    records
        .iter()
        .map(|record| serde_json::from_slice(record).unwrap())
        .collect()
}

fn json(text: &str) -> Value {
    serde_json::from_str(text).unwrap()
}

struct ReferenceInstrumentProperties;

impl InstrumentPropertySource for ReferenceInstrumentProperties {
    fn spec_instrument_id(&self) -> u64 {
        self.instrument_id()
    }

    fn spec_properties(&self) -> Vec<InstrumentPropertyMetadata<'_>> {
        self.property_metadata()
    }

    fn instrument_id(&self) -> u64 {
        99
    }

    fn property_metadata(&self) -> Vec<InstrumentPropertyMetadata<'_>> {
        vec![InstrumentPropertyMetadata {
            id: "sample_period_ms",
            value_type: InstrumentPropertyType::Integer,
            current: InstrumentPropertyValue::Unsigned(20),
            unit: Some(InstrumentPropertyUnit {
                id: "ms",
                symbol: "ms",
            }),
            access: InstrumentPropertyAccess::ReadWrite,
            mutation: InstrumentPropertyMutation::OrdinaryLive,
            constraints: Some(InstrumentPropertyConstraints::Integer {
                minimum: 1,
                maximum: 1_000,
            }),
        }]
    }
}

#[test]
fn second_instrument_property_source_uses_generic_application_projection() {
    assert_eq!(
        projected(&ReferenceInstrumentProperties),
        vec![json(
            r#"{"kind":"property","id":{"owner":{"kind":"instrument","id":"99"},"property":"sample_period_ms"},"owner":{"kind":"instrument","id":"99"},"property":"sample_period_ms","value_type":"integer","current":20,"unit":{"id":"ms","symbol":"ms"},"access":"read_write","mutation_class":"ordinary_live","constraints":{"minimum":1,"maximum":1000},"revision":"7"}"#
        )]
    );
}

fn text_property(name: &str) -> InstrumentPropertyMetadata<'static> {
    InstrumentPropertyMetadata {
        id: "display_name",
        value_type: InstrumentPropertyType::Text,
        current: InstrumentPropertyValue::Text(name.to_owned()),
        unit: None,
        access: InstrumentPropertyAccess::ReadWrite,
        mutation: InstrumentPropertyMutation::LiveSafe,
        constraints: None,
    }
}

#[test]
fn text_property_record_is_exact_compact_json() {
    let record = property_record(41, &text_property("Virtual input"), "7");
    assert_eq!(
        String::from_utf8(record).unwrap(),
        r#"{"kind":"property","id":{"owner":{"kind":"instrument","id":"41"},"property":"display_name"},"owner":{"kind":"instrument","id":"41"},"property":"display_name","value_type":"text","current":"Virtual input","unit":null,"access":"read_write","mutation_class":"live_safe","constraints":null,"revision":"7"}"#
    );
}

#[test]
fn text_values_are_escaped_like_serde_json() {
    let name = "quote \" back \\ nl \n tab \t bell \u{7} degree \u{b0}";
    let record = property_record(1, &text_property(name), "r\"1");
    let value: Value = serde_json::from_slice(&record).unwrap();
    assert_eq!(value["current"], Value::String(name.to_owned()));
    assert_eq!(value["revision"], Value::String("r\"1".to_owned()));
    let expected = serde_json::to_string(name).unwrap();
    let text = String::from_utf8(record).unwrap();
    assert!(text.contains(&expected));
}

#[test]
fn signed_and_boolean_values_and_negative_constraints() {
    let metadata = InstrumentPropertyMetadata {
        id: "offset",
        value_type: InstrumentPropertyType::Integer,
        current: InstrumentPropertyValue::Signed(i64::MIN),
        unit: None,
        access: InstrumentPropertyAccess::DeploymentOnly,
        mutation: InstrumentPropertyMutation::Reinitialize,
        constraints: Some(InstrumentPropertyConstraints::Integer {
            minimum: -40,
            maximum: 0,
        }),
    };
    let value: Value = serde_json::from_slice(&property_record(5, &metadata, "2")).unwrap();
    assert_eq!(value["current"], json("-9223372036854775808"));
    assert_eq!(value["constraints"], json(r#"{"minimum":-40,"maximum":0}"#));
    assert_eq!(value["access"], json(r#""deployment_only""#));
    assert_eq!(value["mutation_class"], json(r#""reinitialize""#));

    let flag = InstrumentPropertyMetadata {
        id: "measurement_enabled",
        value_type: InstrumentPropertyType::Boolean,
        current: InstrumentPropertyValue::Boolean(false),
        unit: None,
        access: InstrumentPropertyAccess::ReadOnly,
        mutation: InstrumentPropertyMutation::RebindRequired,
        constraints: None,
    };
    let value: Value = serde_json::from_slice(&property_record(5, &flag, "2")).unwrap();
    assert_eq!(value["current"], Value::Bool(false));
    assert_eq!(value["value_type"], json(r#""boolean""#));
    assert_eq!(value["access"], json(r#""read_only""#));
    assert_eq!(value["mutation_class"], json(r#""rebind_required""#));
}

#[test]
fn projection_appends_in_order_and_keeps_earlier_records() {
    let mut records = vec![b"earlier".to_vec()];
    let properties = vec![text_property("a"), text_property("b")];
    project_properties(3, &properties, "9", &mut records);
    assert_eq!(records.len(), 3);
    assert_eq!(records[0], b"earlier".to_vec());
    let first: Value = serde_json::from_slice(&records[1]).unwrap();
    let second: Value = serde_json::from_slice(&records[2]).unwrap();
    assert_eq!(first["current"], json(r#""a""#));
    assert_eq!(second["current"], json(r#""b""#));
    assert_eq!(second["owner"], json(r#"{"kind":"instrument","id":"3"}"#));
}

#[test]
fn hex_and_identity_checks() {
    assert_eq!(hex_text(&[0x00, 0xab, 0x7f]), b"00ab7f".to_vec());
    assert!(lower_hex_id("0123456789abcdef0123456789abcdef"));
    assert!(!lower_hex_id("0123456789ABCDEF0123456789abcdef"));
    assert!(!lower_hex_id("0123456789abcdef"));
    assert!(!lower_hex_id("0123456789abcdeg0123456789abcdef"));
}

fn binary(value: f64) -> Real {
    Real::from_bits(value.to_bits())
}

fn number_texts(values: &[f64]) -> Vec<NumberText> {
    values
        .iter()
        .map(|value| NumberText { bits: value.to_bits(), text: serde_json::to_string(value).unwrap() })
        .collect()
}

#[test]
fn existing_instrument_property_contract_is_preserved_by_neutral_projection() {
    let virtual_measurement = InstrumentDto::VirtualMeasurement {
        id: 41,
        key: "virtual".into(),
        display_name: "Virtual input".into(),
        history_capacity: 16,
        base_temperature: binary(22.5),
        measurement_enabled: true,
        external_publication: false,
        poll_period_ms: 100,
    };
    let numbers = number_texts(&[22.5]);
    let source = InstrumentProperties::new(&virtual_measurement, &numbers).unwrap();
    assert_eq!(
        projected(&source),
        vec![
            json(r#"{"kind":"property","id":{"owner":{"kind":"instrument","id":"41"},"property":"display_name"},"owner":{"kind":"instrument","id":"41"},"property":"display_name","value_type":"text","current":"Virtual input","unit":null,"access":"read_write","mutation_class":"live_safe","constraints":null,"revision":"7"}"#),
            json(r#"{"kind":"property","id":{"owner":{"kind":"instrument","id":"41"},"property":"poll_period_ms"},"owner":{"kind":"instrument","id":"41"},"property":"poll_period_ms","value_type":"integer","current":100,"unit":{"id":"ms","symbol":"ms"},"access":"read_write","mutation_class":"ordinary_live","constraints":{"minimum":1,"maximum":60000},"revision":"7"}"#),
            json(r#"{"kind":"property","id":{"owner":{"kind":"instrument","id":"41"},"property":"base_temperature"},"owner":{"kind":"instrument","id":"41"},"property":"base_temperature","value_type":"number","current":22.5,"unit":null,"access":"deployment_only","mutation_class":"reinitialize","constraints":{"minimum":-100.0,"maximum":100.0},"revision":"7"}"#),
            json(r#"{"kind":"property","id":{"owner":{"kind":"instrument","id":"41"},"property":"measurement_enabled"},"owner":{"kind":"instrument","id":"41"},"property":"measurement_enabled","value_type":"boolean","current":true,"unit":null,"access":"deployment_only","mutation_class":"reinitialize","constraints":null,"revision":"7"}"#),
            json(r#"{"kind":"property","id":{"owner":{"kind":"instrument","id":"41"},"property":"external_publication"},"owner":{"kind":"instrument","id":"41"},"property":"external_publication","value_type":"boolean","current":false,"unit":null,"access":"read_only","mutation_class":"reinitialize","constraints":null,"revision":"7"}"#),
        ]
    );

    let thermal_plant = InstrumentDto::ThermalPlant {
        id: 42,
        key: "plant".into(),
        display_name: "Thermal plant".into(),
        history_capacity: 32,
        ambient_temperature: binary(21.0),
        initial_temperature: binary(23.0),
        gain_per_percent: binary(0.5),
        time_constant_ms: 8_000,
        poll_period_ms: 250,
    };
    let numbers = number_texts(&[21.0, 23.0, 0.5]);
    let source = InstrumentProperties::new(&thermal_plant, &numbers).unwrap();
    assert_eq!(
        projected(&source),
        vec![
            json(r#"{"kind":"property","id":{"owner":{"kind":"instrument","id":"42"},"property":"display_name"},"owner":{"kind":"instrument","id":"42"},"property":"display_name","value_type":"text","current":"Thermal plant","unit":null,"access":"read_write","mutation_class":"live_safe","constraints":null,"revision":"7"}"#),
            json(r#"{"kind":"property","id":{"owner":{"kind":"instrument","id":"42"},"property":"poll_period_ms"},"owner":{"kind":"instrument","id":"42"},"property":"poll_period_ms","value_type":"integer","current":250,"unit":{"id":"ms","symbol":"ms"},"access":"read_write","mutation_class":"ordinary_live","constraints":{"minimum":1,"maximum":60000},"revision":"7"}"#),
            json(r#"{"kind":"property","id":{"owner":{"kind":"instrument","id":"42"},"property":"ambient_temperature"},"owner":{"kind":"instrument","id":"42"},"property":"ambient_temperature","value_type":"number","current":21.0,"unit":{"id":"degC","symbol":"°C"},"access":"deployment_only","mutation_class":"reinitialize","constraints":null,"revision":"7"}"#),
            json(r#"{"kind":"property","id":{"owner":{"kind":"instrument","id":"42"},"property":"initial_temperature"},"owner":{"kind":"instrument","id":"42"},"property":"initial_temperature","value_type":"number","current":23.0,"unit":{"id":"degC","symbol":"°C"},"access":"deployment_only","mutation_class":"reinitialize","constraints":null,"revision":"7"}"#),
            json(r#"{"kind":"property","id":{"owner":{"kind":"instrument","id":"42"},"property":"gain_per_percent"},"owner":{"kind":"instrument","id":"42"},"property":"gain_per_percent","value_type":"number","current":0.5,"unit":null,"access":"deployment_only","mutation_class":"reinitialize","constraints":null,"revision":"7"}"#),
            json(r#"{"kind":"property","id":{"owner":{"kind":"instrument","id":"42"},"property":"time_constant_ms"},"owner":{"kind":"instrument","id":"42"},"property":"time_constant_ms","value_type":"number","current":8000,"unit":{"id":"ms","symbol":"ms"},"access":"deployment_only","mutation_class":"reinitialize","constraints":null,"revision":"7"}"#),
        ]
    );

    let metakon = InstrumentDto::Metakon {
        id: 43,
        key: "metakon".into(),
        definition: "metakon.json".into(),
        resource_id: 1,
        address: 2,
        poll_period_ms: 500,
        queue_timeout_ms: 100,
        transaction_timeout_ms: 100,
    };
    let numbers = Vec::new();
    let source = InstrumentProperties::new(&metakon, &numbers).unwrap();
    assert_eq!(
        projected(&source),
        vec![json(r#"{"kind":"property","id":{"owner":{"kind":"instrument","id":"43"},"property":"poll_period_ms"},"owner":{"kind":"instrument","id":"43"},"property":"poll_period_ms","value_type":"integer","current":500,"unit":{"id":"ms","symbol":"ms"},"access":"read_write","mutation_class":"ordinary_live","constraints":{"minimum":1,"maximum":60000},"revision":"7"}"#)]
    );
    assert!(InstrumentProperties::new(&thermal_plant, &number_texts(&[21.0])).is_none());
}

fn deployment(resources: Vec<ResourceDto>, components: Vec<ManagedComponentDto>) -> DeploymentDto {
    DeploymentDto {
        schema_version: 1,
        runtime: RuntimeDto { key: "lab".to_owned(), display_name: "Lab".to_owned() },
        server: ServerDto { host: "127.0.0.1".to_owned(), port: 4100 },
        recording: RecordingDto {
            enabled: false,
            path: String::new(),
            policy: RecordingPolicyDto::BestEffort,
        },
        resources,
        instruments: vec![InstrumentDto::Metakon {
            id: 7,
            key: "m".into(),
            definition: "m.json".into(),
            resource_id: 1,
            address: 1,
            poll_period_ms: 500,
            queue_timeout_ms: 100,
            transaction_timeout_ms: 100,
        }],
        managed_components: components,
        references: Vec::new(),
        controllers: Vec::new(),
        safe_profiles: Vec::new(),
    }
}

fn com(id: u64) -> ResourceDto {
    ResourceDto {
        id,
        key: format!("com{id}"),
        kind: ResourceKindDto::WindowsComReadOnly,
        port: format!("COM{id}"),
        baud_rate: 9600,
        data_bits: 8,
        parity: ParityDto::NoParity,
        stop_bits: 1,
        flow_control: FlowControlDto::NoFlowControl,
        read_timeout_ms: 100,
        write_timeout_ms: 100,
        open_timeout_ms: 1000,
        recovery_timeout_ms: 1000,
    }
}

fn text(record: &[u8]) -> String {
    String::from_utf8(record.to_vec()).unwrap()
}

#[test]
fn deployment_records_cover_every_owner_in_byte_order() {
    let component = ManagedComponentDto {
        id: 9,
        instrument_id: 20,
        key: "mean".to_owned(),
        display_name: "Mean".to_owned(),
        implementation: "native.moving_mean.v1".to_owned(),
        source: None,
        config: vec![
            ConfigEntry { key: "window".to_owned(), value: ConfigValue::Integer(4) },
            ConfigEntry { key: "gain".to_owned(), value: ConfigValue::Float(binary(1.5)) },
            ConfigEntry {
                key: "weights".to_owned(),
                value: ConfigValue::Array(vec![ConfigItem::Integer(1), ConfigItem::Float(binary(0.25))]),
            },
        ],
        input_instrument_id: Some(7),
        period_ms: 100,
    };
    let dto = deployment(vec![com(1)], vec![component]);
    let numbers = number_texts(&[1.5, 0.25]);
    let records = deployment_property_records(&dto, &numbers, 3).unwrap();
    assert_eq!(records.len(), 7);
    let texts: Vec<String> = records.iter().map(|r| text(r)).collect();
    let mut sorted = texts.clone();
    sorted.sort();
    assert_eq!(texts, sorted);
    assert!(texts.contains(&r#"{"access":"read_only","constraints":null,"current":"COM1","id":{"owner":{"id":"1","kind":"resource"},"property":"port"},"kind":"property","mutation_class":"rebind_required","owner":{"id":"1","kind":"resource"},"property":"port","revision":"3","unit":null,"value_type":"text"}"#.to_owned()));
    assert!(texts.contains(&r#"{"access":"deployment_only","constraints":{"maximum":64,"minimum":2},"current":4,"id":{"owner":{"id":"9","kind":"component"},"property":"window"},"kind":"property","mutation_class":"reinitialize","owner":{"id":"9","kind":"component"},"property":"window","revision":"3","unit":null,"value_type":"integer"}"#.to_owned()));
    assert!(texts.contains(&r#"{"access":"deployment_only","constraints":null,"current":[1,0.25],"id":{"owner":{"id":"9","kind":"component"},"property":"weights"},"kind":"property","mutation_class":"reinitialize","owner":{"id":"9","kind":"component"},"property":"weights","revision":"3","unit":null,"value_type":"number_array"}"#.to_owned()));
    assert!(texts.contains(&r#"{"access":"deployment_only","constraints":{"maximum":60000,"minimum":1},"current":100,"id":{"owner":{"id":"9","kind":"component"},"property":"period_ms"},"kind":"property","mutation_class":"reinitialize","owner":{"id":"9","kind":"component"},"property":"period_ms","revision":"3","unit":{"id":"ms","symbol":"ms"},"value_type":"integer"}"#.to_owned()));
    for record in &texts {
        let value: Value = serde_json::from_str(record).unwrap();
        assert_eq!(&value.to_string(), record);
    }
}

#[test]
fn deployment_records_are_capped() {
    let dto = deployment((1..=127).map(com).collect(), Vec::new());
    assert_eq!(deployment_property_records(&dto, &Vec::new(), 1).map(|r| r.len()), Ok(255));
    let mut larger = dto.clone();
    larger.resources.push(com(128));
    assert_eq!(
        deployment_property_records(&larger, &Vec::new(), 1),
        Err(PropertyError::ConfigurationCapacity)
    );
    assert_eq!(PropertyError::ConfigurationCapacity.code(), "configuration_capacity");
}
