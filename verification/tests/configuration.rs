use lab_runtime::canonical::canonical_order;
use lab_runtime::configuration::{
    admit_definition, admit_runtime_toml, admit_source, bounded_message, definition_text,
    ArtifactRead, freeze_deployment, normalize_port, prescan,
    resolve_artifact, traversal_free, validate_display_name, validate_history, validate_key,
    validate_nonzero, validate_period, validate_transaction_time, ArtifactKind, ArtifactReader,
    ConfigurationError, DefinitionDecoder, FrozenDeployment, PathPart,
};
use lab_runtime::definition::{
    DefinitionError, KnownOperation, ParameterAccess, ParameterRole, ParameterSafety, WriteEffect,
};
use lab_runtime::dto::{
    DeploymentDto, FlowControlDto, InstrumentDto, ParityDto, RecordingDto, RecordingPolicyDto,
    ResourceDto, ResourceKindDto, RuntimeDto, ServerDto,
};
use lab_runtime::validation::DomainFacts;
use sha2::{Digest, Sha256};
use std::path::PathBuf;

fn invalid(reason: &str) -> ConfigurationError {
    ConfigurationError::InvalidConfiguration(reason.to_owned())
}

fn minimal_dto() -> DeploymentDto {
    DeploymentDto {
        schema_version: 1,
        runtime: RuntimeDto {
            key: "lab".to_owned(),
            display_name: "Laboratory".to_owned(),
        },
        server: ServerDto {
            host: "127.0.0.1".to_owned(),
            port: 4100,
        },
        recording: RecordingDto {
            enabled: false,
            path: String::new(),
            policy: RecordingPolicyDto::BestEffort,
        },
        resources: Vec::new(),
        instruments: Vec::new(),
        managed_components: Vec::new(),
        references: Vec::new(),
        controllers: Vec::new(),
        safe_profiles: Vec::new(),
    }
}

fn no_facts() -> DomainFacts {
    DomainFacts {
        lua_implementation: "lua.script.v1".to_owned(),
        heater_power_parameter: 2,
        temperature_parameter: 1,
        celsius_unit: "degC".to_owned(),
        implementation_valid: Vec::new(),
        config_valid: Vec::new(),
        reference_unit_valid: Vec::new(),
    }
}

fn com_resource(id: u64, port: &str) -> ResourceDto {
    ResourceDto {
        id,
        key: format!("com{id}"),
        kind: ResourceKindDto::WindowsComReadOnly,
        port: port.to_owned(),
        baud_rate: 9600,
        data_bits: 8,
        parity: ParityDto::NoParity,
        stop_bits: 1,
        flow_control: FlowControlDto::NoFlowControl,
        read_timeout_ms: 100,
        write_timeout_ms: 100,
        open_timeout_ms: 1000,
        recovery_timeout_ms: 1000,
    }
}

fn metakon(id: u64, resource_id: u64, definition: &str) -> InstrumentDto {
    InstrumentDto::Metakon {
        id,
        key: format!("m{id}"),
        definition: definition.to_owned(),
        resource_id,
        address: 1,
        poll_period_ms: 1000,
        queue_timeout_ms: 1000,
        transaction_timeout_ms: 1000,
    }
}

struct FixedReader {
    bytes: Vec<u8>,
    reads: usize,
    log: Vec<ArtifactRead>,
}

impl ArtifactReader for FixedReader {
    fn spec_reads(&self) -> &Vec<ArtifactRead> {
        &self.log
    }

    fn read(&mut self, path: &PathBuf, maximum: usize) -> Result<Vec<u8>, ConfigurationError> {
        self.reads += 1;
        let result = if self.bytes.len() > maximum {
            Err(ConfigurationError::artifact("artifact exceeds limit"))
        } else {
            Ok(self.bytes.clone())
        };
        self.log.push(ArtifactRead { path: path.clone(), maximum, result: result.clone() });
        result
    }
}

struct FixedDecoder {
    parameters: Vec<ParameterSafety>,
}

impl DefinitionDecoder for FixedDecoder {
    fn decode(&mut self, _text: &str) -> Result<Vec<ParameterSafety>, DefinitionError> {
        Ok(self.parameters.clone())
    }
}

fn read_only_parameter() -> ParameterSafety {
    ParameterSafety {
        access: ParameterAccess::ReadOnly,
        role: ParameterRole::Measurement,
        write_effect: WriteEffect::NoEffect,
        operation: KnownOperation::Temperature,
    }
}

fn freeze(
    toml: &[u8],
    dto: DeploymentDto,
    reader: &mut FixedReader,
    decoder: &mut FixedDecoder,
) -> Result<FrozenDeployment, ConfigurationError> {
    freeze_deployment(toml, &PathBuf::from("/srv/lab"), dto, &no_facts(), reader, decoder)
}

#[test]
fn admission_rejects_size_bom_utf8_and_prescan_bounds() {
    assert_eq!(admit_runtime_toml(&vec![b' '; 65537]), Err(ConfigurationError::TooLarge));
    assert_eq!(admit_runtime_toml(&[0xef, 0xbb, 0xbf, b'a']), Err(ConfigurationError::InvalidUtf8));
    assert_eq!(admit_runtime_toml(&[b'a', 0xff]), Err(ConfigurationError::InvalidUtf8));
    assert_eq!(admit_runtime_toml(b"a = 1\n"), Ok("a = 1\n"));
    let deep = "x = [[[[[[[[[1]]]]]]]]]";
    assert_eq!(
        admit_runtime_toml(deep.as_bytes()),
        Err(ConfigurationError::SyntaxBound("nesting exceeds 8"))
    );
    let many = "a=1\n".repeat(4097);
    assert_eq!(
        admit_runtime_toml(many.as_bytes()),
        Err(ConfigurationError::SyntaxBound("value count exceeds 4096"))
    );
}

#[test]
fn prescan_ignores_brackets_and_equals_inside_strings() {
    assert_eq!(prescan("a = \"[[[[[[[[[[ = = \\\" [[[[\""), Ok(()));
    assert_eq!(prescan("a = '[[[[[[[[[[[[ = '"), Ok(()));
    assert_eq!(prescan("a = [[[[[[[[1]]]]]]]]"), Ok(()));
    assert_eq!(
        prescan("a = [[[[[[[[[1]]]]]]]]]"),
        Err(ConfigurationError::SyntaxBound("nesting exceeds 8"))
    );
}

#[test]
fn keys_names_and_ranges() {
    assert_eq!(validate_key("abc_1-2"), Ok(()));
    assert_eq!(validate_key("1abc"), Err(invalid("invalid logical key")));
    assert_eq!(validate_key(""), Err(invalid("invalid logical key")));
    assert_eq!(validate_key(&"a".repeat(65)), Err(invalid("invalid logical key")));
    assert_eq!(validate_key(&"a".repeat(64)), Ok(()));
    assert_eq!(validate_display_name(" Lab "), Ok(()));
    assert_eq!(validate_display_name(" \t "), Err(invalid("invalid display name")));
    assert_eq!(validate_display_name(&"x".repeat(129)), Err(invalid("invalid display name")));
    assert_eq!(validate_nonzero(0, "resource id"), Err(invalid("resource id must be nonzero")));
    assert_eq!(validate_nonzero(3, "resource id"), Ok(()));
    assert_eq!(validate_period(60000, "poll period"), Ok(()));
    assert_eq!(
        validate_period(60001, "poll period"),
        Err(invalid("poll period must be 1..=60000 ms"))
    );
    assert_eq!(
        validate_transaction_time(0, "queue timeout"),
        Err(invalid("queue timeout must be 1..=60000 ms"))
    );
    assert_eq!(validate_history(1024), Ok(()));
    assert_eq!(validate_history(0), Err(invalid("history capacity out of range")));
}

#[test]
fn com_ports_normalize() {
    assert_eq!(normalize_port(" com7 "), Ok("COM7".to_owned()));
    assert_eq!(normalize_port("COM007"), Ok("COM7".to_owned()));
    assert_eq!(normalize_port("COM0"), Err(invalid("invalid COM port")));
    assert_eq!(normalize_port("COM65536"), Err(invalid("invalid COM port")));
    assert_eq!(normalize_port("tty0"), Err(invalid("Windows port must be COM<number>")));
}

#[test]
fn messages_are_bounded_to_256_characters() {
    let long = "é".repeat(300);
    assert_eq!(bounded_message(&long).chars().count(), 256);
    assert_eq!(bounded_message("short"), "short");
    assert_eq!(
        ConfigurationError::artifact_text(&long),
        ConfigurationError::InvalidArtifact("é".repeat(256))
    );
}

#[test]
fn artifact_paths_reject_empty_and_parent_traversal() {
    let base = PathBuf::from("/srv/lab");
    assert_eq!(resolve_artifact(&base, ""), Err(invalid("empty artifact path")));
    assert_eq!(
        resolve_artifact(&base, "../secret.json"),
        Err(invalid("artifact path may not contain parent traversal"))
    );
    assert_eq!(resolve_artifact(&base, "defs/m.json"), Ok(PathBuf::from("/srv/lab/defs/m.json")));
    assert_eq!(resolve_artifact(&base, "/opt/m.json"), Ok(PathBuf::from("/opt/m.json")));
    assert!(traversal_free(&vec![PathPart::RootDir, PathPart::Normal]));
    assert!(!traversal_free(&vec![PathPart::Normal, PathPart::ParentDir]));
}

#[test]
fn minimal_deployment_freezes_exact_bytes() {
    let toml = b"schema_version = 1\n";
    let mut reader = FixedReader { bytes: Vec::new(), reads: 0, log: Vec::new() };
    let mut decoder = FixedDecoder { parameters: Vec::new() };
    let frozen = freeze(toml, minimal_dto(), &mut reader, &mut decoder).unwrap();
    assert_eq!(frozen.toml_bytes(), toml);
    let expected: [u8; 32] = Sha256::digest(toml).into();
    assert_eq!(frozen.toml_hash(), expected);
    assert!(frozen.artifacts().is_empty());
    assert_eq!(frozen.effective().runtime_key(), "lab");
    assert_eq!(frozen.effective().server_port(), 4100);
    assert!(!frozen.effective().recording_enabled());
    assert_eq!(frozen.effective().resource_count(), 0);
    let entries = frozen.provenance_entries();
    assert_eq!(entries.len(), 1);
    assert_eq!(entries[0], ("runtime_toml".to_owned(), "utf8".to_owned(), toml.to_vec()));
}

#[test]
fn structural_rejection_reads_nothing() {
    let mut dto = minimal_dto();
    dto.schema_version = 2;
    dto.resources.push(com_resource(1, "COM3"));
    dto.instruments.push(metakon(2, 1, "m.json"));
    let mut reader = FixedReader { bytes: b"{}".to_vec(), reads: 0, log: Vec::new() };
    let mut decoder = FixedDecoder { parameters: vec![read_only_parameter()] };
    assert_eq!(
        freeze(b"", dto, &mut reader, &mut decoder).unwrap_err(),
        invalid("unsupported schema_version")
    );
    assert_eq!(reader.reads, 0);

    let mut dto = minimal_dto();
    dto.server.host = "0.0.0.0".to_owned();
    assert_eq!(
        freeze(b"", dto, &mut reader, &mut decoder).unwrap_err(),
        invalid("server host must be 127.0.0.1")
    );
    let mut dto = minimal_dto();
    dto.recording.enabled = true;
    assert_eq!(
        freeze(b"", dto, &mut reader, &mut decoder).unwrap_err(),
        invalid("enabled recording requires path")
    );
    let mut dto = minimal_dto();
    dto.recording.policy = RecordingPolicyDto::Required;
    assert_eq!(
        freeze(b"", dto, &mut reader, &mut decoder).unwrap_err(),
        invalid("Required recording cannot be disabled")
    );
    let mut dto = minimal_dto();
    dto.resources.push(com_resource(1, "COM3"));
    dto.resources.push(com_resource(2, "com3"));
    assert_eq!(
        freeze(b"", dto, &mut reader, &mut decoder).unwrap_err(),
        invalid("duplicate COM binding")
    );
    let mut dto = minimal_dto();
    dto.instruments.push(metakon(2, 9, "m.json"));
    assert_eq!(
        freeze(b"", dto, &mut reader, &mut decoder).unwrap_err(),
        invalid("unknown resource reference")
    );
    assert_eq!(reader.reads, 0);
}

#[test]
fn physical_definition_is_frozen_and_must_be_read_only() {
    let mut dto = minimal_dto();
    dto.resources.push(com_resource(1, "COM3"));
    dto.instruments.push(metakon(2, 1, "m.json"));
    let definition = b"{\"profile\":\"metakon-5x3-v1\"}".to_vec();
    let mut reader = FixedReader { bytes: definition.clone(), reads: 0, log: Vec::new() };
    let mut decoder = FixedDecoder { parameters: vec![read_only_parameter()] };
    let frozen = freeze(b"toml", dto.clone(), &mut reader, &mut decoder).unwrap();
    assert_eq!(reader.reads, 1);
    assert_eq!(reader.log.len(), 1);
    assert_eq!(reader.log[0].maximum, 16384);
    assert_eq!(reader.log[0].path, PathBuf::from("/srv/lab/m.json"));
    assert_eq!(reader.log[0].result, Ok(definition.clone()));
    assert_eq!(frozen.artifacts().len(), 1);
    assert_eq!(frozen.artifacts()[0].kind(), ArtifactKind::InstrumentDefinition);
    assert_eq!(frozen.artifacts()[0].bytes(), definition.as_slice());
    let expected: [u8; 32] = Sha256::digest(&definition).into();
    assert_eq!(frozen.artifacts()[0].hash(), expected);
    assert_eq!(frozen.artifact_bytes("m.json"), Some(definition.as_slice()));
    assert_eq!(frozen.artifact_bytes(""), None);
    let entries = frozen.provenance_entries();
    assert_eq!(entries[1].0, "instrument_definition");

    let mut writable = read_only_parameter();
    writable.access = ParameterAccess::ReadWrite;
    let mut decoder = FixedDecoder { parameters: vec![writable] };
    assert_eq!(
        freeze(b"toml", dto.clone(), &mut reader, &mut decoder).unwrap_err(),
        ConfigurationError::artifact("physical M8 definition must be read-only")
    );

    let mut reader = FixedReader { bytes: vec![0xff, 0xfe], reads: 0, log: Vec::new() };
    let mut decoder = FixedDecoder { parameters: vec![read_only_parameter()] };
    assert_eq!(
        freeze(b"toml", dto.clone(), &mut reader, &mut decoder).unwrap_err(),
        ConfigurationError::artifact("definition must be UTF-8")
    );

    let mut reader = FixedReader { bytes: b"[[[[[[[[[]]]]]]]]]".to_vec(), reads: 0, log: Vec::new() };
    assert_eq!(
        freeze(b"toml", dto, &mut reader, &mut decoder).unwrap_err(),
        ConfigurationError::InvalidArtifact("instrument definition nesting exceeds 8".to_owned())
    );
}

#[test]
fn retained_bytes_are_bounded() {
    let mut dto = minimal_dto();
    dto.resources.push(com_resource(1, "COM3"));
    dto.instruments.push(metakon(2, 1, "m.json"));
    let mut reader = FixedReader { bytes: b"{}".to_vec(), reads: 0, log: Vec::new() };
    let mut decoder = FixedDecoder { parameters: Vec::new() };
    let toml = vec![b'#'; 1048576 - 129];
    assert_eq!(
        freeze(&toml, dto.clone(), &mut reader, &mut decoder).unwrap_err(),
        ConfigurationError::TooLarge
    );
    let toml = vec![b'#'; 1048576 - 130];
    assert!(freeze(&toml, dto, &mut reader, &mut decoder).is_ok());
}

#[test]
fn canonical_order_sorts_by_identity_stably() {
    let mut dto = minimal_dto();
    dto.resources.push(com_resource(5, "COM5"));
    dto.resources.push(com_resource(2, "COM2"));
    dto.resources.push(com_resource(9, "COM9"));
    dto.instruments.push(metakon(7, 2, "b.json"));
    dto.instruments.push(metakon(3, 2, "a.json"));
    let mut first = com_resource(4, "COM4");
    first.key = "first".to_owned();
    let mut second = com_resource(4, "COM6");
    second.key = "second".to_owned();
    dto.resources.push(first);
    dto.resources.push(second);
    let ordered = canonical_order(dto);
    let ids: Vec<u64> = ordered.resources.iter().map(|r| r.id).collect();
    assert_eq!(ids, vec![2, 4, 4, 5, 9]);
    assert_eq!(ordered.resources[1].key, "first");
    assert_eq!(ordered.resources[2].key, "second");
    let instruments: Vec<u64> = ordered.instruments.iter().map(|i| i.id()).collect();
    assert_eq!(instruments, vec![3, 7]);
    assert_eq!(ordered.runtime.key, "lab");
}

#[test]
fn configuration_errors_describe_themselves() {
    assert_eq!(ConfigurationError::TooLarge.message(), "deployment exceeds bounded size");
    assert_eq!(
        ConfigurationError::InvalidUtf8.message(),
        "runtime.toml must be UTF-8 without BOM"
    );
    assert_eq!(
        ConfigurationError::SyntaxBound("nesting exceeds 8").message(),
        "runtime.toml nesting exceeds 8"
    );
    assert_eq!(
        ConfigurationError::InvalidToml("eof".to_owned()).message(),
        "invalid runtime.toml: eof"
    );
    assert_eq!(invalid("bad").message(), "invalid deployment: bad");
    assert_eq!(
        ConfigurationError::artifact("gone").message(),
        "invalid deployment artifact: gone"
    );
}

#[test]
fn reordered_documents_have_one_canonical_order() {
    let mut a = minimal_dto();
    a.resources.push(com_resource(3, "COM3"));
    a.resources.push(com_resource(1, "COM1"));
    a.resources.push(com_resource(2, "COM2"));
    let mut b = minimal_dto();
    b.resources.push(com_resource(2, "COM2"));
    b.resources.push(com_resource(3, "COM3"));
    b.resources.push(com_resource(1, "COM1"));
    let a = canonical_order(a);
    let b = canonical_order(b);
    let ports = |d: &DeploymentDto| d.resources.iter().map(|r| r.port.clone()).collect::<Vec<_>>();
    assert_eq!(ports(&a), ports(&b));
    assert_eq!(ports(&a), vec!["COM1", "COM2", "COM3"]);
}

#[test]
fn sourceless_bundle_reloads_and_reuses_without_reading() {
    let toml = b"schema_version = 1\n";
    let mut reader = FixedReader { bytes: b"never".to_vec(), reads: 0, log: Vec::new() };
    let mut decoder = FixedDecoder { parameters: Vec::new() };
    let frozen = freeze(toml, minimal_dto(), &mut reader, &mut decoder).unwrap();
    assert_eq!(frozen.base(), &PathBuf::from("/srv/lab"));
    let reloaded = frozen.clone().reload_managed_sources(&mut reader).unwrap();
    assert_eq!(reader.reads, 0);
    assert_eq!(reloaded.toml_bytes(), toml);
    assert!(reloaded.artifacts().is_empty());
    let reused = reloaded.reuse_unchanged_managed_sources(&frozen).unwrap();
    assert_eq!(reused.toml_bytes(), toml);
    assert_eq!(reused.base(), &PathBuf::from("/srv/lab"));
}

#[test]
fn read_bytes_are_admitted_exactly() {
    let mut artifacts = Vec::new();
    let mut total: usize = 10;
    let path = PathBuf::from("/srv/lab/src.lua");
    assert_eq!(
        admit_source(path.clone(), Err(ConfigurationError::TooLarge), &mut artifacts, &mut total),
        Err(ConfigurationError::TooLarge)
    );
    assert_eq!(
        admit_source(path.clone(), Ok(vec![0xff]), &mut artifacts, &mut total),
        Err(ConfigurationError::artifact("managed source must be UTF-8"))
    );
    assert!(artifacts.is_empty());
    assert_eq!(total, 10);
    assert_eq!(admit_source(path.clone(), Ok(b"x = 1".to_vec()), &mut artifacts, &mut total), Ok(()));
    assert_eq!(artifacts[0].bytes(), b"x = 1");
    assert_eq!(artifacts[0].declared_path(), &path);
    assert_eq!(total, 10 + 5 + 128);

    assert_eq!(definition_text(&b"{\"a\":1}".to_vec()), Ok("{\"a\":1}"));
    assert_eq!(
        definition_text(&vec![0xff]),
        Err(ConfigurationError::artifact("definition must be UTF-8"))
    );
    assert_eq!(
        definition_text(&b"[[[[[[[[[]]]]]]]]]".to_vec()),
        Err(ConfigurationError::InvalidArtifact("instrument definition nesting exceeds 8".to_owned()))
    );
    assert_eq!(
        admit_definition(path.clone(), b"{}".to_vec(), Err(DefinitionError::TooDeep), &mut artifacts, &mut total),
        Err(ConfigurationError::InvalidArtifact("instrument definition nesting exceeds 8".to_owned()))
    );
    let mut writable = read_only_parameter();
    writable.access = ParameterAccess::WriteOnly;
    assert_eq!(
        admit_definition(path.clone(), b"{}".to_vec(), Ok(vec![writable]), &mut artifacts, &mut total),
        Err(ConfigurationError::artifact("physical M8 definition must be read-only"))
    );
    assert_eq!(
        admit_definition(path, b"{}".to_vec(), Ok(vec![read_only_parameter()]), &mut artifacts, &mut total),
        Ok(())
    );
    assert_eq!(artifacts.len(), 2);
    assert_eq!(artifacts[1].bytes(), b"{}");
}

#[test]
fn failed_read_is_reported_as_read() {
    let mut dto = minimal_dto();
    dto.resources.push(com_resource(1, "COM3"));
    dto.instruments.push(metakon(2, 1, "m.json"));
    let mut reader = FixedReader { bytes: vec![b' '; 20000], reads: 0, log: Vec::new() };
    let mut decoder = FixedDecoder { parameters: Vec::new() };
    assert_eq!(
        freeze(b"toml", dto, &mut reader, &mut decoder).unwrap_err(),
        ConfigurationError::artifact("artifact exceeds limit")
    );
    assert_eq!(reader.log.len(), 1);
    assert_eq!(reader.log[0].maximum, 16384);
}
