use lab_runtime::configuration::{
    freeze_deployment, ArtifactRead, ArtifactReader, ConfigurationError, DefinitionDecoder, FrozenDeployment,
};
use lab_runtime::definition::{DefinitionError, ParameterSafety};
use lab_runtime::deployment::{
    apply_outcome, next_owner_call, ApplyError, ApplyPort, ApplyResult, ConfigurationDiff,
    DeploymentLifecycle, DiffEffect, OwnerCall, OwnerCallRecord, StageError, CANDIDATE_LIFETIME_NANOS,
};
use lab_runtime::session::{session_code, SessionError};
use lab_runtime::dto::{
    DeploymentDto, InstrumentDto, RecordingDto, RecordingPolicyDto, RuntimeDto, ServerDto,
};
use lab_runtime::binary64::Real;
use lab_runtime::dto::thermal_configuration_changed;
use lab_runtime::configuration::DeploymentChanges;
use lab_runtime::validation::DomainFacts;
use std::path::PathBuf;

struct NoReader {
    log: Vec<ArtifactRead>,
}

impl ArtifactReader for NoReader {
    fn spec_reads(&self) -> &Vec<ArtifactRead> {
        &self.log
    }

    fn read(&mut self, path: &PathBuf, maximum: usize) -> Result<Vec<u8>, ConfigurationError> {
        let result = Err(ConfigurationError::artifact("no artifacts"));
        self.log.push(ArtifactRead { path: path.clone(), maximum, result: result.clone() });
        result
    }
}

struct NoDecoder;

impl DefinitionDecoder for NoDecoder {
    fn decode(&mut self, _text: &str) -> Result<Vec<ParameterSafety>, DefinitionError> {
        Err(DefinitionError::TooLarge)
    }
}

fn virtual_instrument(period: u64, base_bits: u64) -> InstrumentDto {
    InstrumentDto::VirtualMeasurement {
        id: 1,
        key: "virtual".to_owned(),
        display_name: "Virtual".to_owned(),
        history_capacity: 16,
        base_temperature: Real { bits: base_bits },
        measurement_enabled: true,
        external_publication: false,
        poll_period_ms: period,
    }
}

fn bundle(toml: &[u8], display_name: &str, port: u16, instrument: InstrumentDto) -> FrozenDeployment {
    let dto = DeploymentDto {
        schema_version: 1,
        runtime: RuntimeDto { key: "lab".to_owned(), display_name: display_name.to_owned() },
        server: ServerDto { host: "127.0.0.1".to_owned(), port },
        recording: RecordingDto {
            enabled: false,
            path: String::new(),
            policy: RecordingPolicyDto::BestEffort,
        },
        resources: Vec::new(),
        instruments: vec![instrument],
        managed_components: Vec::new(),
        references: Vec::new(),
        controllers: Vec::new(),
        safe_profiles: Vec::new(),
    };
    let facts = DomainFacts {
        lua_implementation: "lua.script.v1".to_owned(),
        heater_power_parameter: 2,
        temperature_parameter: 1,
        celsius_unit: "degC".to_owned(),
        implementation_valid: Vec::new(),
        config_valid: Vec::new(),
        reference_unit_valid: Vec::new(),
    };
    freeze_deployment(toml, &PathBuf::from("/srv"), dto, &facts, &mut NoReader { log: Vec::new() }, &mut NoDecoder)
        .unwrap()
}

const TWENTY: u64 = 0x4034_0000_0000_0000;
const THIRTY: u64 = 0x403e_0000_0000_0000;

struct Owner {
    safe: Result<bool, ApplyError>,
    commits: usize,
    barriers: usize,
    calls: Vec<OwnerCallRecord>,
}

impl ApplyPort for Owner {
    fn spec_calls(&self) -> &Vec<OwnerCallRecord> {
        &self.calls
    }

    fn enter_safe_barrier(&mut self, at: u128) -> Result<bool, ApplyError> {
        self.barriers += 1;
        self.calls.push(OwnerCallRecord::Barrier { at, answer: self.safe });
        self.safe
    }

    fn prepare_bindings(&mut self, candidate: &FrozenDeployment) -> Result<(), ApplyError> {
        self.calls.push(OwnerCallRecord::Prepare { candidate: candidate.clone(), answer: Ok(()) });
        Ok(())
    }

    fn commit_configuration(&mut self, candidate: &FrozenDeployment) -> Result<(), ApplyError> {
        self.commits += 1;
        self.calls.push(OwnerCallRecord::Commit { candidate: candidate.clone(), answer: Ok(()) });
        Ok(())
    }
}

fn owner() -> Owner {
    Owner { safe: Ok(true), commits: 0, barriers: 0, calls: Vec::new() }
}

#[test]
fn display_change_stages_as_live_safe_and_applies() {
    let active = bundle(b"a", "Lab", 4100, virtual_instrument(100, TWENTY));
    let candidate = bundle(b"b", "Lab two", 4100, virtual_instrument(100, TWENTY));
    let mut lifecycle = DeploymentLifecycle::new(active);
    assert_eq!(lifecycle.revision(), 1);
    let staged = lifecycle.stage(candidate, 1_000).unwrap();
    assert_eq!(staged.id(), 1);
    assert_eq!(staged.base_revision(), 1);
    assert_eq!(staged.expires_at(), 1_000 + CANDIDATE_LIFETIME_NANOS);
    assert_eq!(staged.diff().effects(), &vec![DiffEffect::LiveSafe]);
    assert!(!staged.diff().requires_safe_barrier());
    let mut port = owner();
    assert_eq!(lifecycle.apply(1, 1, 2_000, &mut port), Ok(ApplyResult::Applied { revision: 2 }));
    assert_eq!(port.commits, 1);
    assert_eq!(port.barriers, 0);
    assert_eq!(port.calls.len(), 1);
    assert!(matches!(port.calls[0], OwnerCallRecord::Commit { answer: Ok(()), .. }));
    assert_eq!(lifecycle.revision(), 2);
    assert_eq!(lifecycle.active().effective().runtime_key(), "lab");
    assert!(lifecycle.staged().is_none());
}

#[test]
fn cadence_and_model_changes_escalate_effects() {
    let active = bundle(b"a", "Lab", 4100, virtual_instrument(100, TWENTY));
    let candidate = bundle(b"b", "Lab", 4100, virtual_instrument(200, THIRTY));
    let mut lifecycle = DeploymentLifecycle::new(active);
    let staged = lifecycle.stage(candidate, 0).unwrap();
    assert_eq!(
        staged.diff().effects(),
        &vec![
            DiffEffect::LiveSafe,
            DiffEffect::OrdinaryLive,
            DiffEffect::Reinitialize,
            DiffEffect::ControllerRewarm,
            DiffEffect::OutputSafeBarrier,
        ]
    );
    let mut port = owner();
    port.safe = Ok(false);
    assert_eq!(lifecycle.apply(1, 1, 1, &mut port), Ok(ApplyResult::FailedBeforeCommit));
    assert_eq!(port.commits, 0);
    assert_eq!(port.calls.len(), 1);
    assert!(matches!(port.calls[0], OwnerCallRecord::Barrier { at: 1, answer: Ok(false) }));
    assert_eq!(lifecycle.revision(), 1);
    assert!(lifecycle.staged().is_none());
}

#[test]
fn restart_changes_and_stale_candidates_are_refused() {
    let active = bundle(b"a", "Lab", 4100, virtual_instrument(100, TWENTY));
    let moved = bundle(b"b", "Lab", 4200, virtual_instrument(100, TWENTY));
    let mut lifecycle = DeploymentLifecycle::new(active);
    lifecycle.stage(moved, 0).unwrap();
    let other = bundle(b"c", "Lab", 4100, virtual_instrument(100, TWENTY));
    assert_eq!(lifecycle.stage(other, 0).unwrap_err(), StageError::Busy);
    let mut port = owner();
    assert_eq!(lifecycle.apply(2, 1, 1, &mut port), Err(ApplyError::UnknownCandidate));
    assert_eq!(lifecycle.apply(1, 7, 1, &mut port), Err(ApplyError::Conflict));
    assert_eq!(lifecycle.apply(1, 1, 1, &mut port), Err(ApplyError::RestartRequired));
    assert!(lifecycle.staged().is_some());
    assert_eq!(
        lifecycle.apply(1, 1, CANDIDATE_LIFETIME_NANOS, &mut port),
        Err(ApplyError::Expired)
    );
    assert!(lifecycle.staged().is_none());
    assert_eq!(port.commits, 0);
}

#[test]
fn diff_effects_follow_report_order() {
    let changes = DeploymentChanges {
        restart_required: true,
        live_safe: true,
        ordinary_live: false,
        reinitialize: false,
        rebind: true,
        controller_rewarm: true,
        safe_barrier: true,
    };
    let diff = ConfigurationDiff::from_changes(changes);
    assert_eq!(
        diff.effects(),
        &vec![
            DiffEffect::LiveSafe,
            DiffEffect::TransportRebind,
            DiffEffect::ControllerRewarm,
            DiffEffect::OutputSafeBarrier,
            DiffEffect::RestartRequired,
        ]
    );
    assert!(diff.requires_safe_barrier());
    assert!(diff.contains(DiffEffect::TransportRebind));
    assert!(!diff.contains(DiffEffect::Reinitialize));
    assert_eq!(DiffEffect::OutputSafeBarrier.as_str(), "output_safe_barrier");
    assert_eq!(DiffEffect::RestartRequired.as_str(), "restart_required");
}

#[test]
fn source_reload_keeps_identity() {
    let active = bundle(b"a", "Lab", 4100, virtual_instrument(100, TWENTY));
    let same = bundle(b"a", "Lab", 4100, virtual_instrument(100, TWENTY));
    let different = bundle(b"b", "Lab", 4100, virtual_instrument(100, TWENTY));
    let mut lifecycle = DeploymentLifecycle::new(active);
    assert_eq!(lifecycle.validate_managed_sources_candidate(&different), Err(ApplyError::Conflict));
    assert_eq!(lifecycle.validate_managed_sources_candidate(&same), Ok(()));
    lifecycle.commit_validated_managed_sources(same);
    assert_eq!(lifecycle.revision(), 1);
}

#[test]
fn thermal_model_changes_compare_binary64_values() {
    let plant = |ambient: u64, gain: u64| InstrumentDto::ThermalPlant {
        id: 4,
        key: "plant".to_owned(),
        display_name: "Plant".to_owned(),
        history_capacity: 32,
        ambient_temperature: Real { bits: ambient },
        initial_temperature: Real { bits: TWENTY },
        gain_per_percent: Real { bits: gain },
        time_constant_ms: 8000,
        poll_period_ms: 250,
    };
    let nan = 0x7ff8_0000_0000_0000;
    assert!(!thermal_configuration_changed(&plant(TWENTY, THIRTY), &plant(TWENTY, THIRTY)));
    assert!(thermal_configuration_changed(&plant(TWENTY, THIRTY), &plant(THIRTY, THIRTY)));
    assert!(!thermal_configuration_changed(&plant(0, THIRTY), &plant(0x8000_0000_0000_0000, THIRTY)));
    assert!(thermal_configuration_changed(&plant(TWENTY, nan), &plant(TWENTY, nan)));
    assert!(!thermal_configuration_changed(&virtual_instrument(100, TWENTY), &plant(TWENTY, THIRTY)));
}

#[test]
fn owner_protocol_orders_barrier_prepare_commit() {
    assert_eq!(next_owner_call(true, true, None, None, None), Some(OwnerCall::EnterSafeBarrier));
    assert_eq!(next_owner_call(true, true, Some(Ok(true)), None, None), Some(OwnerCall::PrepareBindings));
    assert_eq!(next_owner_call(true, true, Some(Ok(false)), None, None), None);
    assert_eq!(
        next_owner_call(true, true, Some(Ok(true)), Some(Ok(())), None),
        Some(OwnerCall::CommitConfiguration)
    );
    assert_eq!(
        next_owner_call(false, true, None, Some(Err(ApplyError::OwnerFailure)), None),
        None
    );
    assert_eq!(next_owner_call(false, false, None, None, None), Some(OwnerCall::CommitConfiguration));
    assert_eq!(next_owner_call(false, false, None, None, Some(Ok(()))), None);
}

#[test]
fn owner_answers_map_to_apply_results() {
    let conflict = Err(ApplyError::Conflict);
    assert_eq!(apply_outcome(Some(conflict), None, None, 3), Err(ApplyError::Conflict));
    assert_eq!(apply_outcome(Some(Ok(false)), None, None, 3), Ok(ApplyResult::FailedBeforeCommit));
    assert_eq!(
        apply_outcome(Some(Ok(true)), Some(Err(ApplyError::OwnerFailure)), None, 3),
        Ok(ApplyResult::FailedBeforeCommit)
    );
    assert_eq!(
        apply_outcome(None, None, Some(Err(ApplyError::OwnerFailure)), 3),
        Err(ApplyError::OwnerFailure)
    );
    assert_eq!(
        apply_outcome(Some(Ok(true)), Some(Ok(())), Some(Ok(())), 3),
        Ok(ApplyResult::Applied { revision: 4 })
    );
    assert_eq!(apply_outcome(None, None, Some(Ok(())), u64::MAX), Err(ApplyError::OwnerFailure));
}

#[test]
fn deployment_compared_with_itself_changes_nothing() {
    let active = bundle(b"a", "Lab", 4100, virtual_instrument(100, TWENTY));
    let changes = active.changes_from(&active);
    assert_eq!(
        ConfigurationDiff::from_changes(changes).effects(),
        &Vec::<DiffEffect>::new()
    );
}

#[test]
fn session_failures_have_wire_codes() {
    assert_eq!(session_code(SessionError::InstanceChanged), "instance_changed");
    assert_eq!(session_code(SessionError::ScopeInUse), "scope_in_use");
    assert_eq!(session_code(SessionError::ScopeCapacity), "busy");
    assert_eq!(session_code(SessionError::ScopeUnknown), "scope_unknown");
}
