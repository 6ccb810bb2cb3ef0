use lab_runtime::binary64::Real;
use lab_runtime::configuration::ConfigurationError;
use lab_runtime::dto::{
    ControllerDto, DeploymentDto, EvidenceDto, InstrumentDto, RecordingDto, RecordingPolicyDto,
    ReferenceDto, ReferenceKindDto, RuntimeDto, SafeProfileDto, ServerDto,
};
use lab_runtime::validation::{validate_structure, DomainFacts};

fn num(x: f64) -> Real {
    Real::from_bits(x.to_bits())
}

fn invalid(reason: &str) -> Result<(), ConfigurationError> {
    Err(ConfigurationError::InvalidConfiguration(reason.to_owned()))
}

fn plant() -> InstrumentDto {
    InstrumentDto::ThermalPlant {
        id: 5,
        key: "plant".to_owned(),
        display_name: "Plant".to_owned(),
        history_capacity: 16,
        ambient_temperature: num(20.0),
        initial_temperature: num(20.0),
        gain_per_percent: num(0.5),
        time_constant_ms: 60000,
        poll_period_ms: 1000,
    }
}

fn setpoint(id: u64, key: &str) -> ReferenceDto {
    ReferenceDto {
        id,
        key: key.to_owned(),
        kind: ReferenceKindDto::Fixed,
        value: num(40.0),
        target: None,
        rate: None,
        unit_id: "degC".to_owned(),
        unit_symbol: "C".to_owned(),
    }
}

fn heater_profile() -> SafeProfileDto {
    SafeProfileDto {
        instrument_id: 5,
        parameter_id: 2,
        min: num(0.0),
        max: num(100.0),
        safe_value: num(0.0),
        max_lease_ms: 5000,
        max_proposal_ttl_ms: 2000,
        required_evidence: EvidenceDto::Ack,
    }
}

fn pid(id: u64, key: &str) -> ControllerDto {
    ControllerDto {
        id,
        key: key.to_owned(),
        input_instrument_id: 5,
        input_parameter_id: 1,
        output_instrument_id: 5,
        output_parameter_id: 2,
        reference_id: 1,
        period_ms: 1000,
        ema_time_constant_ms: 1000,
        ema_warmup_samples: 4,
        kp: num(1.0),
        ki: num(0.0),
        kd: num(0.0),
        output_min: num(0.0),
        output_max: num(100.0),
        max_input_age_ms: 5000,
        max_tick_gap_ms: 5000,
        lease_lifetime_ms: 5000,
        proposal_ttl_ms: 2000,
    }
}

fn controlled_plant() -> DeploymentDto {
    DeploymentDto {
        schema_version: 1,
        runtime: RuntimeDto { key: "lab".to_owned(), display_name: "Laboratory".to_owned() },
        server: ServerDto { host: "127.0.0.1".to_owned(), port: 4100 },
        recording: RecordingDto {
            enabled: false,
            path: String::new(),
            policy: RecordingPolicyDto::BestEffort,
        },
        resources: Vec::new(),
        instruments: vec![plant()],
        managed_components: Vec::new(),
        references: vec![setpoint(1, "sp")],
        controllers: vec![pid(1, "pid")],
        safe_profiles: vec![heater_profile()],
    }
}

fn facts_for(dto: &DeploymentDto) -> DomainFacts {
    DomainFacts {
        lua_implementation: "lua.script.v1".to_owned(),
        heater_power_parameter: 2,
        temperature_parameter: 1,
        celsius_unit: "degC".to_owned(),
        implementation_valid: vec![true; dto.managed_components.len()],
        config_valid: vec![true; dto.managed_components.len()],
        reference_unit_valid: vec![true; dto.references.len()],
    }
}

fn check(dto: &DeploymentDto) -> Result<(), ConfigurationError> {
    validate_structure(dto, &facts_for(dto))
}

#[test]
fn controlled_plant_is_admitted() {
    assert_eq!(check(&controlled_plant()), Ok(()));
}

#[test]
fn reference_diagnostics_follow_document_order() {
    let mut dto = controlled_plant();
    dto.references[0].id = 0;
    assert_eq!(check(&dto), invalid("duplicate or zero Reference identity"));

    let mut dto = controlled_plant();
    dto.references.push(setpoint(2, "sp"));
    assert_eq!(check(&dto), invalid("duplicate Reference key"));

    let mut dto = controlled_plant();
    let mut facts = facts_for(&dto);
    facts.reference_unit_valid[0] = false;
    assert_eq!(validate_structure(&dto, &facts), invalid("invalid Reference unit"));
    dto.references[0].value = num(f64::NAN);
    assert_eq!(check(&dto), invalid("invalid Reference value"));

    let mut dto = controlled_plant();
    dto.references[0].target = Some(num(50.0));
    assert_eq!(check(&dto), invalid("Fixed Reference cannot declare ramp fields"));
    dto.references[0].kind = ReferenceKindDto::Ramp;
    assert_eq!(check(&dto), invalid("Ramp Reference requires target and rate"));
    dto.references[0].rate = Some(num(0.0));
    assert_eq!(check(&dto), invalid("invalid Ramp Reference"));
    dto.references[0].rate = Some(num(0.5));
    assert_eq!(check(&dto), Ok(()));
}

#[test]
fn safe_profile_diagnostics() {
    let mut dto = controlled_plant();
    dto.safe_profiles.push(heater_profile());
    assert_eq!(check(&dto), invalid("duplicate safe profile"));

    let mut dto = controlled_plant();
    dto.safe_profiles[0].instrument_id = 0;
    assert_eq!(check(&dto), invalid("safe instrument id must be nonzero"));

    let mut dto = controlled_plant();
    dto.safe_profiles[0].instrument_id = 9;
    assert_eq!(check(&dto), invalid("unknown safe-profile instrument"));

    let mut dto = controlled_plant();
    dto.safe_profiles[0].max = num(-1.0);
    assert_eq!(check(&dto), invalid("invalid safe profile"));

    let mut dto = controlled_plant();
    dto.safe_profiles[0].parameter_id = 3;
    assert_eq!(check(&dto), invalid("safe profile targets an ineligible output"));

    let mut dto = controlled_plant();
    dto.safe_profiles[0].max = num(150.0);
    assert_eq!(check(&dto), invalid("safe profile targets an ineligible output"));
}

#[test]
fn controller_diagnostics() {
    let expect = |edit: fn(&mut ControllerDto), reason: &str| {
        let mut dto = controlled_plant();
        edit(&mut dto.controllers[0]);
        assert_eq!(check(&dto), invalid(reason));
    };
    expect(|c| c.id = 0, "controller id must be nonzero");
    expect(|c| c.key = "9".to_owned(), "invalid logical key");
    expect(|c| c.input_instrument_id = 9, "unknown controller input");
    expect(|c| c.reference_id = 7, "unknown controller Reference");
    expect(|c| c.output_parameter_id = 3, "controller output lacks safe profile");
    expect(|c| c.period_ms = 0, "controller period must be 1..=60000 ms");
    expect(|c| c.input_parameter_id = 7, "controller input is not a signal");
    expect(|c| c.ema_time_constant_ms = 60001, "EMA time constant must be 1..=60000 ms");
    expect(|c| c.max_input_age_ms = 0, "maximum input age must be 1..=60000 ms");
    expect(|c| c.max_tick_gap_ms = 0, "maximum tick gap must be 1..=60000 ms");
    expect(|c| c.lease_lifetime_ms = 0, "lease lifetime must be 1..=60000 ms");
    expect(|c| c.proposal_ttl_ms = 0, "proposal TTL must be 1..=60000 ms");
    expect(|c| c.ema_warmup_samples = 1025, "EMA warmup out of range");
    expect(|c| c.output_max = num(0.0), "invalid PID configuration");
    expect(|c| c.kd = num(f64::INFINITY), "invalid PID configuration");
    expect(|c| c.lease_lifetime_ms = 6000, "controller exceeds safe-profile limits");
    expect(|c| c.output_min = num(-1.0), "controller exceeds safe-profile limits");

    let mut dto = controlled_plant();
    dto.references[0].unit_id = "K".to_owned();
    assert_eq!(check(&dto), invalid("controller input and Reference unit mismatch"));

    let mut dto = controlled_plant();
    dto.controllers.push(pid(2, "pid"));
    assert_eq!(check(&dto), invalid("duplicate controller identity"));
    dto.controllers[1].key = "pid2".to_owned();
    assert_eq!(check(&dto), Ok(()));
}
