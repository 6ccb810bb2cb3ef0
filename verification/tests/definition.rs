use lab_runtime::definition::{
    admit_definition_text, check_depth, check_profile, definition_read_only, DefinitionError,
    KnownOperation, ParameterAccess, ParameterRole, ParameterSafety, WriteEffect,
    MAX_DEFINITION_BYTES,
};

fn parameter() -> ParameterSafety {
    ParameterSafety {
        access: ParameterAccess::ReadOnly,
        role: ParameterRole::Measurement,
        write_effect: WriteEffect::NoEffect,
        operation: KnownOperation::ChannelType,
    }
}

#[test]
fn nesting_is_bounded_outside_strings() {
    assert_eq!(check_depth("[[[[[[[[1]]]]]]]]"), Ok(()));
    assert_eq!(check_depth("[[[[[[[[[1]]]]]]]]]"), Err(DefinitionError::TooDeep));
    assert_eq!(check_depth("{\"a\":\"[[[[[[[[[[[[\\\"[[[[\"}"), Ok(()));
    assert_eq!(check_depth("]]]]][[[[[[[[1"), Ok(()));
}

#[test]
fn size_is_checked_before_nesting() {
    let large = " ".repeat(MAX_DEFINITION_BYTES + 1);
    assert_eq!(admit_definition_text(&large), Err(DefinitionError::TooLarge));
    let exact = " ".repeat(MAX_DEFINITION_BYTES);
    assert_eq!(admit_definition_text(&exact), Ok(()));
}

#[test]
fn only_the_trusted_profile_is_admitted() {
    assert_eq!(check_profile("metakon-5x3-v1"), Ok(()));
    assert_eq!(
        check_profile("metakon-5x3-v2"),
        Err(DefinitionError::InvalidDomain("unsupported instrument profile".to_owned()))
    );
}

#[test]
fn physical_definitions_must_be_read_only() {
    assert!(definition_read_only(&vec![parameter(), parameter()]));
    assert!(definition_read_only(&Vec::new()));
    let mut p = parameter();
    p.role = ParameterRole::Actuator;
    assert!(!definition_read_only(&vec![parameter(), p]));
    let mut p = parameter();
    p.write_effect = WriteEffect::OutputAffecting;
    assert!(!definition_read_only(&vec![p]));
    let mut p = parameter();
    p.operation = KnownOperation::Output;
    assert!(!definition_read_only(&vec![p]));
    let mut p = parameter();
    p.access = ParameterAccess::WriteOnly;
    assert!(!definition_read_only(&vec![p]));
}

#[test]
fn definition_errors_describe_themselves() {
    assert_eq!(DefinitionError::TooLarge.message(), "instrument definition exceeds 16 KiB");
    assert_eq!(DefinitionError::TooDeep.message(), "instrument definition nesting exceeds 8");
    assert_eq!(
        DefinitionError::InvalidJson("eof".to_owned()).message(),
        "invalid definition JSON: eof"
    );
    assert_eq!(
        DefinitionError::InvalidDomain("bad".to_owned()).message(),
        "invalid instrument definition: bad"
    );
}
