//! Tests of field defaults: classification of generator defaults, and the
//! values the generators produce.
use query_compiler::default_value::{DefaultValue, ValueGenerator, ValueGeneratorFn};
use query_compiler::values::{PrismaValue, PrismaValueType};

#[test]
fn default_value_is_autoincrement() {
    let auto_increment_default = DefaultValue::new_expression(ValueGenerator::new_autoincrement());

    assert!(auto_increment_default.is_autoincrement());
}

#[test]
fn default_value_is_now() {
    let now_default = DefaultValue::new_expression(ValueGenerator::new_now());

    assert!(now_default.is_now());
    assert!(!now_default.is_autoincrement());
}

#[test]
fn default_value_is_uuidv4() {
    let uuid_default = DefaultValue::new_expression(ValueGenerator::new_uuid(4));

    assert!(uuid_default.is_uuid());
    assert!(!uuid_default.is_autoincrement());
}

#[test]
fn default_value_is_uuidv7() {
    let uuid_default = DefaultValue::new_expression(ValueGenerator::new_uuid(7));

    assert!(uuid_default.is_uuid());
    assert!(!uuid_default.is_autoincrement());
}

#[test]
fn default_value_is_cuidv1() {
    let cuid_default = DefaultValue::new_expression(ValueGenerator::new_cuid(1));

    assert!(cuid_default.is_cuid());
    assert!(!cuid_default.is_now());
}

#[test]
fn default_value_is_cuidv2() {
    let cuid_default = DefaultValue::new_expression(ValueGenerator::new_cuid(2));

    assert!(cuid_default.is_cuid());
    assert!(!cuid_default.is_now());
}

#[test]
fn default_value_is_ulid() {
    let ulid_default = DefaultValue::new_expression(ValueGenerator::new_ulid());

    assert!(ulid_default.is_ulid());
    assert!(!ulid_default.is_now());
}

#[test]
fn default_value_is_nanoid() {
    let nanoid_default = DefaultValue::new_expression(ValueGenerator::new_nanoid(None));

    assert!(nanoid_default.is_nanoid());
    assert!(!nanoid_default.is_cuid());
}

#[test]
fn default_value_is_dbgenerated() {
    let db_generated_default =
        DefaultValue::new_expression(ValueGenerator::new_dbgenerated("test".to_string()));

    assert!(db_generated_default.is_dbgenerated());
    assert!(!db_generated_default.is_now());
    assert!(!db_generated_default.is_autoincrement());
}

#[test]
fn generator_resolution_rejects_unknown_names() {
    let r = ValueGenerator::new("unheard_of".to_string(), Vec::new());
    assert!(r.is_err());
}

#[test]
fn generator_resolution_accepts_known_names() {
    let g = ValueGenerator::new("now".to_string(), Vec::new()).unwrap();
    assert_eq!(g.generator(), ValueGeneratorFn::Now);
    let g = ValueGenerator::new("cuid".to_string(), vec![PrismaValue::Int(2)]).unwrap();
    assert_eq!(g.generator(), ValueGeneratorFn::Cuid(2));
}

#[test]
fn generated_uuid_is_hyphenated() {
    let v = ValueGenerator::new_uuid(4).generate().unwrap();
    match v {
        PrismaValue::Uuid(s) => {
            assert_eq!(s.len(), 36);
            assert_eq!(s.matches('-').count(), 4);
        }
        other => panic!("expected a uuid value, got {:?}", other),
    }
}

#[test]
fn generated_ulid_has_twenty_six_characters() {
    let v = ValueGenerator::new_ulid().generate().unwrap();
    match v {
        PrismaValue::Text(s) => assert_eq!(s.len(), 26),
        other => panic!("expected a text value, got {:?}", other),
    }
}

#[test]
fn generated_nanoid_honors_requested_length() {
    let v = ValueGenerator::new_nanoid(Some(10)).generate().unwrap();
    match v {
        PrismaValue::Text(s) => assert_eq!(s.len(), 10),
        other => panic!("expected a text value, got {:?}", other),
    }
    let v = ValueGenerator::new_nanoid(None).generate().unwrap();
    match v {
        PrismaValue::Text(s) => assert_eq!(s.len(), 21),
        other => panic!("expected a text value, got {:?}", other),
    }
}

#[test]
fn generated_cuid_values_are_nonempty_text() {
    for version in [1u8, 2u8] {
        let v = ValueGenerator::new_cuid(version).generate().unwrap();
        match v {
            PrismaValue::Text(s) => assert!(!s.is_empty()),
            other => panic!("expected a text value, got {:?}", other),
        }
    }
}

#[test]
fn database_side_generators_produce_no_value() {
    assert!(ValueGenerator::new_autoincrement().generate().is_none());
    assert!(ValueGenerator::new_auto().generate().is_none());
    assert!(ValueGenerator::new_dbgenerated("now()".to_string()).generate().is_none());
}

#[test]
fn now_generates_a_datetime() {
    let v = ValueGenerator::new_now().generate().unwrap();
    assert!(matches!(v, PrismaValue::DateTime(_)));
}

#[test]
fn default_kind_get_skips_database_side_defaults() {
    let auto = DefaultValue::new_expression(ValueGenerator::new_autoincrement());
    assert!(auto.kind.get().is_none());
    let single = DefaultValue::new_single(PrismaValue::Int(7));
    match single.kind.get() {
        Some(PrismaValue::Int(n)) => assert_eq!(n, 7),
        other => panic!("expected the static value back, got {:?}", other),
    }
    let uuid = DefaultValue::new_expression(ValueGenerator::new_uuid(4));
    match uuid.kind.get() {
        Some(PrismaValue::GeneratorCall { name, args, return_type }) => {
            assert_eq!(name, "uuid");
            assert_eq!(args.len(), 1);
            assert_eq!(return_type, PrismaValueType::TextType);
        }
        other => panic!("expected a generator call, got {:?}", other),
    }
}

#[test]
fn dbgenerated_description_is_kept() {
    let g = ValueGenerator::new_dbgenerated("gen_random_uuid()".to_string());
    assert_eq!(g.as_dbgenerated().unwrap(), "gen_random_uuid()");
    let empty = ValueGenerator::new_dbgenerated("\0\0".to_string());
    assert!(empty.as_dbgenerated().is_none());
}

#[test]
fn sequence_defaults_are_not_autoincrement_at_the_default_level() {
    let sequence_default = DefaultValue::new_expression(ValueGenerator::new_sequence(Vec::new()));

    assert!(!sequence_default.is_autoincrement());
    assert!(sequence_default.as_expression().unwrap().is_autoincrement());
}

#[test]
fn dbgenerated_int_argument_renders_in_decimal() {
    let dv = DefaultValue::new_expression(
        ValueGenerator::new("dbgenerated".to_string(), vec![PrismaValue::Int(-42)]).unwrap(),
    );
    assert_eq!(dv.kind.to_dbgenerated_func().unwrap(), "-42");
}

#[test]
fn generator_equality_goes_by_name_and_arguments() {
    assert!(ValueGenerator::new_uuid(4) == ValueGenerator::new_uuid(4));
    assert!(ValueGenerator::new_uuid(4) != ValueGenerator::new_uuid(7));
    assert!(ValueGenerator::new_uuid(4) != ValueGenerator::new_ulid());
}

#[test]
fn default_value_db_name_round_trip() {
    let mut dv = DefaultValue::new_single(PrismaValue::Boolean(true));
    assert!(dv.db_name().is_none());
    dv.set_db_name("users_pkey".to_string());
    assert_eq!(dv.db_name().unwrap(), "users_pkey");
    assert!(dv.as_single().is_some());
    assert!(dv.as_expression().is_none());
}
