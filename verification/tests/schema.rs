use gherkin_tests::params::cddl::CddlType;
use gherkin_tests::params::Cbor;
use gherkin_tests::world::World;
use gherkin_tests::ScenarioError;

const FIXTURE: &str = "myint = int\nmymap = { * tstr => int }\n";

fn encode(notation: &str) -> Vec<u8> {
    let mut world = World::new();
    world
        .render_cbor(&Cbor::from_str(notation).unwrap())
        .unwrap()
}

#[test]
fn conforming_payload_matches_the_rule() {
    let rule = CddlType::from_str("myint", FIXTURE).unwrap();
    assert!(rule.matches(&encode("5")).is_ok());
}

#[test]
fn structurally_incompatible_payload_yields_a_diagnostic() {
    let rule = CddlType::from_str("myint", FIXTURE).unwrap();
    match rule.matches(&encode("\"hello\"")).unwrap_err() {
        ScenarioError::SchemaRejected { message } => assert!(!message.is_empty()),
        other => panic!("expected a schema rejection, got {other:?}"),
    }
}

#[test]
fn map_payload_fails_an_integer_rule() {
    let rule = CddlType::from_str("myint", FIXTURE).unwrap();
    let payload = encode("{\"a\": 1}");
    match rule.matches(&payload).unwrap_err() {
        ScenarioError::SchemaRejected { message } => assert!(!message.is_empty()),
        other => panic!("expected a schema rejection, got {other:?}"),
    }
    let map_rule = CddlType::from_str("mymap", FIXTURE).unwrap();
    assert!(map_rule.matches(&payload).is_ok());
}

#[test]
fn unknown_rule_is_rejected_at_construction() {
    let err = CddlType::from_str("nope", FIXTURE).unwrap_err();
    assert_eq!(
        err,
        ScenarioError::UnknownRule {
            name: "nope".to_string()
        }
    );
}

#[test]
fn schema_defining_start_collides_with_synthetic_root() {
    let err = CddlType::from_str("myint", "start = int\nmyint = int\n").unwrap_err();
    assert_eq!(
        err,
        ScenarioError::ReservedRule {
            name: "start".to_string()
        }
    );
}

#[test]
fn base64_literal_in_schema_is_refused_before_the_engine() {
    let err = CddlType::from_str("myint", "myint = int\nbad = b64'abc'\n").unwrap_err();
    assert_eq!(err, ScenarioError::BadSchema);
}

#[test]
fn oversized_hex_literal_in_schema_is_refused_before_the_engine() {
    let schema = format!("myint = int\nbig = h'{}'\n", "ab".repeat(1500));
    let err = CddlType::from_str("myint", &schema).unwrap_err();
    assert_eq!(err, ScenarioError::BadSchema);
}

#[test]
fn short_hex_literal_in_schema_is_accepted() {
    let schema = "myint = int\nmagic = h'00ff'\n";
    let rule = CddlType::from_str("myint", schema).unwrap();
    assert!(rule.matches(&encode("5")).is_ok());
}

#[test]
fn oversized_date_tag_payload_is_refused_before_the_engine() {
    let rule = CddlType::from_str("myint", FIXTURE).unwrap();
    let payload = vec![0xc1, 0x1b, 0xff, 0xff, 0xff, 0xff, 0xff, 0xff, 0xff, 0xff];
    match rule.matches(&payload).unwrap_err() {
        ScenarioError::SchemaRejected { message } => assert!(!message.is_empty()),
        other => panic!("expected a schema rejection, got {other:?}"),
    }
}

#[test]
fn non_ascii_schema_is_refused_before_the_engine() {
    let err = CddlType::from_str("myint", "myint = int ; caf\u{e9}\n").unwrap_err();
    assert_eq!(err, ScenarioError::BadSchema);
}

#[test]
fn abnf_control_in_schema_is_refused_before_the_engine() {
    let err =
        CddlType::from_str("myint", "myint = int\nt = tstr .abnf (\"a = b\")\n").unwrap_err();
    assert_eq!(err, ScenarioError::BadSchema);
}

#[test]
fn unparsable_schema_is_rejected_at_construction() {
    let err = CddlType::from_str("myint", "==== not a schema").unwrap_err();
    assert_eq!(err, ScenarioError::BadSchema);
}
