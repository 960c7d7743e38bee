use gherkin_tests::params::{Cbor, Identifier, Method};
use gherkin_tests::world::{ResponseRecord, World, WorldVar};
use gherkin_tests::ScenarioError;

#[test]
fn second_insert_of_a_name_fails_and_keeps_the_first_value() {
    let mut world = World::new();
    world
        .insert_var("x", WorldVar::Address(vec![0x01]))
        .unwrap();
    let err = world
        .insert_var("x", WorldVar::Address(vec![0x99]))
        .unwrap_err();
    assert_eq!(
        err,
        ScenarioError::DuplicateName {
            name: "x".to_string()
        }
    );
    assert_eq!(world.address_of("x"), Some(vec![0x01]));
}

#[test]
fn registering_a_template_twice_fails_before_any_rendering() {
    let mut world = World::new();
    world
        .register_cbor("m", Cbor::from_str("1").unwrap())
        .unwrap();
    let err = world
        .register_cbor("m", Cbor::from_str("2").unwrap())
        .unwrap_err();
    assert_eq!(
        err,
        ScenarioError::DuplicateName {
            name: "m".to_string()
        }
    );
    assert_eq!(world.render("m").unwrap(), vec![0x01]);
}

#[test]
fn init_config_binds_the_well_known_names() {
    let mut world = World::new();
    world
        .init_config(
            vec![0x00],
            vec![0x02],
            vec![0x03, 0x04],
            vec![("abc".to_string(), vec![0x05])],
        )
        .unwrap();
    assert_eq!(world.address_of("anonymous"), Some(vec![0x00]));
    assert_eq!(world.address_of("illegal"), Some(vec![0x02]));
    assert_eq!(world.identity("faucet"), Some(vec![0x03, 0x04]));
    assert_eq!(world.symbol("abc"), Some(&vec![0x05]));
}

#[test]
fn init_config_fails_whole_on_a_duplicate_and_changes_nothing() {
    let mut world = World::new();
    world.insert_var("faucet", WorldVar::Address(vec![0x07])).unwrap();
    let err = world
        .init_config(vec![0x00], vec![0x02], vec![0x03], vec![])
        .unwrap_err();
    assert_eq!(
        err,
        ScenarioError::DuplicateName {
            name: "faucet".to_string()
        }
    );
    assert_eq!(world.address_of("anonymous"), None);
    assert_eq!(world.address_of("faucet"), Some(vec![0x07]));
}

#[test]
fn typed_accessors_treat_wrong_kind_as_absent() {
    let mut world = World::new();
    world
        .insert_var("a", WorldVar::Address(vec![0x01]))
        .unwrap();
    assert!(world.symbol("a").is_none());
    assert!(world.identity("a").is_none());
    assert!(world.response("a").is_none());
    assert!(world.cbor("a").is_none());
    assert_eq!(world.address_of("a"), Some(vec![0x01]));
}

#[test]
fn response_accessors_distinguish_success_from_error() {
    let mut world = World::new();
    world
        .insert_var(
            "good",
            WorldVar::Response(ResponseRecord {
                data: Ok(vec![0x05]),
            }),
        )
        .unwrap();
    world
        .insert_var("bad", WorldVar::Response(ResponseRecord { data: Err(4) }))
        .unwrap();
    assert_eq!(world.response_cbor("good"), Ok(Some(vec![0x05])));
    assert_eq!(
        world.response_cbor("bad"),
        Err(ScenarioError::ErrorResponse {
            name: "bad".to_string(),
            code: 4
        })
    );
    assert_eq!(world.response_cbor("missing"), Ok(None));
    assert!(world.response("bad").is_some());
}

#[test]
fn new_identity_binds_the_address() {
    let mut world = World::new();
    let id = Identifier::from_str("alice").unwrap();
    world.new_identity(&id, vec![0x0a, 0x0b]).unwrap();
    assert_eq!(world.identity("alice"), Some(vec![0x0a, 0x0b]));
    assert_eq!(world.address_of("alice"), Some(vec![0x0a, 0x0b]));
}

#[test]
fn identifier_and_method_round_trip_their_text() {
    let id = Identifier::from_str("some_name").unwrap();
    assert_eq!(id.to_string(), "some_name");
    assert_eq!(id.as_ref(), "some_name");
    let method = Method::from_str("ledger.send").unwrap();
    assert_eq!(method.into_string(), "ledger.send");
}

#[test]
fn reseeding_keeps_the_environment() {
    let mut world = World::new();
    world
        .insert_var("x", WorldVar::Address(vec![0x01]))
        .unwrap();
    world.seed(99);
    assert_eq!(world.address_of("x"), Some(vec![0x01]));
}
