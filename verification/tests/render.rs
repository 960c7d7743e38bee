use gherkin_tests::params::Cbor;
use gherkin_tests::world::{ResponseRecord, World, WorldVar};
use gherkin_tests::ScenarioError;

#[test]
fn hex_directive_is_reproducible_per_seed() {
    let template = Cbor::from_str("%(hex:4)").unwrap();
    let mut world = World::new();
    world.seed(42);
    let first = world.render_cbor_string(&template).unwrap();
    world.seed(42);
    let second = world.render_cbor_string(&template).unwrap();
    assert_eq!(first, second);
    assert_eq!(first.len(), 8);
    assert!(first.chars().all(|c| c.is_ascii_hexdigit()));
    world.seed(43);
    let other = world.render_cbor_string(&template).unwrap();
    assert_ne!(first, other);
}

#[test]
fn isolated_scenarios_with_equal_seeds_render_equally() {
    let template = Cbor::from_str("[%(hex:2), %(int:0:99)]").unwrap();
    let mut first_world = World::new();
    first_world.seed(7);
    let mut second_world = World::new();
    second_world.seed(7);
    assert_eq!(
        first_world.render_cbor_string(&template).unwrap(),
        second_world.render_cbor_string(&template).unwrap()
    );
}

#[test]
fn singleton_int_range_renders_the_value() {
    let mut world = World::new();
    let template = Cbor::from_str("%(int:7:7)").unwrap();
    assert_eq!(world.render_cbor_string(&template).unwrap(), "7");
    let template = Cbor::from_str("%(int:1000:1000)").unwrap();
    assert_eq!(world.render_cbor_string(&template).unwrap(), "1000");
}

#[test]
fn int_range_stays_in_bounds() {
    let mut world = World::new();
    let template = Cbor::from_str("%(int:3:6)").unwrap();
    for _ in 0..20 {
        let text = world.render_cbor_string(&template).unwrap();
        let value: u64 = text.parse().unwrap();
        assert!((3..=6).contains(&value));
    }
}

#[test]
fn address_variable_renders_as_byte_string_literal() {
    let mut world = World::new();
    world
        .insert_var("x", WorldVar::Address(vec![0xab, 0xcd, 0x01]))
        .unwrap();
    let template = Cbor::from_str("%(var:x)").unwrap();
    assert_eq!(world.render_cbor_string(&template).unwrap(), "h'abcd01'");
}

#[test]
fn identity_and_symbol_render_like_addresses() {
    let mut world = World::new();
    world
        .insert_var("id", WorldVar::Identity(vec![0x00, 0xff]))
        .unwrap();
    world
        .insert_var("sym", WorldVar::Symbol(vec![0x10]))
        .unwrap();
    let template = Cbor::from_str("[%(var:id), %(var:sym)]").unwrap();
    assert_eq!(
        world.render_cbor_string(&template).unwrap(),
        "[h'00ff', h'10']"
    );
}

#[test]
fn template_variable_renders_recursively() {
    let mut world = World::new();
    let inner = Cbor::from_str("123").unwrap();
    world.register_cbor("t", inner).unwrap();
    let template = Cbor::from_str("[%(var:t)]").unwrap();
    assert_eq!(world.render_cbor_string(&template).unwrap(), "[123]");
}

#[test]
fn self_referential_template_fails_with_depth_error() {
    let mut world = World::new();
    let knot = Cbor::from_str("%(var:knot)").unwrap();
    world.register_cbor("knot", knot).unwrap();
    let template = Cbor::from_str("%(var:knot)").unwrap();
    assert_eq!(
        world.render_cbor_string(&template).unwrap_err(),
        ScenarioError::DepthExceeded
    );
}

#[test]
fn response_variable_cannot_be_rendered() {
    let mut world = World::new();
    world
        .insert_var(
            "r",
            WorldVar::Response(ResponseRecord {
                data: Ok(vec![0x05]),
            }),
        )
        .unwrap();
    let template = Cbor::from_str("%(var:r)").unwrap();
    assert_eq!(
        world.render_cbor_string(&template).unwrap_err(),
        ScenarioError::CannotRender {
            name: "r".to_string()
        }
    );
}

#[test]
fn missing_variable_fails_at_render_time() {
    let mut world = World::new();
    let template = Cbor::from_str("%(var:nope)").unwrap();
    assert_eq!(
        world.render_cbor_string(&template).unwrap_err(),
        ScenarioError::MissingVariable {
            name: "nope".to_string()
        }
    );
}

#[test]
fn rendered_notation_compiles_to_cbor_bytes() {
    let mut world = World::new();
    let template = Cbor::from_str("5").unwrap();
    assert_eq!(world.render_cbor(&template).unwrap(), vec![0x05]);
    let template = Cbor::from_str("h'0102'").unwrap();
    assert_eq!(world.render_cbor(&template).unwrap(), vec![0x42, 0x01, 0x02]);
}

#[test]
fn invalid_notation_is_a_notation_error() {
    let mut world = World::new();
    let template = Cbor::from_str("zzz").unwrap();
    match world.render_cbor(&template).unwrap_err() {
        ScenarioError::Notation { message } => assert!(!message.is_empty()),
        other => panic!("expected a notation error, got {other:?}"),
    }
}

#[test]
fn world_renders_registered_templates_by_name() {
    let mut world = World::new();
    let template = Cbor::from_str("5").unwrap();
    world.register_cbor("m", template).unwrap();
    assert_eq!(world.render("m").unwrap(), vec![0x05]);
    assert_eq!(
        world.render("missing").unwrap_err(),
        ScenarioError::WrongKind {
            name: "missing".to_string()
        }
    );
}

#[test]
fn rendering_embeds_address_inside_larger_literal() {
    let mut world = World::new();
    world
        .insert_var("a", WorldVar::Address(vec![0x01, 0x02]))
        .unwrap();
    let template = Cbor::from_str("{0: %(var:a)}").unwrap();
    let bytes = world.render_cbor(&template).unwrap();
    assert_eq!(bytes, vec![0xa1, 0x00, 0x42, 0x01, 0x02]);
}
