use gherkin_tests::params::Cbor;
use gherkin_tests::world::World;
use gherkin_tests::ScenarioError;

fn render_text(world: &mut World, template: &str) -> String {
    let cbor = Cbor::from_str(template).expect("template should parse");
    world
        .render_cbor_string(&cbor)
        .expect("template should render")
}

#[test]
fn plain_text_renders_unchanged() {
    let mut world = World::new();
    assert_eq!(render_text(&mut world, "hello world"), "hello world");
}

#[test]
fn empty_template_renders_empty() {
    let mut world = World::new();
    assert_eq!(render_text(&mut world, ""), "");
}

#[test]
fn escaped_percent_renders_one_percent() {
    let mut world = World::new();
    assert_eq!(render_text(&mut world, "abc%%def"), "abc%def");
}

#[test]
fn double_escape_renders_two_percents() {
    let mut world = World::new();
    assert_eq!(render_text(&mut world, "%%%%"), "%%");
}

#[test]
fn lone_percent_is_a_syntax_error() {
    let err = Cbor::from_str("50% off").unwrap_err();
    assert_eq!(err, ScenarioError::Syntax { at: 2 });
}

#[test]
fn trailing_percent_is_a_syntax_error() {
    let err = Cbor::from_str("abc%").unwrap_err();
    assert_eq!(err, ScenarioError::Syntax { at: 3 });
}

#[test]
fn unclosed_directive_is_a_syntax_error() {
    let err = Cbor::from_str("%(hex:4").unwrap_err();
    assert_eq!(err, ScenarioError::Syntax { at: 0 });
}

#[test]
fn unknown_generator_names_the_token() {
    let err = Cbor::from_str("%(foo:3)").unwrap_err();
    assert_eq!(
        err,
        ScenarioError::UnknownGenerator {
            name: "foo".to_string()
        }
    );
}

#[test]
fn hex_without_length_is_a_parameter_error() {
    let err = Cbor::from_str("%(hex:)").unwrap_err();
    assert_eq!(
        err,
        ScenarioError::BadParameter {
            input: "hex:".to_string()
        }
    );
}

#[test]
fn inverted_range_is_a_parameter_error() {
    let err = Cbor::from_str("%(int:5:3)").unwrap_err();
    assert_eq!(
        err,
        ScenarioError::BadParameter {
            input: "int:5:3".to_string()
        }
    );
}

#[test]
fn oversized_length_is_a_parameter_error() {
    let err = Cbor::from_str("%(hex:99999999999999999999)").unwrap_err();
    assert_eq!(
        err,
        ScenarioError::BadParameter {
            input: "hex:99999999999999999999".to_string()
        }
    );
}
