use skit::http_inputs::HttpInputBinding;
use skit::multipart_routing::{FieldRoute, MultipartRouter};

fn binding(field: &str, required: bool) -> HttpInputBinding {
    HttpInputBinding {
        node_id: "in".to_string(),
        field_name: field.to_string(),
        output_pin: field.to_string(),
        required,
    }
}

#[test]
fn fields_are_routed_once_and_required_ones_tracked() {
    let mut router = MultipartRouter::new(&vec![binding("media", true), binding("extra", false)]);
    assert_eq!(router.on_field(""), FieldRoute::Skip);
    assert_eq!(router.on_field("extra"), FieldRoute::Route { all_required_seen: false });
    assert_eq!(
        router.on_field("extra"),
        FieldRoute::Unexpected("Unexpected multipart field 'extra'. Expected: media".to_string())
    );
    assert_eq!(router.on_field("media"), FieldRoute::Route { all_required_seen: true });
    assert_eq!(
        router.on_field("other"),
        FieldRoute::Unexpected("Unexpected multipart field 'other'. Expected: none".to_string())
    );
    assert!(router.finish().is_ok());
}

#[test]
fn missing_required_fields_refuse_the_request() {
    let router = MultipartRouter::new(&vec![binding("media", true), binding("voice", true)]);
    assert_eq!(router.finish().unwrap_err(), "Missing required multipart field(s): media, voice");
    let mut router = MultipartRouter::new(&vec![binding("media", true), binding("voice", true)]);
    assert_eq!(router.on_field("voice"), FieldRoute::Route { all_required_seen: false });
    assert_eq!(router.finish().unwrap_err(), "Missing required multipart field(s): media");
    let optional = MultipartRouter::new(&vec![binding("extra", false)]);
    assert!(optional.finish().is_ok());
}

#[test]
fn expected_and_missing_fields_follow_binding_order() {
    let bindings = vec![binding("zeta", true), binding("alpha", false), binding("mid", true), binding("zeta", true)];
    let mut router = MultipartRouter::new(&bindings);
    match router.on_field("other") {
        FieldRoute::Unexpected(m) => assert_eq!(m, "Unexpected multipart field 'other'. Expected: zeta, alpha, mid"),
        other => panic!("unexpected {other:?}"),
    }
    let router = MultipartRouter::new(&bindings);
    assert_eq!(router.finish().unwrap_err(), "Missing required multipart field(s): zeta, mid");
}
