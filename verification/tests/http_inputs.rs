use skit::http_inputs::{
    determine_http_input_bindings, ConnectionMode, FieldEntry, FieldName, FieldsParam, HttpInputBinding,
    HttpInputParams, PipelineConnection, PipelineNodeInfo,
};

fn node(id: &str, kind: &str, params: Option<HttpInputParams>) -> PipelineNodeInfo {
    PipelineNodeInfo { id: id.to_string(), kind: kind.to_string(), params }
}

fn conn(from: &str, pin: &str, to: &str) -> PipelineConnection {
    PipelineConnection {
        from_node: from.to_string(),
        from_pin: pin.to_string(),
        to_node: to.to_string(),
        to_pin: "in".to_string(),
        mode: ConnectionMode::Reliable,
    }
}

fn view(b: &[HttpInputBinding]) -> Vec<(String, String, String, bool)> {
    b.iter().map(|b| (b.node_id.clone(), b.field_name.clone(), b.output_pin.clone(), b.required)).collect()
}

fn t(n: &str, f: &str, p: &str, r: bool) -> (String, String, String, bool) {
    (n.to_string(), f.to_string(), p.to_string(), r)
}

const HTTP: &str = "streamkit::http_input";

#[test]
fn single_input_binds_media_to_the_legacy_pin() {
    let nodes = vec![node("in", HTTP, None), node("dec", "audio::opus::decoder", None)];
    let b = determine_http_input_bindings(&nodes, &vec![conn("in", "out", "dec")]).expect("bindings");
    assert_eq!(view(&b), vec![t("in", "media", "out", true)]);
}

#[test]
fn fields_list_binds_each_named_field() {
    let params = HttpInputParams {
        fields: FieldsParam::Entries(vec![
            FieldEntry::Text("audio".to_string()),
            FieldEntry::Object { name: FieldName::Text(" text ".to_string()), required: Some(false) },
        ]),
        field: None,
        required: None,
    };
    let nodes = vec![node("in", HTTP, Some(params))];
    let b = determine_http_input_bindings(&nodes, &vec![conn("in", "audio", "x")]).expect("bindings");
    assert_eq!(view(&b), vec![t("in", "audio", "audio", true), t("in", "text", "text", false)]);
}

#[test]
fn single_field_param_adds_optional_media_for_one_input() {
    let params = HttpInputParams { fields: FieldsParam::Absent, field: Some("voice".to_string()), required: Some(false) };
    let nodes = vec![node("in", HTTP, Some(params))];
    let b = determine_http_input_bindings(&nodes, &vec![]).expect("bindings");
    assert_eq!(view(&b), vec![t("in", "voice", "voice", false), t("in", "media", "media", false)]);
}

#[test]
fn several_inputs_default_to_their_node_ids() {
    let nodes = vec![node("a", HTTP, None), node("b", HTTP, None)];
    let b = determine_http_input_bindings(&nodes, &vec![]).expect("bindings");
    assert_eq!(view(&b), vec![t("a", "a", "a", true), t("b", "b", "b", true)]);
}

#[test]
fn malformed_params_are_refused() {
    let both = HttpInputParams {
        fields: FieldsParam::Entries(vec![FieldEntry::Text("x".to_string())]),
        field: Some("y".to_string()),
        required: None,
    };
    let b = determine_http_input_bindings(&vec![node("in", HTTP, Some(both))], &vec![]).expect("fields win");
    assert_eq!(view(&b), vec![t("in", "x", "x", true)]);

    let empty = HttpInputParams { fields: FieldsParam::Entries(vec![]), field: None, required: None };
    let err = determine_http_input_bindings(&vec![node("in", HTTP, Some(empty))], &vec![]).unwrap_err();
    assert_eq!(err, "streamkit::http_input.params.fields must include at least one field");

    let not_array = HttpInputParams { fields: FieldsParam::NotArray, field: None, required: None };
    let err = determine_http_input_bindings(&vec![node("in", HTTP, Some(not_array))], &vec![]).unwrap_err();
    assert_eq!(err, "streamkit::http_input.params.fields must be an array of strings or objects");

    let nameless = HttpInputParams {
        fields: FieldsParam::Entries(vec![FieldEntry::Object { name: FieldName::Missing, required: None }]),
        field: None,
        required: None,
    };
    let err = determine_http_input_bindings(&vec![node("in", HTTP, Some(nameless))], &vec![]).unwrap_err();
    assert_eq!(err, "fields entries must include 'name'");
}

#[test]
fn duplicate_field_names_across_inputs_are_refused() {
    let p = || HttpInputParams { fields: FieldsParam::Absent, field: Some("x".to_string()), required: None };
    let nodes = vec![node("a", HTTP, Some(p())), node("b", HTTP, Some(p()))];
    let err = determine_http_input_bindings(&nodes, &vec![]).unwrap_err();
    assert_eq!(err, "Duplicate multipart field name 'x' across http_input nodes");
}
