use panda::builder::{build_request_plan, BodyPlan, RequestError};
use panda::schema::{
    BodyText, FormContent, FormPayload, HttpMethod, PandaTomlRequest, RequestParams, ScalarValue,
};

fn empty_params(url: &str) -> RequestParams {
    RequestParams {
        url: url.to_string(),
        name: None,
        query: None,
        headers: None,
        text: None,
        json: None,
        form_multipart: None,
        form_urlencoded: None,
        xml: None,
    }
}

fn empty_schema() -> PandaTomlRequest {
    PandaTomlRequest {
        get: None,
        head: None,
        post: None,
        put: None,
        patch: None,
        delete: None,
        options: None,
    }
}

#[test]
fn earliest_method_block_wins() {
    let mut req = empty_schema();
    req.post = Some(empty_params("https://example.com/b"));
    req.get = Some(empty_params("https://example.com/a"));
    req.delete = Some(empty_params("https://example.com/c"));
    let plan = build_request_plan(req).unwrap();
    assert!(matches!(plan.method, HttpMethod::Get));
    assert_eq!(plan.url, "https://example.com/a");
}

#[test]
fn head_beats_post() {
    let mut req = empty_schema();
    req.post = Some(empty_params("https://example.com/post"));
    req.head = Some(empty_params("https://example.com/head"));
    let plan = build_request_plan(req).unwrap();
    assert!(matches!(plan.method, HttpMethod::Head));
}

#[test]
fn no_method_block_is_rejected() {
    let err = build_request_plan(empty_schema()).unwrap_err();
    assert!(matches!(err, RequestError::InvalidMethod));
    assert_eq!(err.message(), "Invalid or unsupported request method");
}

#[test]
fn empty_url_is_rejected() {
    let mut req = empty_schema();
    req.get = Some(empty_params(""));
    let err = build_request_plan(req).unwrap_err();
    assert!(matches!(err, RequestError::EmptyUrl));
    assert_eq!(err.message(), "Please provide a valid request url.");
}

#[test]
fn text_body_beats_json_body() {
    let mut req = empty_schema();
    let mut params = empty_params("https://example.com");
    params.text = Some(BodyText { content: "raw payload".to_string() });
    params.json = Some(BodyText { content: "{\"a\": 1}".to_string() });
    req.post = Some(params);
    let plan = build_request_plan(req).unwrap();
    match plan.body {
        BodyPlan::RawText(t) => assert_eq!(t, "raw payload"),
        _ => panic!("expected the raw text body to be honored"),
    }
}

#[test]
fn json_body_is_validated_and_reencoded() {
    let mut req = empty_schema();
    let mut params = empty_params("https://example.com");
    params.json = Some(BodyText { content: "{\"a\": 1, \"b\": [true, null]}".to_string() });
    req.post = Some(params);
    let plan = build_request_plan(req).unwrap();
    match plan.body {
        BodyPlan::JsonPayload(t) => assert_eq!(t, "{\"a\":1,\"b\":[true,null]}"),
        _ => panic!("expected a JSON payload"),
    }
}

#[test]
fn invalid_json_body_is_rejected() {
    let mut req = empty_schema();
    let mut params = empty_params("https://example.com");
    params.json = Some(BodyText { content: "{not json".to_string() });
    req.post = Some(params);
    let err = build_request_plan(req).unwrap_err();
    match err {
        RequestError::InvalidJsonBody(msg) => assert!(msg.len() > 0),
        _ => panic!("expected the JSON body to be rejected"),
    }
}

#[test]
fn multipart_fields_keep_their_order() {
    let mut req = empty_schema();
    let mut params = empty_params("https://example.com");
    params.form_multipart = Some(FormPayload {
        content: vec![
            FormContent { field: "z".to_string(), value: "1".to_string() },
            FormContent { field: "a".to_string(), value: "2".to_string() },
        ],
    });
    req.post = Some(params);
    let plan = build_request_plan(req).unwrap();
    match plan.body {
        BodyPlan::Multipart(fs) => {
            assert_eq!(fs.len(), 2);
            assert_eq!(fs[0].field, "z");
            assert_eq!(fs[0].value, "1");
            assert_eq!(fs[1].field, "a");
        },
        _ => panic!("expected a multipart body"),
    }
}

#[test]
fn urlencoded_fields_keep_their_order() {
    let mut req = empty_schema();
    let mut params = empty_params("https://example.com");
    params.form_urlencoded = Some(FormPayload {
        content: vec![
            FormContent { field: "b".to_string(), value: "x".to_string() },
            FormContent { field: "a".to_string(), value: "y".to_string() },
        ],
    });
    req.put = Some(params);
    let plan = build_request_plan(req).unwrap();
    match plan.body {
        BodyPlan::UrlEncoded(fs) => {
            assert_eq!(fs.len(), 2);
            assert_eq!(fs[0].field, "b");
            assert_eq!(fs[1].field, "a");
        },
        _ => panic!("expected a url-encoded body"),
    }
}

#[test]
fn xml_body_is_recognized_but_inert() {
    let mut req = empty_schema();
    let mut params = empty_params("https://example.com");
    params.xml = Some(BodyText { content: "<a/>".to_string() });
    req.post = Some(params);
    let plan = build_request_plan(req).unwrap();
    assert!(matches!(plan.body, BodyPlan::NoBody));
}

#[test]
fn query_pairs_are_appended_to_the_url() {
    let mut req = empty_schema();
    let mut params = empty_params("https://fakestoreapi.com/products");
    params.query = Some(vec![
        ("limit".to_string(), ScalarValue::Number("20".to_string())),
        ("page".to_string(), ScalarValue::Number("1".to_string())),
    ]);
    req.get = Some(params);
    let plan = build_request_plan(req).unwrap();
    assert_eq!(plan.url, "https://fakestoreapi.com/products?limit=20&page=1");
}

#[test]
fn string_query_value_keeps_its_rendered_quotes() {
    let mut req = empty_schema();
    let mut params = empty_params("https://example.com/posts");
    params.query = Some(vec![
        ("userId".to_string(), ScalarValue::Text("1234".to_string())),
    ]);
    req.get = Some(params);
    let plan = build_request_plan(req).unwrap();
    assert_eq!(plan.url, "https://example.com/posts?userId=%221234%22");
}

#[test]
fn unparseable_url_with_query_is_rejected() {
    let mut req = empty_schema();
    let mut params = empty_params("not a url");
    params.query = Some(vec![
        ("a".to_string(), ScalarValue::Number("1".to_string())),
    ]);
    req.get = Some(params);
    let err = build_request_plan(req).unwrap_err();
    assert!(matches!(err, RequestError::InvalidQuery));
}

#[test]
fn url_without_query_is_not_parsed() {
    let mut req = empty_schema();
    req.get = Some(empty_params("not a url"));
    let plan = build_request_plan(req).unwrap();
    assert_eq!(plan.url, "not a url");
}

#[test]
fn user_agent_is_injected_before_user_headers() {
    let mut req = empty_schema();
    let mut params = empty_params("https://example.com");
    params.headers = Some(vec![
        ("Accept".to_string(), ScalarValue::Text("application/json".to_string())),
        ("User-Agent".to_string(), ScalarValue::Text("custom".to_string())),
    ]);
    req.get = Some(params);
    let plan = build_request_plan(req).unwrap();
    assert_eq!(plan.headers.len(), 3);
    assert_eq!(plan.headers[0].0, "User-Agent");
    assert_eq!(plan.headers[0].1, "Worm");
    assert_eq!(plan.headers[1].0, "Accept");
    assert_eq!(plan.headers[1].1, "application/json");
    assert_eq!(plan.headers[2].0, "User-Agent");
    assert_eq!(plan.headers[2].1, "custom");
}

#[test]
fn schema_without_headers_sets_none() {
    let mut req = empty_schema();
    req.get = Some(empty_params("https://example.com"));
    let plan = build_request_plan(req).unwrap();
    assert_eq!(plan.headers.len(), 0);
}

#[test]
fn numeric_header_value_is_rejected() {
    let mut req = empty_schema();
    let mut params = empty_params("https://example.com");
    params.headers = Some(vec![
        ("X-Limit".to_string(), ScalarValue::Number("5".to_string())),
    ]);
    req.get = Some(params);
    let err = build_request_plan(req).unwrap_err();
    assert!(matches!(err, RequestError::InvalidHeaderValue));
    assert_eq!(
        err.message(),
        "Invalid request value, you may have provided a number."
    );
}

#[test]
fn empty_header_name_is_rejected() {
    let mut req = empty_schema();
    let mut params = empty_params("https://example.com");
    params.headers = Some(vec![
        ("".to_string(), ScalarValue::Text("x".to_string())),
    ]);
    req.get = Some(params);
    let err = build_request_plan(req).unwrap_err();
    assert!(matches!(err, RequestError::InvalidHeaderKey));
    assert_eq!(err.message(), "Invalid request header");
}

#[test]
fn method_names_are_lower_case() {
    assert_eq!(HttpMethod::Get.name(), "get");
    assert_eq!(HttpMethod::Options.name(), "options");
    assert_eq!(HttpMethod::Delete.name(), "delete");
}
