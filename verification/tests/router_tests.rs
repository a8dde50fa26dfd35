use ruxel::json::JsonValue;
use ruxel::router::{
    canvas_info_string, crop_params, normalize_command, proxy_reply, route_command, ProxyError,
    Routing,
};

fn dispatch(r: Routing) -> (String, String) {
    match r {
        Routing::Dispatch { mode, param } => (mode, param),
        Routing::Switch { .. } => panic!("expected a dispatch"),
    }
}

fn switch(r: Routing) -> String {
    match r {
        Routing::Switch { mode } => mode,
        Routing::Dispatch { .. } => panic!("expected a mode switch"),
    }
}

#[test]
fn normalization_strips_trailing_whitespace_only() {
    assert_eq!(normalize_command("abc\n"), "abc");
    assert_eq!(normalize_command("abc\r\n"), "abc");
    assert_eq!(normalize_command("abc"), "abc");
    assert_eq!(normalize_command("abc  \t "), "abc");
    assert_eq!(normalize_command("  a b"), "  a b");
    assert_eq!(normalize_command(" \n "), "");
}

#[test]
fn switch_command_changes_only_the_mode() {
    let r = route_command(":paint", "default");
    assert_eq!(switch(r), "paint");
}

#[test]
fn plain_command_goes_to_the_active_mode() {
    let (mode, param) = dispatch(route_command("abc", "paint"));
    assert_eq!(mode, "paint");
    assert_eq!(param, "abc");
}

#[test]
fn switch_then_plain_dispatches_to_the_new_mode() {
    // ":paint" then "abc": the dispatch goes to paint's targets
    let active = "default".to_string();
    let new_mode = switch(route_command(":paint", &active));
    assert_eq!(new_mode, "paint");
    let (mode, param) = dispatch(route_command("abc", &new_mode));
    assert_eq!(mode, "paint");
    assert_eq!(param, "abc");
}

#[test]
fn eager_command_dispatches_without_switching() {
    let (mode, param) = dispatch(route_command("-paint xyz", "default"));
    assert_eq!(mode, "paint");
    assert_eq!(param, "xyz");
}

#[test]
fn eager_parameter_keeps_inner_whitespace() {
    let (mode, param) = dispatch(route_command("-p a b", "default"));
    assert_eq!(mode, "p");
    assert_eq!(param, "a b");
}

#[test]
fn lone_dash_is_a_plain_command() {
    let (mode, param) = dispatch(route_command("-", "m"));
    assert_eq!(mode, "m");
    assert_eq!(param, "-");
}

#[test]
fn colon_with_inner_whitespace_is_a_plain_command() {
    let (mode, param) = dispatch(route_command(":two words", "m"));
    assert_eq!(mode, "m");
    assert_eq!(param, ":two words");
}

#[test]
fn lone_colon_is_a_plain_command() {
    let (mode, param) = dispatch(route_command(":", "m"));
    assert_eq!(mode, "m");
    assert_eq!(param, ":");
}

#[test]
fn empty_command_goes_to_the_active_mode() {
    let (mode, param) = dispatch(route_command("", "m"));
    assert_eq!(mode, "m");
    assert_eq!(param, "");
}

#[test]
fn trailing_terminators_route_identically() {
    let a = dispatch(route_command("abc", "m"));
    let b = dispatch(route_command("abc\n", "m"));
    let c = dispatch(route_command("abc\r\n", "m"));
    assert_eq!(a, b);
    assert_eq!(a, c);
    assert_eq!(switch(route_command(":p\n", "m")), "p");
}

#[test]
fn proxy_reply_returns_the_body_verbatim() {
    let body = vec![0u8, 1, 2, 255];
    let r = proxy_reply(Some(body.clone()));
    assert_eq!(r.unwrap(), body);
    let empty = proxy_reply(Some(Vec::new()));
    assert_eq!(empty.unwrap(), Vec::<u8>::new());
}

#[test]
fn proxy_failure_is_distinguishable_from_empty_success() {
    let r = proxy_reply(None);
    assert_eq!(r.unwrap_err(), ProxyError::AddonUnreachable);
    assert!(proxy_reply(Some(Vec::new())).is_ok());
}

#[test]
fn canvas_info_text() {
    assert_eq!(canvas_info_string(4, 5), "\"width\":4,\"height\":5");
    assert_eq!(canvas_info_string(0, 1920), "\"width\":0,\"height\":1920");
}

#[test]
fn crop_params_read_fields_with_defaults() {
    let info = JsonValue::Obj(vec![
        ("x".to_string(), JsonValue::Int(1)),
        ("y".to_string(), JsonValue::Int(2)),
    ]);
    assert_eq!(crop_params(&info, 640, 480), (1, 2, 640, 480));
    let empty = JsonValue::Obj(vec![]);
    assert_eq!(crop_params(&empty, 7, 8), (0, 0, 7, 8));
}

#[test]
fn crop_params_wrap_like_a_cast() {
    let info = JsonValue::Obj(vec![
        ("x".to_string(), JsonValue::Int(-1)),
        ("width".to_string(), JsonValue::Int(4294967296 + 9)),
    ]);
    assert_eq!(crop_params(&info, 640, 480), (4294967295, 0, 9, 480));
}
