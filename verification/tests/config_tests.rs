use ruxel::config::{Act, Config, ImportError};
use ruxel::json::JsonValue;

fn s(text: &str) -> JsonValue {
    JsonValue::Str(text.to_string())
}

fn field(key: &str, value: JsonValue) -> (String, JsonValue) {
    (key.to_string(), value)
}

fn addon(name: &str, port: i64, cmd: &str, args: Vec<JsonValue>) -> JsonValue {
    JsonValue::Obj(vec![
        field("name", s(name)),
        field("port", JsonValue::Int(port)),
        field(
            "start",
            JsonValue::Obj(vec![
                field("cmd", s(cmd)),
                field("dir", s(".")),
                field("args", JsonValue::Arr(args)),
                field("expect", s("failed to start")),
            ]),
        ),
    ])
}

fn target(name: &str, route: &str) -> JsonValue {
    JsonValue::Obj(vec![field("addon", s(name)), field("route", s(route))])
}

fn sample_config() -> JsonValue {
    JsonValue::Obj(vec![
        field(
            "addons",
            JsonValue::Arr(vec![
                addon("core", 3000, "", vec![]),
                addon("paint", 3001, "paintd", vec![s("--core"), s("core.port")]),
                addon("log", 3002, "logd", vec![]),
            ]),
        ),
        field(
            "proxies",
            JsonValue::Arr(vec![JsonValue::Obj(vec![
                field("addon", s("paint")),
                field("route", s("draw")),
                field("proxy_route", s("/paint")),
            ])]),
        ),
        field(
            "mode",
            JsonValue::Obj(vec![
                field("default", JsonValue::Arr(vec![target("core", "cmd")])),
                field(
                    "paint",
                    JsonValue::Arr(vec![
                        target("paint", "a"),
                        target("log", "b"),
                        target("core", "c"),
                    ]),
                ),
            ]),
        ),
    ])
}

#[test]
fn import_accepts_a_valid_configuration() {
    let c = Config::import(&sample_config()).unwrap();
    assert_eq!(c.addons.len(), 3);
    assert_eq!(c.addons[1].name, "paint");
    assert_eq!(c.addons[1].port, 3001);
    assert_eq!(c.proxies.len(), 1);
    assert_eq!(c.proxies[0].addon_idx, 1);
    assert_eq!(c.modes.len(), 2);
}

#[test]
fn import_resolves_every_reference() {
    // every addon name used in proxies and modes resolves at import time
    let c = Config::import(&sample_config()).unwrap();
    for p in &c.proxies {
        assert!(p.addon_idx < c.addons.len());
    }
    for (_, acts) in &c.modes {
        for act in acts {
            assert!(c.addons.iter().any(|a| a.port == act.port));
        }
    }
}

#[test]
fn import_accepts_an_empty_configuration() {
    let v = JsonValue::Obj(vec![
        field("addons", JsonValue::Arr(vec![])),
        field("proxies", JsonValue::Arr(vec![])),
        field("mode", JsonValue::Obj(vec![])),
    ]);
    let c = Config::import(&v).unwrap();
    assert!(c.addons.is_empty());
    assert!(c.proxies.is_empty());
    assert!(c.modes.is_empty());
}

#[test]
fn import_rejects_missing_addons_field() {
    let v = JsonValue::Obj(vec![]);
    assert_eq!(
        Config::import(&v).unwrap_err(),
        ImportError::MissingField("addons".to_string())
    );
}

#[test]
fn import_rejects_missing_name() {
    let v = JsonValue::Obj(vec![field(
        "addons",
        JsonValue::Arr(vec![JsonValue::Obj(vec![field("port", JsonValue::Int(1))])]),
    )]);
    assert_eq!(
        Config::import(&v).unwrap_err(),
        ImportError::MissingField("name".to_string())
    );
}

#[test]
fn import_rejects_port_out_of_range() {
    let v = JsonValue::Obj(vec![field(
        "addons",
        JsonValue::Arr(vec![addon("a", 0, "", vec![])]),
    )]);
    assert_eq!(
        Config::import(&v).unwrap_err(),
        ImportError::Malformed("port".to_string())
    );
    let w = JsonValue::Obj(vec![field(
        "addons",
        JsonValue::Arr(vec![addon("a", 65536, "", vec![])]),
    )]);
    assert_eq!(
        Config::import(&w).unwrap_err(),
        ImportError::Malformed("port".to_string())
    );
}

#[test]
fn import_rejects_port_of_wrong_type() {
    let v = JsonValue::Obj(vec![field(
        "addons",
        JsonValue::Arr(vec![JsonValue::Obj(vec![
            field("name", s("a")),
            field("port", s("3000")),
        ])]),
    )]);
    assert_eq!(
        Config::import(&v).unwrap_err(),
        ImportError::Malformed("port".to_string())
    );
}

#[test]
fn import_rejects_duplicate_names() {
    let v = JsonValue::Obj(vec![field(
        "addons",
        JsonValue::Arr(vec![addon("a", 1, "", vec![]), addon("a", 2, "", vec![])]),
    )]);
    assert_eq!(
        Config::import(&v).unwrap_err(),
        ImportError::Malformed("name".to_string())
    );
}

#[test]
fn import_rejects_duplicate_ports() {
    let v = JsonValue::Obj(vec![field(
        "addons",
        JsonValue::Arr(vec![addon("a", 1, "", vec![]), addon("b", 1, "", vec![])]),
    )]);
    assert_eq!(
        Config::import(&v).unwrap_err(),
        ImportError::Malformed("port".to_string())
    );
}

#[test]
fn import_rejects_unresolvable_port_argument() {
    let v = JsonValue::Obj(vec![field(
        "addons",
        JsonValue::Arr(vec![addon("a", 1, "ad", vec![s("ghost.port")])]),
    )]);
    assert_eq!(
        Config::import(&v).unwrap_err(),
        ImportError::Malformed("args".to_string())
    );
}

#[test]
fn import_rejects_dangling_proxy_addon() {
    let v = JsonValue::Obj(vec![
        field("addons", JsonValue::Arr(vec![addon("a", 1, "", vec![])])),
        field(
            "proxies",
            JsonValue::Arr(vec![JsonValue::Obj(vec![
                field("addon", s("ghost")),
                field("route", s("r")),
                field("proxy_route", s("/r")),
            ])]),
        ),
        field("mode", JsonValue::Obj(vec![])),
    ]);
    assert_eq!(
        Config::import(&v).unwrap_err(),
        ImportError::Malformed("addon".to_string())
    );
}

#[test]
fn import_rejects_mode_entry_that_is_no_array() {
    let v = JsonValue::Obj(vec![
        field("addons", JsonValue::Arr(vec![addon("a", 1, "", vec![])])),
        field("proxies", JsonValue::Arr(vec![])),
        field("mode", JsonValue::Obj(vec![field("default", s("oops"))])),
    ]);
    assert_eq!(
        Config::import(&v).unwrap_err(),
        ImportError::Malformed("mode".to_string())
    );
}

#[test]
fn core_port_finds_the_core_addon() {
    let c = Config::import(&sample_config()).unwrap();
    assert_eq!(c.core_port(), 3000);
}

#[test]
fn resolve_arg_substitutes_ports() {
    let c = Config::import(&sample_config()).unwrap();
    assert_eq!(c.resolve_arg(&"core.port".to_string()), "3000");
    assert_eq!(c.resolve_arg(&"paint.port".to_string()), "3001");
    assert_eq!(c.resolve_arg(&"--core".to_string()), "--core");
    assert_eq!(c.resolve_arg(&"port".to_string()), "port");
}

#[test]
fn launch_plans_skip_commandless_addons_and_resolve_args() {
    let c = Config::import(&sample_config()).unwrap();
    let plans = c.launch_plans();
    assert_eq!(plans.len(), 2);
    assert_eq!(plans[0].cmd, "paintd");
    assert_eq!(plans[0].args, vec!["--core".to_string(), "3000".to_string()]);
    assert_eq!(plans[0].expect, "failed to start");
    assert_eq!(plans[1].cmd, "logd");
}

#[test]
fn acts_for_mode_prefers_the_named_mode() {
    let c = Config::import(&sample_config()).unwrap();
    let acts = c.acts_for_mode("paint");
    assert_eq!(acts.len(), 3);
    assert_eq!(acts[0].port, 3001);
    assert_eq!(acts[1].port, 3002);
    assert_eq!(acts[2].port, 3000);
}

#[test]
fn acts_for_mode_falls_back_to_default() {
    let c = Config::import(&sample_config()).unwrap();
    let acts = c.acts_for_mode("unknown");
    assert_eq!(acts.len(), 1);
    assert_eq!(acts[0].port, 3000);
    assert_eq!(acts[0].route, "cmd");
}

#[test]
fn acts_for_mode_without_default_is_empty() {
    let v = JsonValue::Obj(vec![
        field("addons", JsonValue::Arr(vec![addon("a", 1, "", vec![])])),
        field("proxies", JsonValue::Arr(vec![])),
        field("mode", JsonValue::Obj(vec![])),
    ]);
    let c = Config::import(&v).unwrap();
    assert!(c.acts_for_mode("anything").is_empty());
}

#[test]
fn dispatch_urls_keep_declaration_order() {
    // three targets configured for one mode arrive in declaration order
    let c = Config::import(&sample_config()).unwrap();
    let urls = c.dispatch_urls("paint");
    assert_eq!(
        urls,
        vec![
            "http://localhost:3001/a".to_string(),
            "http://localhost:3002/b".to_string(),
            "http://localhost:3000/c".to_string(),
        ]
    );
}

#[test]
fn act_url_shape() {
    let act = Act { port: 8080, route: "cmd".to_string() };
    assert_eq!(act.as_url(), "http://localhost:8080/cmd");
}

#[test]
fn proxy_plans_map_public_routes_to_target_urls() {
    let c = Config::import(&sample_config()).unwrap();
    let plans = c.proxy_plans();
    assert_eq!(plans.len(), 1);
    assert_eq!(plans[0].0, "/paint");
    assert_eq!(plans[0].1, "http://localhost:3001/draw");
}
