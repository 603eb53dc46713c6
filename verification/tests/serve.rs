use physure::cli::server::{
    bad_body_message, bad_route_message, build_catalog, debug_list, find_function, find_module,
    is_authorized, loaded_module_names, method_name, model_source, no_modules_message, not_found_message,
    order_keyword_args, parse_serve_args, plan_request, route_path, unauthorized_message, FunctionSignature,
    HttpMethod, LoadedModule, ModelServerConfig, ModelSource, ParamSignature, RequestPlan,
};

fn s(v: &str) -> String {
    v.to_string()
}

fn hdr(n: &str, v: &str) -> (String, String) {
    (s(n), s(v))
}

#[test]
fn default_config_is_local_without_token() {
    let c = ModelServerConfig::default();
    assert_eq!(c.host, "127.0.0.1");
    assert_eq!(c.port, 8080);
    assert!(c.auth_token.is_none());
}

#[test]
fn auth_accepts_bearer_and_api_key_and_refuses_the_rest() {
    let tok = Some(s("secret-key-123"));
    assert!(is_authorized(&None, &vec![]));
    assert!(!is_authorized(&tok, &vec![]));
    assert!(is_authorized(&tok, &vec![hdr("Authorization", "Bearer secret-key-123")]));
    assert!(is_authorized(&tok, &vec![hdr("authorization", "bearer  secret-key-123 ")]));
    assert!(is_authorized(&tok, &vec![hdr("X-API-Key", "secret-key-123")]));
    assert!(!is_authorized(&tok, &vec![hdr("X-API-Key", " secret-key-123")]));
    assert!(!is_authorized(&tok, &vec![hdr("Authorization", "Bearer wrong")]));
    assert!(!is_authorized(&tok, &vec![hdr("X-Token", "secret-key-123")]));
    assert!(is_authorized(&tok, &vec![hdr("Accept", "*/*"), hdr("x-api-key", "secret-key-123")]));
}

#[test]
fn routes_of_the_model_server() {
    assert!(matches!(plan_request(&HttpMethod::Options, "/anything", false), RequestPlan::Preflight));
    assert!(matches!(plan_request(&HttpMethod::Get, "/health", false), RequestPlan::Unauthorized));
    assert!(matches!(plan_request(&HttpMethod::Get, "/", true), RequestPlan::Health));
    assert!(matches!(plan_request(&HttpMethod::Get, "/api/v1/health/", true), RequestPlan::Health));
    assert!(matches!(plan_request(&HttpMethod::Get, "/catalog?x=1", true), RequestPlan::Catalog));
    assert!(matches!(plan_request(&HttpMethod::Post, "/api/v1/pipeline", true), RequestPlan::Pipeline));
    match plan_request(&HttpMethod::Post, "/api/v1/geom/area_tubo", true) {
        RequestPlan::Invoke { module, function } => {
            assert_eq!(module, "geom");
            assert_eq!(function, "area_tubo");
        }
        _ => panic!("expected an invocation"),
    }
    match plan_request(&HttpMethod::Post, "/api/v1/a/b/c", true) {
        RequestPlan::BadFunctionRoute(p) => assert_eq!(p, "/api/v1/a/b/c"),
        _ => panic!("expected a bad route"),
    }
    match plan_request(&HttpMethod::Get, "/api/v1/geom/area", true) {
        RequestPlan::NotFound(p) => assert_eq!(p, "/api/v1/geom/area"),
        _ => panic!("expected not found"),
    }
    assert_eq!(route_path("/x//?q=/"), vec!['/', 'x']);
}

#[test]
fn messages_of_the_model_server() {
    assert_eq!(unauthorized_message(), "Unauthorized: missing or invalid API token");
    assert_eq!(not_found_message(&HttpMethod::Other(s("PUT")), "/x"), "Not Found: PUT /x");
    assert_eq!(method_name(&HttpMethod::Get), "GET");
    assert_eq!(
        bad_route_message("/api/v1/a"),
        "Invalid function route '/api/v1/a'. Expected /api/v1/:module/:function"
    );
    assert_eq!(debug_list(&vec![s("a"), s("b\"c")]), "[\"a\", \"b\\\"c\"]");
    assert_eq!(debug_list(&vec![]), "[]");
    assert_eq!(bad_body_message(), "Request body must be a JSON object of parameters or {\"args\": [...]}");
    assert_eq!(no_modules_message("d"), "No .phs modules found in 'd'");
}

fn modules() -> Vec<LoadedModule> {
    vec![
        LoadedModule {
            name: s("hydr"),
            functions: vec![FunctionSignature {
                name: s("fuerza_empuje"),
                docstring: Some(s("Hydraulic force")),
                params: vec![
                    ParamSignature { name: s("P"), expected_unit: Some(s("kg/(m*s^2)")) },
                    ParamSignature { name: s("A"), expected_unit: Some(s("m^2")) },
                ],
            }],
        },
        LoadedModule {
            name: s("geom"),
            functions: vec![FunctionSignature {
                name: s("area_tubo"),
                docstring: None,
                params: vec![ParamSignature { name: s("d"), expected_unit: Some(s("m")) }],
            }],
        },
    ]
}

#[test]
fn health_lists_modules_in_order() {
    assert_eq!(loaded_module_names(&modules()), vec![s("geom"), s("hydr")]);
}

#[test]
fn lookups_answer_with_what_exists() {
    let m = modules();
    assert_eq!(find_module(&m, "geom"), Ok(1));
    assert_eq!(
        find_module(&m, "nope"),
        Err(s("Module 'nope' not found. Available modules: [\"geom\", \"hydr\"]"))
    );
    assert_eq!(find_function(&m[1], "area_tubo"), Ok(0));
    assert_eq!(
        find_function(&m[1], "non_existent_fn"),
        Err(s("Function 'non_existent_fn' not found in module 'geom'. Available functions: [\"area_tubo\"]"))
    );
}

#[test]
fn keyword_arguments_follow_parameter_order() {
    let m = modules();
    let params = &m[0].functions[0].params;
    assert_eq!(order_keyword_args(params, &vec![s("A"), s("P")], "hydr", "fuerza_empuje"), Ok(vec![1, 0]));
    assert_eq!(
        order_keyword_args(params, &vec![s("P")], "hydr", "fuerza_empuje"),
        Err(s("Missing required parameter 'A' for hydr.fuerza_empuje()"))
    );
}

#[test]
fn catalog_describes_every_function() {
    let c = build_catalog(&modules());
    assert_eq!(c.status, "success");
    assert_eq!(c.modules.len(), 2);
    let (key, hydr) = &c.modules[0];
    assert_eq!(key, "hydr");
    assert_eq!(hydr.functions[0].0, "fuerza_empuje");
    let f = &hydr.functions[0].1;
    assert_eq!(f.params.len(), 2);
    assert_eq!(f.params[0].name, "P");
    assert_eq!(f.params[0].expected_unit.as_deref(), Some("kg/(m*s^2)"));
    assert_eq!(f.docstring.as_deref(), Some("Hydraulic force"));
}

#[test]
fn serve_command_line() {
    let a: Vec<String> = ["phs", "serve", "models", "--port", "9000", "--host", "0.0.0.0", "--token", "t"]
        .iter()
        .map(|x| x.to_string())
        .collect();
    let o = parse_serve_args(&a);
    assert_eq!(o.target, "models");
    assert_eq!(o.port, 9000);
    assert_eq!(o.host, "0.0.0.0");
    assert_eq!(o.token.as_deref(), Some("t"));
    let b: Vec<String> = ["phs", "serve", "-p", "notaport"].iter().map(|x| x.to_string()).collect();
    let o = parse_serve_args(&b);
    assert_eq!(o.port, 8080);
    assert_eq!(o.target, "notaport");
    assert_eq!(o.host, "127.0.0.1");
    let c: Vec<String> = ["phs", "serve", "-p", "70000"].iter().map(|x| x.to_string()).collect();
    let o = parse_serve_args(&c);
    assert_eq!(o.port, 8080);
    let d: Vec<String> = ["phs", "serve"].iter().map(|x| x.to_string()).collect();
    assert_eq!(parse_serve_args(&d).target, ".");
}

#[test]
fn model_paths_are_classified() {
    assert!(matches!(
        model_source("x/phs.toml", true, false, Some("phs.toml"), Some("toml"), Some("phs"), false),
        ModelSource::Manifest
    ));
    match model_source("a/geom.phs", true, false, Some("geom.phs"), Some("phs"), Some("geom"), false) {
        ModelSource::Script(m) => assert_eq!(m, "geom"),
        _ => panic!("expected a script"),
    }
    match model_source("a.txt", true, false, Some("a.txt"), Some("txt"), Some("a"), false) {
        ModelSource::Refused(m) => assert_eq!(m, "Unrecognized file format 'a.txt'. Expected .phs or phs.toml"),
        _ => panic!("expected a refusal"),
    }
    assert!(matches!(
        model_source("d", false, true, Some("d"), None, Some("d"), true),
        ModelSource::Directory { has_manifest: true }
    ));
    match model_source("gone", false, false, None, None, None, false) {
        ModelSource::Refused(m) => assert_eq!(m, "Path 'gone' does not exist"),
        _ => panic!("expected a refusal"),
    }
}
