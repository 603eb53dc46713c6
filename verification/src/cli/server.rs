//! The model server (`phs serve`): its configuration and command line, token
//! authentication, request routing, the catalog of loaded functions, and the
//! messages it answers errors with. The HTTP transport and the evaluation of
//! formulas stay with the program around it.

use vstd::prelude::*;
use crate::text::{
    ascii_lower_spec, chars_eq, chars_eq_str, chars_of, debug_quoted, debug_str, extend_chars,
    extend_str, has_prefix, parse_unsigned, parse_unsigned_spec, split_once, split_once_spec,
    starts_with, string_from_chars, sub_chars, to_ascii_lower, trim, trim_end_matches,
    trim_end_matches_spec, trim_spec, trim_start_matches, trim_start_matches_spec,
};
use crate::words::{
    find_name, index_of_name, distinct_views, join_spec, join_strings, sorted_names, sorted_views, split_chars, split_spec,
    string_views, views,
};

verus! {

// ---------------------------------------------------------------------------
// Configuration
// ---------------------------------------------------------------------------

/// Where the server listens and which token, if any, it demands.
#[derive(Debug, Clone)]
pub struct ModelServerConfig {
    pub host: String,
    pub port: u16,
    pub auth_token: Option<String>,
}

impl Default for ModelServerConfig {
    /// Local only, on port 8080, without authentication.
    fn default() -> (r: Self)
        ensures
            r.host@ == "127.0.0.1"@,
            r.port == 8080,
            r.auth_token is None,
    {
        ModelServerConfig { host: String::from_str("127.0.0.1"), port: 8080, auth_token: None }
    }
}

// ---------------------------------------------------------------------------
// Authentication
// ---------------------------------------------------------------------------

/// Equality of header names, ignoring ASCII case.
pub open spec fn eq_ignore_case(a: Seq<char>, b: Seq<char>) -> bool {
    ascii_lower_spec(a) == ascii_lower_spec(b)
}

/// The token an `Authorization` header carries: its value without leading
/// `"Bearer "` (then `"bearer "`) prefixes, trimmed.
pub open spec fn bearer_token_spec(value: Seq<char>) -> Seq<char> {
    trim_spec(trim_start_matches_spec(trim_start_matches_spec(value, "Bearer "@), "bearer "@))
}

/// Whether one header presents `token`: an `Authorization` header whose bearer
/// token is it, or an `X-API-Key` header whose value is it.
pub open spec fn header_grants(name: Seq<char>, value: Seq<char>, token: Seq<char>) -> bool {
    ||| eq_ignore_case(name, "authorization"@) && bearer_token_spec(value) == token
    ||| eq_ignore_case(name, "x-api-key"@) && value == token
}

/// A request is let in when no token is configured, or when one of its headers
/// presents the configured token.
pub open spec fn authorized_spec(required: Option<Seq<char>>, headers: Seq<(String, String)>) -> bool {
    ||| required is None
    ||| exists|i: int|
        0 <= i < headers.len() && #[trigger] header_grants(
            headers[i].0@,
            headers[i].1@,
            required->0,
        )
}

proof fn lemma_authorized_by(t: Seq<char>, headers: Seq<(String, String)>, i: int)
    requires
        0 <= i < headers.len(),
        header_grants(headers[i].0@, headers[i].1@, t),
    ensures
        authorized_spec(Some(t), headers),
{
    assert(Some(t)->0 == t);
}

/// The view of an optional string.
pub open spec fn opt_view(o: Option<String>) -> Option<Seq<char>> {
    match o {
        Some(s) => Some(s@),
        None => None,
    }
}

/// Whether a header name is `target` (given in lower case), ignoring ASCII case.
fn name_is(name: &String, target: &str) -> (r: bool)
    requires
        ascii_lower_spec(target@) == target@,
    ensures
        r == eq_ignore_case(name@, target@),
{
    let l = to_ascii_lower(&chars_of(name.as_str()));
    chars_eq_str(&l, target)
}

/// Checks a request's headers against the configured token.
pub fn is_authorized(required: &Option<String>, headers: &Vec<(String, String)>) -> (r: bool)
    ensures
        r == authorized_spec(opt_view(*required), headers@),
{
    match required {
        None => true,
        Some(tok) => {
            proof {
                reveal_strlit("authorization");
                reveal_strlit("x-api-key");
                reveal_strlit("Bearer ");
                reveal_strlit("bearer ");
                assert(ascii_lower_spec("authorization"@) =~= "authorization"@);
                assert(ascii_lower_spec("x-api-key"@) =~= "x-api-key"@);
            }
            assert(opt_view(*required) == Some(tok@));
            let t = chars_of(tok.as_str());
            let bearer = chars_of("Bearer ");
            let lower_bearer = chars_of("bearer ");
            let mut i: usize = 0;
            while i < headers.len()
                invariant
                    i <= headers.len(),
                    t@ == tok@,
                    opt_view(*required) == Some(tok@),
                    bearer@ == "Bearer "@,
                    bearer@.len() > 0,
                    lower_bearer@ == "bearer "@,
                    lower_bearer@.len() > 0,
                    ascii_lower_spec("authorization"@) == "authorization"@,
                    ascii_lower_spec("x-api-key"@) == "x-api-key"@,
                    forall|k: int|
                        0 <= k < i ==> !#[trigger] header_grants(headers@[k].0@, headers@[k].1@, tok@),
                decreases headers.len() - i,
            {
                proof {
                    reveal_strlit("authorization");
                    reveal_strlit("x-api-key");
                    assert("authorization"@.len() != "x-api-key"@.len());
                }
                let name = &headers[i].0;
                let value = chars_of(headers[i].1.as_str());
                if name_is(name, "authorization") {
                    let a = trim_start_matches(&value, &bearer);
                    let b = trim_start_matches(&a, &lower_bearer);
                    let c = trim(&b);
                    if chars_eq(&c, &t) {
                        assert(header_grants(headers@[i as int].0@, headers@[i as int].1@, tok@));
                        proof {
                            lemma_authorized_by(tok@, headers@, i as int);
                        }
                        return true;
                    }
                } else if name_is(name, "x-api-key") && chars_eq(&value, &t) {
                    assert(header_grants(headers@[i as int].0@, headers@[i as int].1@, tok@));
                    proof {
                            lemma_authorized_by(tok@, headers@, i as int);
                        }
                    return true;
                }
                i = i + 1;
            }
            false
        },
    }
}

// ---------------------------------------------------------------------------
// Routing
// ---------------------------------------------------------------------------

/// The HTTP method of a request.
#[derive(Debug, Clone)]
pub enum HttpMethod {
    Get,
    Post,
    Options,
    /// Any other method, by its name.
    Other(String),
}

/// How a method is written.
pub open spec fn method_name_spec(m: HttpMethod) -> Seq<char> {
    match m {
        HttpMethod::Get => "GET"@,
        HttpMethod::Post => "POST"@,
        HttpMethod::Options => "OPTIONS"@,
        HttpMethod::Other(s) => s@,
    }
}

/// How a method is written, as in a `Not Found` message.
pub fn method_name(m: &HttpMethod) -> (r: String)
    ensures
        r@ == method_name_spec(*m),
{
    match m {
        HttpMethod::Get => String::from_str("GET"),
        HttpMethod::Post => String::from_str("POST"),
        HttpMethod::Options => String::from_str("OPTIONS"),
        HttpMethod::Other(s) => string_from_chars(&chars_of(s.as_str())),
    }
}

/// What the server does with a request.
#[derive(Debug, Clone)]
pub enum RequestPlan {
    /// A CORS preflight, answered before authentication.
    Preflight,
    /// Refused with 401: the token was missing or wrong.
    Unauthorized,
    /// `GET /`, `/health` or `/api/v1/health`.
    Health,
    /// `GET /api/v1/catalog` or `/catalog`.
    Catalog,
    /// `POST /api/v1/pipeline` or `/pipeline`.
    Pipeline,
    /// `POST /api/v1/:module/:function`.
    Invoke { module: String, function: String },
    /// A `POST /api/v1/...` path that is not `module/function`; carries the path.
    BadFunctionRoute(String),
    /// Anything else; carries the path.
    NotFound(String),
}

/// The path a request URL routes on: the part before the first `?`, without
/// trailing slashes.
pub open spec fn route_path_spec(url: Seq<char>) -> Seq<char> {
    let p = match split_once_spec(url, '?') {
        Some((a, _)) => a,
        None => url,
    };
    trim_end_matches_spec(p, "/"@)
}

/// What a request means: preflight first, then authentication, then the route.
pub open spec fn plan_spec(
    method: HttpMethod,
    url: Seq<char>,
    authorized: bool,
    plan: RequestPlan,
) -> bool {
    let p = route_path_spec(url);
    if method is Options {
        plan is Preflight
    } else if !authorized {
        plan is Unauthorized
    } else if method is Get && (p == ""@ || p == "/health"@ || p == "/api/v1/health"@) {
        plan is Health
    } else if method is Get && (p == "/api/v1/catalog"@ || p == "/catalog"@) {
        plan is Catalog
    } else if method is Post && (p == "/api/v1/pipeline"@ || p == "/pipeline"@) {
        plan is Pipeline
    } else if method is Post && has_prefix(p, "/api/v1/"@) {
        let segs = split_spec(trim_start_matches_spec(p, "/api/v1/"@), '/');
        if segs.len() == 2 {
            plan matches RequestPlan::Invoke { module, function } && module@ == segs[0]
                && function@ == segs[1]
        } else {
            plan matches RequestPlan::BadFunctionRoute(q) && q@ == p
        }
    } else {
        plan matches RequestPlan::NotFound(q) && q@ == p
    }
}

/// The path a request URL routes on.
pub fn route_path(url: &str) -> (r: Vec<char>)
    ensures
        r@ == route_path_spec(url@),
{
    proof {
        reveal_strlit("/");
    }
    let u = chars_of(url);
    let p = match split_once(&u, '?') {
        Some((a, _)) => a,
        None => u,
    };
    trim_end_matches(&p, &chars_of("/"))
}

/// The documented endpoints are reached: a preflight is answered before
/// authentication, an unauthenticated request is refused, and an authenticated
/// `GET` of a health path, `GET` of a catalog path and `POST` of a pipeline path
/// (after any query and trailing slashes are dropped) is planned as that
/// endpoint.
pub proof fn lemma_documented_routes(method: HttpMethod, url: Seq<char>, authorized: bool, r: RequestPlan)
    requires
        plan_spec(method, url, authorized, r),
    ensures
        method is Options ==> r is Preflight,
        !(method is Options) && !authorized ==> r is Unauthorized,
        method is Get && authorized && (route_path_spec(url) == "/api/v1/catalog"@
            || route_path_spec(url) == "/catalog"@) ==> r is Catalog,
        method is Get && authorized && (route_path_spec(url) == ""@ || route_path_spec(url)
            == "/health"@ || route_path_spec(url) == "/api/v1/health"@) ==> r is Health,
        method is Post && authorized && (route_path_spec(url) == "/api/v1/pipeline"@
            || route_path_spec(url) == "/pipeline"@) ==> r is Pipeline,
{
    reveal_strlit("/api/v1/catalog");
    reveal_strlit("/catalog");
    reveal_strlit("/health");
    reveal_strlit("/api/v1/health");
    reveal_strlit("");
    let p = route_path_spec(url);
    if p == "/api/v1/catalog"@ || p == "/catalog"@ {
        assert(p != ""@ && p != "/health"@ && p != "/api/v1/health"@) by {
            if p == "/api/v1/catalog"@ {
                assert(p.len() == 15);
                assert(p[8] != "/api/v1/health"@[8]);
            } else {
                assert(p.len() == 8);
                assert(p[1] != "/health"@[1]);
            }
        }
    }
}

/// Decides what to do with a request from its method, its URL, and whether it
/// passed authentication.
pub fn plan_request(method: &HttpMethod, url: &str, authorized: bool) -> (r: RequestPlan)
    ensures
        plan_spec(*method, url@, authorized, r),
        *method is Get && authorized && (route_path_spec(url@) == "/api/v1/catalog"@
            || route_path_spec(url@) == "/catalog"@) ==> r is Catalog,
        *method is Get && authorized && (route_path_spec(url@) == ""@ || route_path_spec(url@)
            == "/health"@ || route_path_spec(url@) == "/api/v1/health"@) ==> r is Health,
        *method is Post && authorized && (route_path_spec(url@) == "/api/v1/pipeline"@
            || route_path_spec(url@) == "/pipeline"@) ==> r is Pipeline,
{
    let r = plan_request_inner(method, url, authorized);
    proof {
        lemma_documented_routes(*method, url@, authorized, r);
    }
    r
}

/// The plan of a request, as [`plan_spec`] gives it.
fn plan_request_inner(method: &HttpMethod, url: &str, authorized: bool) -> (r: RequestPlan)
    ensures
        plan_spec(*method, url@, authorized, r),
{
    proof {
        reveal_strlit("/api/v1/");
    }
    if let HttpMethod::Options = method {
        return RequestPlan::Preflight;
    }
    if !authorized {
        return RequestPlan::Unauthorized;
    }
    let p = route_path(url);
    let is_get = match method {
        HttpMethod::Get => true,
        _ => false,
    };
    let is_post = match method {
        HttpMethod::Post => true,
        _ => false,
    };
    if is_get && (chars_eq_str(&p, "") || chars_eq_str(&p, "/health") || chars_eq_str(
        &p,
        "/api/v1/health",
    )) {
        RequestPlan::Health
    } else if is_get && (chars_eq_str(&p, "/api/v1/catalog") || chars_eq_str(&p, "/catalog")) {
        RequestPlan::Catalog
    } else if is_post && (chars_eq_str(&p, "/api/v1/pipeline") || chars_eq_str(&p, "/pipeline")) {
        RequestPlan::Pipeline
    } else if is_post && starts_with(&p, &chars_of("/api/v1/")) {
        let rest = trim_start_matches(&p, &chars_of("/api/v1/"));
        let segs = split_chars(&rest, '/');
        if segs.len() == 2 {
            assert(views(segs@)[0] == segs@[0]@);
            assert(views(segs@)[1] == segs@[1]@);
            RequestPlan::Invoke {
                module: string_from_chars(&segs[0]),
                function: string_from_chars(&segs[1]),
            }
        } else {
            RequestPlan::BadFunctionRoute(string_from_chars(&p))
        }
    } else {
        RequestPlan::NotFound(string_from_chars(&p))
    }
}

// ---------------------------------------------------------------------------
// Messages
// ---------------------------------------------------------------------------

/// The message of a refused request.
pub fn unauthorized_message() -> (r: String)
    ensures
        r@ == "Unauthorized: missing or invalid API token"@,
{
    String::from_str("Unauthorized: missing or invalid API token")
}

/// The message for a route that matches nothing.
pub fn not_found_message(method: &HttpMethod, path: &str) -> (r: String)
    ensures
        r@ == "Not Found: "@ + method_name_spec(*method) + " "@ + path@,
{
    let mut out: Vec<char> = Vec::new();
    extend_str(&mut out, "Not Found: ");
    let m = method_name(method);
    extend_str(&mut out, m.as_str());
    extend_str(&mut out, " ");
    extend_str(&mut out, path);
    string_from_chars(&out)
}

/// The message for a function route that is not `module/function`.
pub fn bad_route_message(path: &str) -> (r: String)
    ensures
        r@ == "Invalid function route '"@ + path@ + "'. Expected /api/v1/:module/:function"@,
{
    let mut out: Vec<char> = Vec::new();
    extend_str(&mut out, "Invalid function route '");
    extend_str(&mut out, path);
    extend_str(&mut out, "'. Expected /api/v1/:module/:function");
    string_from_chars(&out)
}

/// A list of names as `{:?}` writes it: each quoted, comma separated, bracketed.
pub open spec fn debug_list_spec(names: Seq<Seq<char>>) -> Seq<char> {
    "["@ + join_spec(names.map_values(|n: Seq<char>| debug_quoted(n)), ", "@) + "]"@
}

/// Writes a list of names as `{:?}` does.
pub fn debug_list(names: &Vec<String>) -> (r: String)
    ensures
        r@ == debug_list_spec(string_views(names@)),
{
    let mut quoted: Vec<String> = Vec::new();
    let mut i: usize = 0;
    while i < names.len()
        invariant
            i <= names.len(),
            quoted@.len() == i,
            forall|k: int| 0 <= k < i ==> #[trigger] quoted@[k]@ == debug_quoted(names@[k]@),
        decreases names.len() - i,
    {
        quoted.push(debug_str(names[i].as_str()));
        i = i + 1;
    }
    assert(string_views(quoted@) =~= string_views(names@).map_values(
        |n: Seq<char>| debug_quoted(n),
    ));
    let j = join_strings(&quoted, ", ");
    let mut out: Vec<char> = Vec::new();
    extend_str(&mut out, "[");
    extend_str(&mut out, j.as_str());
    extend_str(&mut out, "]");
    string_from_chars(&out)
}

// ---------------------------------------------------------------------------
// Loaded modules and the catalog
// ---------------------------------------------------------------------------

/// A parameter of a loaded function.
#[derive(Debug, Clone)]
pub struct ParamSignature {
    pub name: String,
    pub expected_unit: Option<String>,
}

/// A function a loaded module exports.
#[derive(Debug, Clone)]
pub struct FunctionSignature {
    pub name: String,
    pub docstring: Option<String>,
    pub params: Vec<ParamSignature>,
}

/// A loaded module, by name, with its functions.
#[derive(Debug, Clone)]
pub struct LoadedModule {
    pub name: String,
    pub functions: Vec<FunctionSignature>,
}

/// The names of the modules.
pub open spec fn module_names(m: Seq<LoadedModule>) -> Seq<Seq<char>> {
    m.map_values(|x: LoadedModule| x.name@)
}

/// The names of the functions.
pub open spec fn function_names(f: Seq<FunctionSignature>) -> Seq<Seq<char>> {
    f.map_values(|x: FunctionSignature| x.name@)
}

/// Modules are keyed by name, and functions by name within each module.
pub open spec fn modules_wf(m: Seq<LoadedModule>) -> bool {
    &&& distinct_views(module_names(m))
    &&& forall|i: int| 0 <= i < m.len() ==> distinct_views(function_names(#[trigger] m[i].functions@))
}

/// The message for a module that is not loaded, listing the loaded ones in order.
pub open spec fn module_missing_spec(name: Seq<char>, sorted: Seq<Seq<char>>) -> Seq<char> {
    "Module '"@ + name + "' not found. Available modules: "@ + debug_list_spec(sorted)
}

/// The message for a function a module lacks, listing its functions in order.
pub open spec fn function_missing_spec(
    function: Seq<char>,
    module: Seq<char>,
    sorted: Seq<Seq<char>>,
) -> Seq<char> {
    "Function '"@ + function + "' not found in module '"@ + module + "'. Available functions: "@
        + debug_list_spec(sorted)
}

/// The names of the modules, in order.
fn module_name_list(modules: &Vec<LoadedModule>) -> (r: Vec<String>)
    ensures
        string_views(r@) == module_names(modules@),
{
    let mut r: Vec<String> = Vec::new();
    let mut i: usize = 0;
    while i < modules.len()
        invariant
            i <= modules.len(),
            r@.len() == i,
            forall|k: int| 0 <= k < i ==> #[trigger] r@[k]@ == modules@[k].name@,
        decreases modules.len() - i,
    {
        r.push(string_from_chars(&chars_of(modules[i].name.as_str())));
        i = i + 1;
    }
    assert(string_views(r@) =~= module_names(modules@));
    r
}

/// The names of the functions, in order.
fn function_name_list(functions: &Vec<FunctionSignature>) -> (r: Vec<String>)
    ensures
        string_views(r@) == function_names(functions@),
{
    let mut r: Vec<String> = Vec::new();
    let mut i: usize = 0;
    while i < functions.len()
        invariant
            i <= functions.len(),
            r@.len() == i,
            forall|k: int| 0 <= k < i ==> #[trigger] r@[k]@ == functions@[k].name@,
        decreases functions.len() - i,
    {
        r.push(string_from_chars(&chars_of(functions[i].name.as_str())));
        i = i + 1;
    }
    assert(string_views(r@) =~= function_names(functions@));
    r
}

/// The loaded modules' names in order, as the health check lists them.
pub fn loaded_module_names(modules: &Vec<LoadedModule>) -> (r: Vec<String>)
    requires
        modules_wf(modules@),
    ensures
        sorted_views(string_views(r@)),
        string_views(r@).to_set() == module_names(modules@).to_set(),
        r@.len() == modules@.len(),
{
    let names = module_name_list(modules);
    assert(string_views(names@).len() == names@.len());
    sorted_names(&names)
}

/// Finds a loaded module by name, or says which modules there are.
pub fn find_module(modules: &Vec<LoadedModule>, name: &str) -> (r: Result<usize, String>)
    requires
        modules_wf(modules@),
    ensures
        r matches Ok(i) ==> i < modules@.len() && modules@[i as int].name@ == name@,
        r is Err <==> !module_names(modules@).contains(name@),
        r matches Err(msg) ==> exists|sorted: Seq<Seq<char>>|
            #![trigger module_missing_spec(name@, sorted)]
            sorted_views(sorted) && sorted.to_set() == module_names(modules@).to_set()
                && sorted.len() == modules@.len() && msg@ == module_missing_spec(name@, sorted),
{
    let key = chars_of(name);
    let mut i: usize = 0;
    while i < modules.len()
        invariant
            i <= modules.len(),
            key@ == name@,
            forall|k: int| 0 <= k < i ==> modules@[k].name@ != name@,
        decreases modules.len() - i,
    {
        if chars_eq(&chars_of(modules[i].name.as_str()), &key) {
            assert(module_names(modules@)[i as int] == name@);
            return Ok(i);
        }
        i = i + 1;
    }
    proof {
        if module_names(modules@).contains(name@) {
            let k = choose|k: int| 0 <= k < module_names(modules@).len() && module_names(modules@)[k] == name@;
            assert(modules@[k].name@ == name@);
        }
    }
    let sorted = loaded_module_names(modules);
    let list = debug_list(&sorted);
    let mut out: Vec<char> = Vec::new();
    extend_str(&mut out, "Module '");
    extend_str(&mut out, name);
    extend_str(&mut out, "' not found. Available modules: ");
    extend_str(&mut out, list.as_str());
    let msg = string_from_chars(&out);
    assert(msg@ == module_missing_spec(name@, string_views(sorted@)));
    Err(msg)
}

/// Finds a function of a module by name, or says which functions it has.
pub fn find_function(module: &LoadedModule, function: &str) -> (r: Result<usize, String>)
    requires
        distinct_views(function_names(module.functions@)),
    ensures
        r matches Ok(i) ==> i < module.functions@.len() && module.functions@[i as int].name@
            == function@,
        r is Err <==> !function_names(module.functions@).contains(function@),
        r matches Err(msg) ==> exists|sorted: Seq<Seq<char>>|
            #![trigger function_missing_spec(function@, module.name@, sorted)]
            sorted_views(sorted) && sorted.to_set() == function_names(module.functions@).to_set()
                && sorted.len() == module.functions@.len() && msg@ == function_missing_spec(
                function@,
                module.name@,
                sorted,
            ),
{
    let key = chars_of(function);
    let fs = &module.functions;
    let mut i: usize = 0;
    while i < fs.len()
        invariant
            i <= fs.len(),
            fs == &module.functions,
            key@ == function@,
            forall|k: int| 0 <= k < i ==> fs@[k].name@ != function@,
        decreases fs.len() - i,
    {
        if chars_eq(&chars_of(fs[i].name.as_str()), &key) {
            assert(function_names(fs@)[i as int] == function@);
            return Ok(i);
        }
        i = i + 1;
    }
    proof {
        if function_names(fs@).contains(function@) {
            let k = choose|k: int| 0 <= k < function_names(fs@).len() && function_names(fs@)[k] == function@;
            assert(fs@[k].name@ == function@);
        }
    }
    let names = function_name_list(fs);
    assert(string_views(names@).len() == names@.len());
    let sorted = sorted_names(&names);
    let list = debug_list(&sorted);
    let mut out: Vec<char> = Vec::new();
    extend_str(&mut out, "Function '");
    extend_str(&mut out, function);
    extend_str(&mut out, "' not found in module '");
    extend_str(&mut out, module.name.as_str());
    extend_str(&mut out, "'. Available functions: ");
    extend_str(&mut out, list.as_str());
    let msg = string_from_chars(&out);
    assert(msg@ == function_missing_spec(function@, module.name@, string_views(sorted@)));
    Err(msg)
}

/// The message for a keyword argument the request lacks.
pub open spec fn missing_param_spec(param: Seq<char>, module: Seq<char>, function: Seq<char>) -> Seq<
    char,
> {
    "Missing required parameter '"@ + param + "' for "@ + module + "."@ + function + "()"@
}

/// The parameters' names.
pub open spec fn param_names(p: Seq<ParamSignature>) -> Seq<Seq<char>> {
    p.map_values(|x: ParamSignature| x.name@)
}

/// Keyword arguments put in parameter order: for each parameter, the index of
/// the argument named after it; the first parameter without an argument is
/// reported.
pub open spec fn keyword_order_spec(
    params: Seq<Seq<char>>,
    given: Seq<Seq<char>>,
    module: Seq<char>,
    function: Seq<char>,
    r: Result<Seq<usize>, Seq<char>>,
) -> bool {
    match r {
        Ok(idx) => idx.len() == params.len() && forall|k: int|
            0 <= k < params.len() ==> index_of_name(given, params[k]) == Some(
                #[trigger] idx[k] as int,
            ),
        Err(msg) => exists|k: int|
            0 <= k < params.len() && index_of_name(given, #[trigger] params[k]) is None
                && (forall|j: int| 0 <= j < k ==> index_of_name(given, params[j]) is Some)
                && msg == missing_param_spec(params[k], module, function),
    }
}

/// Matches keyword arguments to a function's parameters.
pub fn order_keyword_args(
    params: &Vec<ParamSignature>,
    given: &Vec<String>,
    module: &str,
    function: &str,
) -> (r: Result<Vec<usize>, String>)
    ensures
        keyword_order_spec(
            param_names(params@),
            string_views(given@),
            module@,
            function@,
            match r {
                Ok(v) => Ok(v@),
                Err(m) => Err(m@),
            },
        ),
{
    let mut idx: Vec<usize> = Vec::new();
    let mut k: usize = 0;
    while k < params.len()
        invariant
            k <= params.len(),
            idx@.len() == k,
            forall|j: int|
                0 <= j < k ==> index_of_name(string_views(given@), param_names(params@)[j])
                    == Some(#[trigger] idx@[j] as int),
        decreases params.len() - k,
    {
        let key = chars_of(params[k].name.as_str());
        assert(param_names(params@)[k as int] == params@[k as int].name@);
        match find_name(given, &key) {
            Some(i) => {
                idx.push(i);
            },
            None => {
                let mut out: Vec<char> = Vec::new();
                extend_str(&mut out, "Missing required parameter '");
                extend_chars(&mut out, &key);
                extend_str(&mut out, "' for ");
                extend_str(&mut out, module);
                extend_str(&mut out, ".");
                extend_str(&mut out, function);
                extend_str(&mut out, "()");
                let msg = string_from_chars(&out);
                proof {
                    assert forall|j: int| 0 <= j < k implies index_of_name(
                        string_views(given@),
                        param_names(params@)[j],
                    ) is Some by {
                        assert(index_of_name(string_views(given@), param_names(params@)[j]) == Some(
                            idx@[j] as int,
                        ));
                    }
                }
                return Err(msg);
            },
        }
        k = k + 1;
    }
    Ok(idx)
}

/// The message for a request body that is neither `{"args": [...]}` nor an object.
pub fn bad_body_message() -> (r: String)
    ensures
        r@ == "Request body must be a JSON object of parameters or {\"args\": [...]}"@,
{
    String::from_str("Request body must be a JSON object of parameters or {\"args\": [...]}")
}

/// A parameter in the catalog.
#[derive(Debug, Clone)]
pub struct CatalogParam {
    pub name: String,
    pub expected_unit: Option<String>,
}

/// A function in the catalog.
#[derive(Debug, Clone)]
pub struct CatalogFunction {
    pub name: String,
    pub docstring: Option<String>,
    pub params: Vec<CatalogParam>,
}

/// A module in the catalog, its functions keyed by name.
#[derive(Debug, Clone)]
pub struct CatalogModule {
    pub name: String,
    pub functions: Vec<(String, CatalogFunction)>,
}

/// The catalog answer, its modules keyed by name.
#[derive(Debug, Clone)]
pub struct CatalogResponse {
    pub status: String,
    pub modules: Vec<(String, CatalogModule)>,
}

/// A copy of an optional string.
fn copy_opt(o: &Option<String>) -> (r: Option<String>)
    ensures
        opt_view(r) == opt_view(*o),
{
    match o {
        Some(s) => Some(string_from_chars(&chars_of(s.as_str()))),
        None => None,
    }
}

/// A catalog entry describes a function: same name and docstring, and its
/// parameters with their names and expected units, in order.
pub open spec fn describes_function(c: CatalogFunction, f: FunctionSignature) -> bool {
    &&& c.name@ == f.name@
    &&& opt_view(c.docstring) == opt_view(f.docstring)
    &&& c.params@.len() == f.params@.len()
    &&& forall|k: int| 0 <= k < f.params@.len() ==> #[trigger] c.params@[k].name@ == f.params@[k].name@
        && opt_view(c.params@[k].expected_unit) == opt_view(f.params@[k].expected_unit)
}

/// A catalog module describes a loaded module: one entry per function, in order,
/// keyed by the function's name.
pub open spec fn describes_module(c: CatalogModule, m: LoadedModule) -> bool {
    &&& c.name@ == m.name@
    &&& c.functions@.len() == m.functions@.len()
    &&& forall|k: int| 0 <= k < m.functions@.len() ==> #[trigger] c.functions@[k].0@
        == m.functions@[k].name@ && describes_function(c.functions@[k].1, m.functions@[k])
}

fn describe_function(f: &FunctionSignature) -> (r: CatalogFunction)
    ensures
        describes_function(r, *f),
{
    let mut params: Vec<CatalogParam> = Vec::new();
    let mut k: usize = 0;
    while k < f.params.len()
        invariant
            k <= f.params.len(),
            params@.len() == k,
            forall|j: int| 0 <= j < k ==> #[trigger] params@[j].name@ == f.params@[j].name@
                && opt_view(params@[j].expected_unit) == opt_view(f.params@[j].expected_unit),
        decreases f.params.len() - k,
    {
        let p = CatalogParam {
            name: string_from_chars(&chars_of(f.params[k].name.as_str())),
            expected_unit: copy_opt(&f.params[k].expected_unit),
        };
        params.push(p);
        k = k + 1;
    }
    CatalogFunction {
        name: string_from_chars(&chars_of(f.name.as_str())),
        docstring: copy_opt(&f.docstring),
        params,
    }
}

fn describe_module(m: &LoadedModule) -> (r: CatalogModule)
    ensures
        describes_module(r, *m),
{
    let mut fns: Vec<(String, CatalogFunction)> = Vec::new();
    let mut k: usize = 0;
    while k < m.functions.len()
        invariant
            k <= m.functions.len(),
            fns@.len() == k,
            forall|j: int| 0 <= j < k ==> #[trigger] fns@[j].0@ == m.functions@[j].name@
                && describes_function(fns@[j].1, m.functions@[j]),
        decreases m.functions.len() - k,
    {
        let key = string_from_chars(&chars_of(m.functions[k].name.as_str()));
        let c = describe_function(&m.functions[k]);
        fns.push((key, c));
        k = k + 1;
    }
    CatalogModule { name: string_from_chars(&chars_of(m.name.as_str())), functions: fns }
}

/// The catalog of every loaded module, with status `"success"`.
pub fn build_catalog(modules: &Vec<LoadedModule>) -> (r: CatalogResponse)
    ensures
        r.status@ == "success"@,
        r.modules@.len() == modules@.len(),
        forall|k: int| 0 <= k < modules@.len() ==> #[trigger] r.modules@[k].0@ == modules@[k].name@
            && describes_module(r.modules@[k].1, modules@[k]),
{
    let mut mods: Vec<(String, CatalogModule)> = Vec::new();
    let mut k: usize = 0;
    while k < modules.len()
        invariant
            k <= modules.len(),
            mods@.len() == k,
            forall|j: int| 0 <= j < k ==> #[trigger] mods@[j].0@ == modules@[j].name@
                && describes_module(mods@[j].1, modules@[j]),
        decreases modules.len() - k,
    {
        let key = string_from_chars(&chars_of(modules[k].name.as_str()));
        let c = describe_module(&modules[k]);
        mods.push((key, c));
        k = k + 1;
    }
    CatalogResponse { status: String::from_str("success"), modules: mods }
}

// ---------------------------------------------------------------------------
// Command line
// ---------------------------------------------------------------------------

/// What `phs serve` was asked for.
#[derive(Debug, Clone)]
pub struct ServeOptions {
    /// The directory, manifest or script to load (`.` when none is given).
    pub target: String,
    pub port: u16,
    pub host: String,
    pub token: Option<String>,
}

/// The state of the scan over the arguments.
pub struct ServeScan {
    pub target: Option<Seq<char>>,
    pub port: nat,
    pub host: Seq<char>,
    pub token: Option<Seq<char>>,
}

/// The scan from argument `i` on: `serve` is skipped; `--port`/`-p` takes the
/// next argument as the port when it reads as a `u16` (else that argument is
/// scanned in turn); `--host` and `--token` take the next argument when there is
/// one; the first other argument not starting with `-` is the target.
pub open spec fn serve_scan(args: Seq<String>, i: int, st: ServeScan) -> ServeScan
    decreases args.len() - i,
{
    if i < 0 || i >= args.len() {
        st
    } else {
        let a = args[i]@;
        let has_next = i + 1 < args.len();
        if a == "serve"@ {
            serve_scan(args, i + 1, st)
        } else if a == "--port"@ || a == "-p"@ {
            if has_next && parse_unsigned_spec(args[i + 1]@, 65535) is Some {
                serve_scan(
                    args,
                    i + 2,
                    ServeScan { port: parse_unsigned_spec(args[i + 1]@, 65535)->0, ..st },
                )
            } else {
                serve_scan(args, i + 1, st)
            }
        } else if a == "--host"@ {
            if has_next {
                serve_scan(args, i + 2, ServeScan { host: args[i + 1]@, ..st })
            } else {
                serve_scan(args, i + 1, st)
            }
        } else if a == "--token"@ {
            if has_next {
                serve_scan(args, i + 2, ServeScan { token: Some(args[i + 1]@), ..st })
            } else {
                serve_scan(args, i + 1, st)
            }
        } else if st.target is None && !has_prefix(a, "-"@) {
            serve_scan(args, i + 1, ServeScan { target: Some(a), ..st })
        } else {
            serve_scan(args, i + 1, st)
        }
    }
}

/// What `phs serve ...` means: the scan from the second argument on, starting
/// from port 8080 on host `127.0.0.1` with no token; the target defaults to `.`.
pub open spec fn serve_options_spec(args: Seq<String>, o: ServeOptions) -> bool {
    let st = serve_scan(
        args,
        1,
        ServeScan { target: None, port: 8080, host: "127.0.0.1"@, token: None },
    );
    &&& o.target@ == (match st.target {
        Some(t) => t,
        None => "."@,
    })
    &&& o.port as nat == st.port
    &&& o.host@ == st.host
    &&& opt_view(o.token) == st.token
}

/// Reads the options of `phs serve`.
pub fn parse_serve_args(args: &Vec<String>) -> (r: ServeOptions)
    ensures
        serve_options_spec(args@, r),
{
    let mut target: Option<String> = None;
    let mut port: u16 = 8080;
    let mut host = String::from_str("127.0.0.1");
    let mut token: Option<String> = None;
    let mut i: usize = 1;
    let ghost init = ServeScan { target: None, port: 8080, host: "127.0.0.1"@, token: None };
    while i < args.len()
        invariant
            1 <= i,
            serve_scan(args@, 1, init) == serve_scan(
                args@,
                i as int,
                ServeScan { target: opt_view(target), port: port as nat, host: host@, token: opt_view(token) },
            ),
        decreases args.len() - i,
    {
        proof {
            reveal_strlit("-");
        }
        let a = chars_of(args[i].as_str());
        let has_next = i + 1 < args.len();
        if chars_eq_str(&a, "serve") {
            i = i + 1;
        } else if chars_eq_str(&a, "--port") || chars_eq_str(&a, "-p") {
            if has_next {
                match parse_unsigned(&chars_of(args[i + 1].as_str()), 65535) {
                    Some(p) => {
                        port = p as u16;
                        i = i + 2;
                    },
                    None => {
                        i = i + 1;
                    },
                }
            } else {
                i = i + 1;
            }
        } else if chars_eq_str(&a, "--host") {
            if has_next {
                host = string_from_chars(&chars_of(args[i + 1].as_str()));
                i = i + 2;
            } else {
                i = i + 1;
            }
        } else if chars_eq_str(&a, "--token") {
            if has_next {
                token = Some(string_from_chars(&chars_of(args[i + 1].as_str())));
                i = i + 2;
            } else {
                i = i + 1;
            }
        } else if target.is_none() && !starts_with(&a, &chars_of("-")) {
            target = Some(string_from_chars(&a));
            i = i + 1;
        } else {
            i = i + 1;
        }
    }
    let t = match target {
        Some(t) => t,
        None => String::from_str("."),
    };
    ServeOptions { target: t, port, host, token }
}

// ---------------------------------------------------------------------------
// Where the modules come from
// ---------------------------------------------------------------------------

/// How `phs serve` loads the path it is given.
#[derive(Debug, Clone)]
pub enum ModelSource {
    /// A `phs.toml` manifest: load the modules it exports.
    Manifest,
    /// One `.phs` script, served as the module of this name.
    Script(String),
    /// A directory: its manifest when it has one, else its top-level scripts.
    Directory { has_manifest: bool },
    /// Refused, with the message.
    Refused(String),
}

/// What a path means: a file named `phs.toml` is a manifest, a file with the
/// `phs` extension a script named after its stem (`main` without one), any other
/// file is refused; a directory is read; anything else does not exist.
pub open spec fn model_source_spec(
    path: Seq<char>,
    is_file: bool,
    is_dir: bool,
    file_name: Option<Seq<char>>,
    extension: Option<Seq<char>>,
    stem: Option<Seq<char>>,
    has_manifest: bool,
    r: ModelSource,
) -> bool {
    if is_file {
        if file_name == Some("phs.toml"@) {
            r is Manifest
        } else if extension == Some("phs"@) {
            r matches ModelSource::Script(m) && m@ == (match stem {
                Some(s) => s,
                None => "main"@,
            })
        } else {
            r matches ModelSource::Refused(m) && m@ == "Unrecognized file format '"@ + path
                + "'. Expected .phs or phs.toml"@
        }
    } else if is_dir {
        r matches ModelSource::Directory { has_manifest: h } && h == has_manifest
    } else {
        r matches ModelSource::Refused(m) && m@ == "Path '"@ + path + "' does not exist"@
    }
}

/// Decides how to load a path from what the file system says of it.
pub fn model_source(
    path: &str,
    is_file: bool,
    is_dir: bool,
    file_name: Option<&str>,
    extension: Option<&str>,
    stem: Option<&str>,
    has_manifest: bool,
) -> (r: ModelSource)
    ensures
        model_source_spec(
            path@,
            is_file,
            is_dir,
            match file_name {
                Some(f) => Some(f@),
                None => None,
            },
            match extension {
                Some(e) => Some(e@),
                None => None,
            },
            match stem {
                Some(s) => Some(s@),
                None => None,
            },
            has_manifest,
            r,
        ),
{
    if is_file {
        let is_manifest = match file_name {
            Some(f) => chars_eq_str(&chars_of(f), "phs.toml"),
            None => false,
        };
        let is_script = match extension {
            Some(e) => chars_eq_str(&chars_of(e), "phs"),
            None => false,
        };
        if is_manifest {
            ModelSource::Manifest
        } else if is_script {
            match stem {
                Some(s) => ModelSource::Script(string_from_chars(&chars_of(s))),
                None => ModelSource::Script(String::from_str("main")),
            }
        } else {
            let mut v: Vec<char> = Vec::new();
            extend_str(&mut v, "Unrecognized file format '");
            extend_str(&mut v, path);
            extend_str(&mut v, "'. Expected .phs or phs.toml");
            ModelSource::Refused(string_from_chars(&v))
        }
    } else if is_dir {
        ModelSource::Directory { has_manifest }
    } else {
        let mut v: Vec<char> = Vec::new();
        extend_str(&mut v, "Path '");
        extend_str(&mut v, path);
        extend_str(&mut v, "' does not exist");
        ModelSource::Refused(string_from_chars(&v))
    }
}

/// The message when a path holds no module.
pub fn no_modules_message(path: &str) -> (r: String)
    ensures
        r@ == "No .phs modules found in '"@ + path@ + "'"@,
{
    let mut v: Vec<char> = Vec::new();
    extend_str(&mut v, "No .phs modules found in '");
    extend_str(&mut v, path);
    extend_str(&mut v, "'");
    string_from_chars(&v)
}

} // verus!
