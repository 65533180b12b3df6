//! The text builders and parsers of the web flow, and the remaining small
//! pieces of the library.

use aichat::config_types::{AssertState, StateFlags, WorkingMode, RAG, ROLE, SESSION};
use aichat::urlq::{
    build_authorize_url, build_redacted_authorize_url, build_exchange_body, build_refresh_body,
    http_ok_response, port_of_uri_exec, query_of_path_exec, query_param_exec, request_path_exec,
};

#[test]
fn authorize_url_is_exact() {
    let url = build_authorize_url(
        "https://accounts.google.com/o/oauth2/v2/auth",
        "my client",
        "http://localhost:8080/",
        "s1 s2",
        "CH",
        "ST",
    );
    assert_eq!(
        url,
        "https://accounts.google.com/o/oauth2/v2/auth?response_type=code&client_id=my%20client\
         &redirect_uri=http%3a%2f%2flocalhost%3a8080%2f&scope=s1%20s2\
         &code_challenge_method=S256&code_challenge=CH&state=ST"
    );
}

#[test]
fn redacted_url_hides_the_secrets() {
    let url = build_redacted_authorize_url(
        "https://accounts.google.com/o/oauth2/v2/auth",
        "http://localhost:8080/",
        "s1",
    );
    assert_eq!(
        url,
        "https://accounts.google.com/o/oauth2/v2/auth?response_type=code&client_id=REDACTED\
         &redirect_uri=http%3a%2f%2flocalhost%3a8080%2f&scope=s1\
         &code_challenge_method=S256&code_challenge=REDACTED&state=REDACTED"
    );
}

#[test]
fn form_bodies_are_exact() {
    assert_eq!(
        build_exchange_body("c&c", "v", "http://l:1/", "id", "sec"),
        "grant_type=authorization_code&code=c%26c&code_verifier=v\
         &redirect_uri=http%3a%2f%2fl%3a1%2f&client_id=id&client_secret=sec"
    );
    assert_eq!(
        build_refresh_body("r", "id", "sec"),
        "grant_type=refresh_token&refresh_token=r&client_id=id&client_secret=sec"
    );
}

#[test]
fn http_response_carries_the_length() {
    assert_eq!(
        http_ok_response("Auth success"),
        "HTTP/1.1 200 OK\r\ncontent-length: 12\r\n\r\nAuth success"
    );
}

#[test]
fn request_line_and_query_parsing() {
    let path = request_path_exec("GET /cb?code=a%2Bb&state=S+T HTTP/1.1\r\n").unwrap();
    assert_eq!(path, "/cb?code=a%2Bb&state=S+T");
    let q = query_of_path_exec(&path);
    assert_eq!(q, "code=a%2Bb&state=S+T");
    assert_eq!(query_param_exec(&q, "code").unwrap(), "a+b");
    assert_eq!(query_param_exec(&q, "state").unwrap(), "S T");
    assert!(query_param_exec(&q, "other").is_none());

    assert!(request_path_exec("").is_none());
    assert!(request_path_exec("GET").is_none());
    assert_eq!(query_of_path_exec("/plain"), "");
    assert!(query_param_exec("a=1&code", "code").unwrap().is_empty());
}

#[test]
fn ports_of_redirect_uris() {
    assert_eq!(port_of_uri_exec("http://localhost:37387/"), Some(37387));
    assert_eq!(port_of_uri_exec("http://localhost:8080/cb?x=1"), Some(8080));
    assert_eq!(port_of_uri_exec("http://localhost/"), None);
    assert_eq!(port_of_uri_exec("http://localhost:0/"), None);
    assert_eq!(port_of_uri_exec("http://localhost:65536/"), None);
    assert_eq!(port_of_uri_exec("http://localhost:999999999999/"), None);
    assert_eq!(port_of_uri_exec("not a uri"), None);
    assert_eq!(port_of_uri_exec("http://localhost:12ab/"), None);
}

#[test]
fn pkce_challenge_matches_the_published_vector() {
    // The worked example of the PKCE specification.
    let challenge = aichat::oauth_external::pkce_challenge(
        "dBjftJeZ4CVP-mB92K27uhbUJU1p1r_wW1gFWFOEjXk",
    );
    assert_eq!(challenge, "E9Melhoa2OwvFrEMTJguCHaoeK1t8URWbuGJSstw-cM");
}

#[test]
fn random_material_has_the_documented_shape() {
    let (verifier, challenge) = aichat::oauth_external::new_random_pkce();
    assert_eq!(verifier.len(), 43);
    assert_eq!(challenge, aichat::oauth_external::pkce_challenge(&verifier));
    let csrf = aichat::oauth_external::new_random_csrf();
    assert_eq!(csrf.len(), 22);
    // Two draws almost surely differ; equal draws would break the flow.
    let (v2, _c2) = aichat::oauth_external::new_random_pkce();
    assert!(verifier != v2);
}

#[test]
fn client_secret_extraction() {
    let text = "{\"web\":{\"client_id\":\"id-1\",\"project_id\":\"p\",\
                \"client_secret\":\"sec-1\",\"redirect_uris\":[\"http://l/\"]},\"other\":1}";
    let (id, sec) = aichat::client_secret::parse_client_secret(text).unwrap();
    assert_eq!(id, "id-1");
    assert_eq!(sec, "sec-1");

    assert!(aichat::client_secret::parse_client_secret("{}").is_none());
    assert!(aichat::client_secret::parse_client_secret("{\"web\":{}}").is_none());
    assert!(
        aichat::client_secret::parse_client_secret("{\"web\":{\"client_id\":\"i\"}}").is_none()
    );
}

#[test]
fn cli_text_composition() {
    let mut cli = aichat::cli::Cli {
        command: None,
        model: None,
        prompt: None,
        role: None,
        session: None,
        empty_session: false,
        save_session: false,
        agent: None,
        agent_variable: Vec::new(),
        rag: None,
        rebuild_rag: false,
        macro_name: None,
        serve: None,
        execute: false,
        code: false,
        file: Vec::new(),
        no_stream: false,
        dry_run: false,
        info: false,
        sync_models: false,
        list_models: false,
        list_roles: false,
        list_sessions: false,
        list_agents: false,
        list_rags: false,
        list_macros: false,
        text: Vec::new(),
    };
    assert!(cli.text("").is_none());
    assert_eq!(cli.text("piped").unwrap(), "piped");

    cli.text = vec!["hello".to_string(), "world".to_string()];
    assert_eq!(cli.text("").unwrap(), "hello world");
    assert_eq!(cli.text("more").unwrap(), "hello world\nmore");

    // A macro quotes each word for the shell.
    cli.macro_name = Some("m".to_string());
    cli.text = vec!["a b".to_string(), "plain".to_string()];
    assert_eq!(cli.text("").unwrap(), "'a b' plain");
    assert_eq!(cli.text("rest").unwrap(), "'a b' plain -- rest");
}

#[test]
fn working_mode_and_state_flags() {
    assert!(WorkingMode::Serve.is_serve());
    assert!(!WorkingMode::Serve.is_repl());
    assert!(WorkingMode::Repl.is_repl());
    assert!(WorkingMode::Cmd.is_cmd());

    let flags = StateFlags::from_bits(SESSION | ROLE);
    assert!(AssertState::pass().check(flags));
    assert!(!AssertState::bare().check(flags));
    assert!(AssertState::bare().check(StateFlags::empty()));
    assert!(AssertState::True(StateFlags::from_bits(SESSION)).check(flags));
    assert!(!AssertState::False(StateFlags::from_bits(ROLE)).check(flags));
    assert!(
        AssertState::TrueFalse(StateFlags::from_bits(SESSION), StateFlags::from_bits(RAG))
            .check(flags)
    );
}
