use mikan::profiles::QbtProfile;
use mikan::qbt::{
    client_text, find_session, Answer, ConnectStep, Connecting, Method, Payload, QbtClient, Reply, Request,
};

fn profile(endpoint: &str, username: &str, password: &str) -> QbtProfile {
    QbtProfile {
        endpoint: endpoint.to_string(),
        username: username.to_string(),
        password: password.to_string(),
    }
}

fn answer(status: &str, cookies: &[&str], body: &str) -> Reply {
    Reply::Answered(Answer {
        status: status.split(' ').next().unwrap().parse().unwrap(),
        status_text: status.to_string(),
        complaint: format!("HTTP status error ({status})"),
        cookies: cookies.iter().map(|c| c.to_string()).collect(),
        body: Ok(body.to_string()),
    })
}

/// Connects with the given replies, one to each request, and gives the requests
/// beside the client or the error.
fn connect(profile: &QbtProfile, replies: Vec<Reply>) -> (Vec<Request>, Result<QbtClient, String>) {
    let (mut state, request) = QbtClient::connect(profile);
    let mut requests = vec![request];
    for reply in replies {
        match state.step(reply) {
            ConnectStep::Ask(next, request) => {
                state = next;
                requests.push(request);
            }
            ConnectStep::Connected(client) => return (requests, Ok(client)),
            ConnectStep::Failed(message) => return (requests, Err(message)),
        }
    }
    panic!("not enough replies");
}

fn form(request: &Request) -> Vec<(&str, &str)> {
    match &request.payload {
        Payload::Form(fields) => fields.iter().map(|f| (f.0.as_str(), f.1.as_str())).collect(),
        _ => panic!("no form"),
    }
}

#[test]
fn connect_with_auth_captures_sid_and_version() {
    let (requests, client) = connect(
        &profile("http://q", "admin", "pw"),
        vec![answer("200 OK", &["SID=abc123; path=/"], "Ok."), answer("200 OK", &[], "v5.0.3")],
    );
    assert_eq!(client.unwrap().version(), "v5.0.3");
    assert_eq!(requests[0].method, Method::Post);
    assert_eq!(requests[0].url, "http://q/api/v2/auth/login");
    assert_eq!(form(&requests[0]), [("username", "admin"), ("password", "pw")]);
    assert_eq!(requests[0].cookie, None);
    assert_eq!(requests[1].method, Method::Get);
    assert_eq!(requests[1].url, "http://q/api/v2/app/version");
    assert!(matches!(requests[1].payload, Payload::Nothing));
    assert_eq!(
        requests[1].cookie.as_deref(),
        Some("SID=abc123"),
        "version request must carry the SID cookie"
    );
}

#[test]
fn connect_captures_modern_qbt_sid_cookie() {
    // qBittorrent 5.1+ names the session cookie QBT_SID_<port> (suffixed
    // with the WebUI port so multiple instances coexist), not the legacy
    // `SID`. It must still be captured and replayed on the version
    // request, or an authenticated qBt answers 403.
    let (requests, client) = connect(
        &profile("http://q", "admin", "pw"),
        vec![
            answer(
                "204 No Content",
                &["QBT_SID_8080=EvMwGlN6; HttpOnly; SameSite=Lax; path=/"],
                "",
            ),
            answer("200 OK", &[], "v5.2.3.10"),
        ],
    );
    assert_eq!(client.unwrap().version(), "v5.2.3.10");
    assert_eq!(requests[1].url, "http://q/api/v2/app/version");
    assert_eq!(
        requests[1].cookie.as_deref(),
        Some("QBT_SID_8080=EvMwGlN6"),
        "version request must carry the modern per-port session cookie"
    );
}

#[test]
fn connect_bypass_mode_skips_login() {
    let (requests, client) =
        connect(&profile("http://q", "", ""), vec![answer("200 OK", &[], "v5.0.3")]);
    assert_eq!(client.unwrap().version(), "v5.0.3");
    assert_eq!(requests.len(), 1);
    assert_eq!(requests[0].method, Method::Get);
    assert_eq!(requests[0].url, "http://q/api/v2/app/version");
}

#[test]
fn login_fails_body_is_friendly_error() {
    let (_, client) =
        connect(&profile("http://q", "admin", "bad"), vec![answer("200 OK", &[], "Fails.")]);
    let err = client.err().unwrap();
    assert!(err.contains("login failed"), "was: {err}");
}

#[test]
fn login_401_is_friendly_error() {
    let (_, client) =
        connect(&profile("http://q", "admin", "bad"), vec![answer("401 Unauthorized", &[], "")]);
    let err = client.err().unwrap();
    assert!(err.contains("login failed"), "was: {err}");
}

#[test]
fn login_ok_without_sid_cookie_uses_bypass() {
    // qBt returns `200 Ok.` with no Set-Cookie when the client is exempt
    // from auth (localhost/whitelisted-subnet bypass) even though we sent
    // credentials. connect() must proceed cookieless, not bail: the
    // version check below still verifies connectivity via the bypass.
    let (requests, client) = connect(
        &profile("http://q", "admin", "pw"),
        vec![answer("200 OK", &[], "Ok."), answer("200 OK", &[], "v5.0.3")],
    );
    assert_eq!(client.unwrap().version(), "v5.0.3");
    assert_eq!(requests[0].url, "http://q/api/v2/auth/login");
    assert_eq!(requests[1].url, "http://q/api/v2/app/version");
    assert_eq!(requests[1].cookie, None, "no cookie was issued, so none must be sent");
}

#[test]
fn authed_category_and_add_carry_sid_cookie() {
    let (_, client) = connect(
        &profile("http://q", "admin", "pw"),
        vec![answer("200 OK", &["SID=xyz789; path=/"], "Ok."), answer("200 OK", &[], "v5.0.3")],
    );
    let client = client.unwrap();
    let category = client.ask_category("mikan");
    client.ensure_category("mikan", &answer("200 OK", &[], "")).unwrap();
    let add = client.ask_torrent("x.torrent", b"d0:e".to_vec(), "mikan");
    client.add_torrent(&answer("200 OK", &[], "Ok.")).unwrap();
    assert_eq!(
        category.cookie.as_deref(),
        Some("SID=xyz789"),
        "createCategory must carry the SID cookie"
    );
    assert_eq!(
        add.cookie.as_deref(),
        Some("SID=xyz789"),
        "torrents/add must carry the SID cookie"
    );
    match add.payload {
        Payload::Multipart(upload) => {
            assert_eq!(upload.mime, "application/x-bittorrent");
            assert!(
                upload.fields.contains(&("autoTMM".to_string(), "true".to_string())),
                "autoTMM must be true"
            );
        }
        _ => panic!("expected an upload"),
    }
}

fn bypassing() -> QbtClient {
    connect(&profile("http://q", "", ""), vec![answer("200 OK", &[], "v5.0.3")]).1.unwrap()
}

#[test]
fn ensure_category_accepts_ok_and_conflict() {
    let client = bypassing();
    let request = client.ask_category("mikan");
    client.ensure_category("mikan", &answer("200 OK", &[], "")).unwrap();
    client.ensure_category("mikan", &answer("409 Conflict", &[], "")).unwrap();
    assert_eq!(
        client.ensure_category("", &answer("400 Bad Request", &[], "")).unwrap_err(),
        "creating qBittorrent category \"\" failed: HTTP 400 Bad Request"
    );
    assert_eq!(request.method, Method::Post);
    assert_eq!(request.url, "http://q/api/v2/torrents/createCategory");
    assert_eq!(form(&request), [("category", "mikan"), ("savePath", "")]);
}

#[test]
fn add_torrent_sends_multipart_and_accepts_ok() {
    let client = bypassing();
    let add = client.ask_torrent("ep [01].torrent", b"d8:announce0:e".to_vec(), "石纪元");
    client.add_torrent(&answer("200 OK", &[], "Ok.")).unwrap();
    assert_eq!(add.method, Method::Post);
    assert_eq!(add.url, "http://q/api/v2/torrents/add");
    match add.payload {
        Payload::Multipart(upload) => {
            assert_eq!(upload.part, "torrents");
            assert_eq!(upload.filename, "ep [01].torrent");
            assert_eq!(upload.bytes, b"d8:announce0:e");
            assert_eq!(
                upload.fields,
                [
                    ("category".to_string(), "石纪元".to_string()),
                    ("autoTMM".to_string(), "true".to_string()),
                ]
            );
        }
        _ => panic!("expected an upload"),
    }
}

#[test]
fn add_torrent_fails_body_is_error() {
    let client = bypassing();
    let verdict = |status: &str, body: &str| client.add_torrent(&answer(status, &[], body));
    assert_eq!(
        verdict("200 OK", " Fails.\n").unwrap_err(),
        "qBittorrent rejected the torrent: Fails."
    );
    assert_eq!(
        verdict("415 Unsupported Media Type", "").unwrap_err(),
        "qBittorrent rejected the torrent: HTTP 415 Unsupported Media Type"
    );
    assert_eq!(
        verdict("409 Conflict", "no torrent").unwrap_err(),
        "qBittorrent rejected the torrent: no torrent"
    );
}

#[test]
fn an_endpoint_that_does_not_answer_is_told() {
    let silent = || Reply::Unreachable("connection refused".to_string());
    let hint = "could not reach qBittorrent at http://q — is the WebUI enabled?: connection refused";
    // A slash at the end of the endpoint does not matter.
    assert_eq!(connect(&profile("http://q//", "", ""), vec![silent()]).1.err().unwrap(), hint);
    assert_eq!(connect(&profile("http://q", "a", "b"), vec![silent()]).1.err().unwrap(), hint);
    let client = bypassing();
    assert_eq!(client.ensure_category("c", &silent()).unwrap_err(), hint);
    assert_eq!(client.add_torrent(&silent()).unwrap_err(), hint);
}

#[test]
fn a_version_that_is_not_answered_is_told() {
    let p = profile("http://q", "", "");
    assert_eq!(
        connect(&p, vec![answer("403 Forbidden", &[], "")]).1.err().unwrap(),
        "qBittorrent rejected the version request: HTTP status error (403 Forbidden)"
    );
    let broken = Reply::Answered(Answer {
        status: 200,
        status_text: "200 OK".to_string(),
        complaint: String::new(),
        cookies: vec![],
        body: Err("cut off".to_string()),
    });
    assert_eq!(
        connect(&p, vec![broken]).1.err().unwrap(),
        "reading the version response: cut off"
    );
    let (_, client) = connect(&p, vec![answer("200 OK", &["SID=late"], " v4.6 \n")]);
    let client = client.unwrap();
    assert_eq!(client.version(), "v4.6");
    // A cookie beside the version starts no session.
    assert_eq!(client.duplicate().ask_category("c").cookie, None);
}

#[test]
fn the_session_is_the_first_cookie_of_its_name() {
    let find = |headers: &[&str]| find_session(&headers.iter().map(|h| h.to_string()).collect());
    assert_eq!(find(&[]), None);
    assert_eq!(find(&["a=b", "SIDE=1", "QBT_SID=1"]), None);
    assert_eq!(find(&["a=b; SID=1", " SID=2 ; path=/", "SID=3"]).as_deref(), Some("SID=2"));
    assert_eq!(find(&["QBT_SID_1=x", "SID=2"]).as_deref(), Some("QBT_SID_1=x"));
    assert_eq!(find(&["SID"]).as_deref(), Some("SID"));
}

#[test]
fn a_login_body_that_cannot_be_read_is_empty() {
    let (state, _) = QbtClient::connect(&profile("http://q", "a", "b"));
    assert!(matches!(state, Connecting::LoggingIn(_)));
    let reply = Reply::Answered(Answer {
        status: 200,
        status_text: "200 OK".to_string(),
        complaint: String::new(),
        cookies: vec!["SID=1".to_string()],
        body: Err("cut off".to_string()),
    });
    assert!(matches!(state.step(reply), ConnectStep::Ask(Connecting::Checking(_), _)));
}

#[test]
fn a_shown_client_holds_no_session() {
    assert_eq!(
        bypassing().debug_text(),
        r#"QbtClient { endpoint: "http://q", sid: None, version: "v5.0.3" }"#
    );
    let (_, client) = connect(
        &profile("http://q", "a", "b"),
        vec![answer("200 OK", &["SID=hidden"], "Ok."), answer("200 OK", &[], "v5")],
    );
    assert_eq!(
        client.unwrap().debug_text(),
        r#"QbtClient { endpoint: "http://q", sid: Some("<redacted>"), version: "v5" }"#
    );
    assert_eq!(client_text("E", false, "V"), "QbtClient { endpoint: E, sid: None, version: V }");
}
