//! A client of qBittorrent's web interface: what it asks, and what it makes of
//! the answers. Nothing is sent from here.
use crate::feed;
use crate::profiles::{ProfileView, QbtProfile};
use crate::text;
use crate::text::{
    concat, concat3, cut_before, quote, same, starts_with, trim, trim_end_slashes,
};
use vstd::prelude::*;

verus! {

/// A client, before or after it is connected. It never goes through a proxy:
/// its endpoint is local.
pub struct QbtClient {
    endpoint: String,
    sid: Option<String>,
    version: String,
}

/// A client over sequences of characters.
pub struct ClientView {
    pub endpoint: Seq<char>,
    pub sid: Option<Seq<char>>,
    pub version: Seq<char>,
}

impl View for QbtClient {
    type V = ClientView;

    closed spec fn view(&self) -> ClientView {
        ClientView {
            endpoint: self.endpoint@,
            sid: feed::text_of(self.sid),
            version: self.version@,
        }
    }
}

/// What may be shown of a client whose endpoint and version are quoted as given:
/// whether it has a session, but not which.
pub open spec fn shown_client(endpoint: Seq<char>, session: bool, version: Seq<char>) -> Seq<char> {
    "QbtClient { endpoint: "@ + endpoint + ", sid: "@ + if session {
        "Some(\"<redacted>\")"@
    } else {
        "None"@
    } + (", version: "@ + version + " }"@)
}

/// What may be shown of a client whose endpoint and version are quoted as given.
pub fn client_text(endpoint: &str, session: bool, version: &str) -> (s: String)
    ensures
        s@ == shown_client(endpoint@, session, version@),
{
    let front = concat3("QbtClient { endpoint: ", endpoint, ", sid: ");
    let back = concat3(", version: ", version, " }");
    if session {
        concat3(&front, "Some(\"<redacted>\")", &back)
    } else {
        concat3(&front, "None", &back)
    }
}

// ---------------------------------------------------------------------------
// Requests

/// The method of a request.
#[derive(Debug, Clone, Copy, PartialEq, Eq, Structural)]
pub enum Method {
    Get,
    Post,
}

/// A file in a form, and the text fields beside it.
pub struct Upload {
    pub part: String,
    pub filename: String,
    pub mime: String,
    pub bytes: Vec<u8>,
    pub fields: Vec<(String, String)>,
}

/// What a request carries.
pub enum Payload {
    Nothing,
    Form(Vec<(String, String)>),
    Multipart(Upload),
}

/// A request to the web interface. The cookie goes into its `Cookie` header.
pub struct Request {
    pub method: Method,
    pub url: String,
    pub cookie: Option<String>,
    pub payload: Payload,
}

/// What a request carries, over sequences.
pub enum PayloadView {
    Nothing,
    Form(Seq<(Seq<char>, Seq<char>)>),
    Multipart {
        part: Seq<char>,
        filename: Seq<char>,
        mime: Seq<char>,
        bytes: Seq<u8>,
        fields: Seq<(Seq<char>, Seq<char>)>,
    },
}

/// A request over sequences.
pub struct RequestView {
    pub method: Method,
    pub url: Seq<char>,
    pub cookie: Option<Seq<char>>,
    pub payload: PayloadView,
}

/// The fields of a form.
pub open spec fn fields(v: Seq<(String, String)>) -> Seq<(Seq<char>, Seq<char>)> {
    v.map_values(|f: (String, String)| (f.0@, f.1@))
}

impl View for Payload {
    type V = PayloadView;

    open spec fn view(&self) -> PayloadView {
        match self {
            Payload::Nothing => PayloadView::Nothing,
            Payload::Form(f) => PayloadView::Form(fields(f@)),
            Payload::Multipart(u) => PayloadView::Multipart {
                part: u.part@,
                filename: u.filename@,
                mime: u.mime@,
                bytes: u.bytes@,
                fields: fields(u.fields@),
            },
        }
    }
}

impl View for Request {
    type V = RequestView;

    open spec fn view(&self) -> RequestView {
        RequestView {
            method: self.method,
            url: self.url@,
            cookie: feed::text_of(self.cookie),
            payload: self.payload@,
        }
    }
}

/// The request that logs in.
pub open spec fn login_request(
    endpoint: Seq<char>,
    username: Seq<char>,
    password: Seq<char>,
) -> RequestView {
    RequestView {
        method: Method::Post,
        url: endpoint + "/api/v2/auth/login"@,
        cookie: None,
        payload: PayloadView::Form(seq![("username"@, username), ("password"@, password)]),
    }
}

/// The request that asks for the version.
pub open spec fn version_request(c: ClientView) -> RequestView {
    RequestView {
        method: Method::Get,
        url: c.endpoint + "/api/v2/app/version"@,
        cookie: c.sid,
        payload: PayloadView::Nothing,
    }
}

/// The request that creates a category.
pub open spec fn category_request(c: ClientView, name: Seq<char>) -> RequestView {
    RequestView {
        method: Method::Post,
        url: c.endpoint + "/api/v2/torrents/createCategory"@,
        cookie: c.sid,
        payload: PayloadView::Form(seq![("category"@, name), ("savePath"@, ""@)]),
    }
}

/// The request that adds a torrent to a category, for which qBittorrent manages
/// where it is saved.
pub open spec fn torrent_request(
    c: ClientView,
    filename: Seq<char>,
    bytes: Seq<u8>,
    category: Seq<char>,
) -> RequestView {
    RequestView {
        method: Method::Post,
        url: c.endpoint + "/api/v2/torrents/add"@,
        cookie: c.sid,
        payload: PayloadView::Multipart {
            part: "torrents"@,
            filename,
            mime: "application/x-bittorrent"@,
            bytes,
            fields: seq![("category"@, category), ("autoTMM"@, "true"@)],
        },
    }
}

/// A form of two fields.
fn two_fields(a: &str, b: &str, c: &str, d: &str) -> (v: Vec<(String, String)>)
    ensures
        fields(v@) == seq![(a@, b@), (c@, d@)],
{
    let mut v: Vec<(String, String)> = Vec::new();
    v.push((a.to_owned(), b.to_owned()));
    v.push((c.to_owned(), d.to_owned()));
    assert(fields(v@) == seq![(a@, b@), (c@, d@)]);
    v
}

// ---------------------------------------------------------------------------
// Replies

/// What came back for a request.
pub struct Answer {
    /// The status code.
    pub status: u16,
    /// The status code with its reason, such as `404 Not Found`.
    pub status_text: String,
    /// How the HTTP client words the status as an error.
    pub complaint: String,
    /// The values of the `Set-Cookie` headers, in order.
    pub cookies: Vec<String>,
    /// The body, or why it could not be read.
    pub body: Result<String, String>,
}

/// An answer, or why there was none.
pub enum Reply {
    Unreachable(String),
    Answered(Answer),
}

/// A status that means success.
pub open spec fn success(status: u16) -> bool {
    200 <= status < 300
}

/// A status that means a fault of the client or of the server.
pub open spec fn fault(status: u16) -> bool {
    400 <= status < 600
}

/// The body of an answer, empty where it could not be read, trimmed.
pub open spec fn body_text(a: Answer) -> Seq<char> {
    match a.body {
        Ok(t) => text::trimmed(t@),
        Err(_) => text::trimmed(Seq::empty()),
    }
}

/// An answer that grants what was asked: success, and not the body `Fails.`,
/// with which some versions refuse.
pub open spec fn granted(a: Answer) -> bool {
    success(a.status) && body_text(a) != "Fails."@
}

/// The cookie in a `Set-Cookie` header, without its attributes.
pub open spec fn cookie_pair(header: Seq<char>) -> Seq<char> {
    text::trimmed(text::before_first(header, ";"@))
}

/// A cookie that holds a session. Its name is `SID`, or from version 5.1 on
/// `QBT_SID_` and the port.
pub open spec fn names_session(pair: Seq<char>) -> bool {
    let name = text::before_first(pair, "="@);
    name == "SID"@ || text::stands_at(name, "QBT_SID_"@, 0)
}

/// The first cookie that holds a session.
pub open spec fn session_cookie(headers: Seq<Seq<char>>) -> Option<Seq<char>>
    decreases headers.len(),
{
    if headers.len() == 0 {
        None
    } else if names_session(cookie_pair(headers[0])) {
        Some(cookie_pair(headers[0]))
    } else {
        session_cookie(headers.skip(1))
    }
}

/// That the endpoint could not be reached, and why.
pub open spec fn unreachable(endpoint: Seq<char>, cause: Seq<char>) -> Seq<char> {
    "could not reach qBittorrent at "@ + endpoint + " — is the WebUI enabled?"@ + ": "@ + cause
}

/// The first cookie that holds a session.
pub fn find_session(headers: &Vec<String>) -> (r: Option<String>)
    ensures
        feed::text_of(r) == session_cookie(text::texts(headers@)),
{
    let mut i: usize = 0;
    let ghost all = text::texts(headers@);
    proof {
        assert(all.skip(0) == all);
    }
    while i < headers.len()
        invariant
            i <= headers@.len(),
            all == text::texts(headers@),
            session_cookie(all) == session_cookie(all.skip(i as int)),
        decreases headers@.len() - i,
    {
        let value = cut_before(&headers[i], ";");
        let pair = trim(&value);
        let name = cut_before(&pair, "=");
        proof {
            assert(all.skip(i as int)[0] == headers@[i as int]@);
            assert(all.skip(i as int).skip(1) == all.skip(i + 1));
        }
        if same(&name, "SID") || starts_with(&name, "QBT_SID_") {
            return Some(pair);
        }
        i = i + 1;
    }
    None
}

/// The body of an answer, empty where it could not be read, trimmed.
fn trimmed_body(a: &Answer) -> (s: String)
    ensures
        s@ == body_text(*a),
{
    match &a.body {
        Ok(t) => trim(t),
        Err(_) => {
            let nothing = String::new();
            trim(&nothing)
        },
    }
}

/// Whether an answer grants what was asked.
fn is_granted(a: &Answer) -> (r: bool)
    ensures
        r == granted(*a),
{
    let body = trimmed_body(a);
    200 <= a.status && a.status < 300 && !same(&body, "Fails.")
}

// ---------------------------------------------------------------------------
// Connecting

/// A client that waits for an answer.
pub enum Connecting {
    LoggingIn(QbtClient),
    Checking(QbtClient),
}

/// What follows an answer while connecting.
pub enum ConnectStep {
    Ask(Connecting, Request),
    Connected(QbtClient),
    Failed(String),
}

/// A client that waits for an answer, over sequences.
pub enum ConnectingView {
    LoggingIn(ClientView),
    Checking(ClientView),
}

/// What follows an answer, over sequences.
pub enum ConnectView {
    Ask(ConnectingView, RequestView),
    Connected(ClientView),
    Failed(Seq<char>),
}

impl View for Connecting {
    type V = ConnectingView;

    open spec fn view(&self) -> ConnectingView {
        match self {
            Connecting::LoggingIn(c) => ConnectingView::LoggingIn(c@),
            Connecting::Checking(c) => ConnectingView::Checking(c@),
        }
    }
}

impl View for ConnectStep {
    type V = ConnectView;

    open spec fn view(&self) -> ConnectView {
        match self {
            ConnectStep::Ask(c, r) => ConnectView::Ask(c@, r@),
            ConnectStep::Connected(c) => ConnectView::Connected(c@),
            ConnectStep::Failed(t) => ConnectView::Failed(t@),
        }
    }
}

/// The client of a profile before anything is asked.
pub open spec fn fresh_client(p: ProfileView) -> ClientView {
    ClientView {
        endpoint: text::trim_end_where(p.endpoint, text::is_char('/')),
        sid: None,
        version: Seq::empty(),
    }
}

/// How connecting begins: with a login where the profile has a user name, else
/// with the version.
pub open spec fn first_question(p: ProfileView) -> (ConnectingView, RequestView) {
    let c = fresh_client(p);
    if p.username.len() > 0 {
        (ConnectingView::LoggingIn(c), login_request(c.endpoint, p.username, p.password))
    } else {
        (ConnectingView::Checking(c), version_request(c))
    }
}

/// What follows a reply to the login. A login that is granted without a session
/// means that this client needs none.
pub open spec fn after_login(c: ClientView, reply: Reply) -> ConnectView {
    match reply {
        Reply::Unreachable(cause) => ConnectView::Failed(unreachable(c.endpoint, cause@)),
        Reply::Answered(a) => if !granted(a) {
            ConnectView::Failed("qBittorrent login failed — check username/password"@)
        } else {
            let d = ClientView { sid: session_cookie(text::texts(a.cookies@)), ..c };
            ConnectView::Ask(ConnectingView::Checking(d), version_request(d))
        },
    }
}

/// What follows a reply to the question for the version.
pub open spec fn after_version(c: ClientView, reply: Reply) -> ConnectView {
    match reply {
        Reply::Unreachable(cause) => ConnectView::Failed(unreachable(c.endpoint, cause@)),
        Reply::Answered(a) => if fault(a.status) {
            ConnectView::Failed("qBittorrent rejected the version request: "@ + a.complaint@)
        } else {
            match a.body {
                Ok(t) => ConnectView::Connected(ClientView { version: text::trimmed(t@), ..c }),
                Err(cause) => ConnectView::Failed("reading the version response: "@ + cause@),
            }
        },
    }
}

/// What follows a reply while connecting.
pub open spec fn after_reply(state: ConnectingView, reply: Reply) -> ConnectView {
    match state {
        ConnectingView::LoggingIn(c) => after_login(c, reply),
        ConnectingView::Checking(c) => after_version(c, reply),
    }
}

impl QbtClient {
    /// The client of a profile, and the first question on the way to be
    /// connected.
    pub fn connect(profile: &QbtProfile) -> (r: (Connecting, Request))
        ensures
            (r.0@, r.1@) == first_question(profile@),
    {
        let client = QbtClient {
            endpoint: trim_end_slashes(&profile.endpoint),
            sid: None,
            version: String::new(),
        };
        if profile.username.as_str().is_empty() {
            let request = client.ask_version();
            (Connecting::Checking(client), request)
        } else {
            let request = client.login(&profile.username, &profile.password);
            (Connecting::LoggingIn(client), request)
        }
    }

    /// The version that qBittorrent answered with.
    pub fn version(&self) -> (s: &str)
        ensures
            s@ == self@.version,
    {
        self.version.as_str()
    }

    /// What may be shown of it.
    pub fn debug_text(&self) -> (s: String)
        ensures
            s@ == shown_client(
                text::quoted(self@.endpoint),
                self@.sid is Some,
                text::quoted(self@.version),
            ),
    {
        let endpoint = quote(&self.endpoint);
        let version = quote(&self.version);
        client_text(&endpoint, self.sid.is_some(), &version)
    }

    /// The request that logs in.
    fn login(&self, username: &str, password: &str) -> (r: Request)
        ensures
            r@ == login_request(self@.endpoint, username@, password@),
    {
        Request {
            method: Method::Post,
            url: concat(&self.endpoint, "/api/v2/auth/login"),
            cookie: None,
            payload: Payload::Form(two_fields("username", username, "password", password)),
        }
    }

    /// The session's cookie, for the header of a request.
    fn with_cookie(&self) -> (c: Option<String>)
        ensures
            feed::text_of(c) == self@.sid,
    {
        match &self.sid {
            Some(sid) => Some(sid.clone()),
            None => None,
        }
    }

    /// The request that asks for the version.
    fn ask_version(&self) -> (r: Request)
        ensures
            r@ == version_request(self@),
    {
        Request {
            method: Method::Get,
            url: concat(&self.endpoint, "/api/v2/app/version"),
            cookie: self.with_cookie(),
            payload: Payload::Nothing,
        }
    }

    /// That the endpoint could not be reached, and why.
    fn unreachable_hint(&self, cause: &str) -> (s: String)
        ensures
            s@ == unreachable(self@.endpoint, cause@),
    {
        let hint = concat3(
            "could not reach qBittorrent at ",
            &self.endpoint,
            " — is the WebUI enabled?",
        );
        concat3(&hint, ": ", cause)
    }

    /// The request that creates a category.
    pub fn ask_category(&self, name: &str) -> (r: Request)
        ensures
            r@ == category_request(self@, name@),
    {
        Request {
            method: Method::Post,
            url: concat(&self.endpoint, "/api/v2/torrents/createCategory"),
            cookie: self.with_cookie(),
            payload: Payload::Form(two_fields("category", name, "savePath", "")),
        }
    }

    /// What a reply to the request for a category means. A conflict means that
    /// it is there already.
    pub fn ensure_category(&self, name: &str, reply: &Reply) -> (r: Result<(), String>)
        ensures
            match *reply {
                Reply::Unreachable(cause) => r is Err && r->Err_0@ == unreachable(
                    self@.endpoint,
                    cause@,
                ),
                Reply::Answered(a) => if success(a.status) || a.status == 409 {
                    r is Ok
                } else {
                    r is Err && r->Err_0@ == "creating qBittorrent category \""@ + name@
                        + "\" failed: HTTP "@ + a.status_text@
                },
            },
    {
        match reply {
            Reply::Unreachable(cause) => Err(self.unreachable_hint(cause)),
            Reply::Answered(a) => {
                if (200 <= a.status && a.status < 300) || a.status == 409 {
                    Ok(())
                } else {
                    let front = concat3(
                        "creating qBittorrent category \"",
                        name,
                        "\" failed: HTTP ",
                    );
                    Err(concat(&front, &a.status_text))
                }
            },
        }
    }

    /// The request that adds a torrent.
    pub fn ask_torrent(&self, filename: &str, bytes: Vec<u8>, category: &str) -> (r: Request)
        ensures
            r@ == torrent_request(self@, filename@, bytes@, category@),
            r.payload matches Payload::Multipart(u) && u.bytes@ == bytes@ && u.filename@
                == filename@,
    {
        Request {
            method: Method::Post,
            url: concat(&self.endpoint, "/api/v2/torrents/add"),
            cookie: self.with_cookie(),
            payload: Payload::Multipart(
                Upload {
                    part: "torrents".to_owned(),
                    filename: filename.to_owned(),
                    mime: "application/x-bittorrent".to_owned(),
                    bytes,
                    fields: two_fields("category", category, "autoTMM", "true"),
                },
            ),
        }
    }

    /// What a reply to the request that adds a torrent means.
    pub fn add_torrent(&self, reply: &Reply) -> (r: Result<(), String>)
        ensures
            match *reply {
                Reply::Unreachable(cause) => r is Err && r->Err_0@ == unreachable(
                    self@.endpoint,
                    cause@,
                ),
                Reply::Answered(a) => if granted(a) {
                    r is Ok
                } else {
                    r is Err && r->Err_0@ == "qBittorrent rejected the torrent: "@ + if body_text(
                        a,
                    ).len() == 0 {
                        "HTTP "@ + a.status_text@
                    } else {
                        body_text(a)
                    }
                },
            },
    {
        match reply {
            Reply::Unreachable(cause) => Err(self.unreachable_hint(cause)),
            Reply::Answered(a) => {
                if is_granted(a) {
                    Ok(())
                } else {
                    let body = trimmed_body(a);
                    let detail = if body.as_str().is_empty() {
                        concat("HTTP ", &a.status_text)
                    } else {
                        body
                    };
                    Err(concat("qBittorrent rejected the torrent: ", &detail))
                }
            },
        }
    }

    /// The same client again.
    pub fn duplicate(&self) -> (c: QbtClient)
        ensures
            c == *self,
    {
        QbtClient {
            endpoint: self.endpoint.clone(),
            sid: match &self.sid {
                Some(s) => Some(s.clone()),
                None => None,
            },
            version: self.version.clone(),
        }
    }
}

impl Connecting {
    /// What follows a reply.
    pub fn step(self, reply: Reply) -> (r: ConnectStep)
        ensures
            r@ == after_reply(self@, reply),
    {
        match self {
            Connecting::LoggingIn(client) => match reply {
                Reply::Unreachable(cause) => ConnectStep::Failed(client.unreachable_hint(&cause)),
                Reply::Answered(a) => {
                    if is_granted(&a) {
                        let client = QbtClient {
                            endpoint: client.endpoint,
                            sid: find_session(&a.cookies),
                            version: client.version,
                        };
                        let request = client.ask_version();
                        ConnectStep::Ask(Connecting::Checking(client), request)
                    } else {
                        ConnectStep::Failed(
                            "qBittorrent login failed — check username/password".to_owned(),
                        )
                    }
                },
            },
            Connecting::Checking(client) => match reply {
                Reply::Unreachable(cause) => ConnectStep::Failed(client.unreachable_hint(&cause)),
                Reply::Answered(a) => {
                    if 400 <= a.status && a.status < 600 {
                        ConnectStep::Failed(
                            concat("qBittorrent rejected the version request: ", &a.complaint),
                        )
                    } else {
                        match a.body {
                            Ok(t) => ConnectStep::Connected(
                                QbtClient {
                                    endpoint: client.endpoint,
                                    sid: client.sid,
                                    version: trim(&t),
                                },
                            ),
                            Err(cause) => ConnectStep::Failed(
                                concat("reading the version response: ", &cause),
                            ),
                        }
                    }
                },
            },
        }
    }
}

/// Where torrents go: a connected client, the category, and the name and
/// profile to save where it is a new one that is to be kept.
pub struct QbtSetup {
    pub client: QbtClient,
    pub category: String,
    pub save_as: Option<(String, QbtProfile)>,
}

// ---------------------------------------------------------------------------
// Laws

/// How far connecting has come after the given replies.
pub open spec fn connection(p: ProfileView, replies: Seq<Reply>) -> ConnectView
    decreases replies.len(),
{
    if replies.len() == 0 {
        let (state, request) = first_question(p);
        ConnectView::Ask(state, request)
    } else {
        match connection(p, replies.drop_last()) {
            ConnectView::Ask(state, _) => after_reply(state, replies.last()),
            end => end,
        }
    }
}

/// Connecting takes at most two replies, and one without a user name.
pub proof fn law_connecting_ends(p: ProfileView, replies: Seq<Reply>)
    requires
        replies.len() >= 2 || (replies.len() == 1 && p.username.len() == 0),
    ensures
        !(connection(p, replies) is Ask),
    decreases replies.len(),
{
    if replies.len() > 2 || (replies.len() == 2 && p.username.len() == 0) {
        law_connecting_ends(p, replies.drop_last());
    } else {
        reveal_with_fuel(connection, 3);
    }
}

/// Without a user name nothing logs in: the only question is the one for the
/// version, and no request carries a cookie.
pub proof fn law_without_a_user_nothing_logs_in(p: ProfileView, replies: Seq<Reply>)
    requires
        p.username.len() == 0,
    ensures
        connection(p, replies) matches ConnectView::Ask(_, r) ==> r == version_request(
            fresh_client(p),
        ) && r.cookie is None,
        connection(p, replies) matches ConnectView::Connected(c) ==> c.sid is None,
    decreases replies.len(),
{
    if replies.len() > 0 {
        law_without_a_user_nothing_logs_in(p, replies.drop_last());
        if replies.len() == 1 {
            reveal_with_fuel(connection, 2);
        } else {
            law_connecting_ends(p, replies.drop_last());
        }
    }
}

/// With a user name, a client is connected exactly where the login is granted
/// and the version answered. It then carries the session of the login, where
/// one was given, in every request, and the version that was answered.
pub proof fn law_a_connected_client_carries_its_session(
    p: ProfileView,
    login: Answer,
    version: Answer,
)
    requires
        p.username.len() > 0,
    ensures
        connection(p, seq![Reply::Answered(login), Reply::Answered(version)]) is Connected
            <==> granted(login) && !fault(version.status) && version.body is Ok,
        connection(p, seq![Reply::Answered(login), Reply::Answered(version)]) matches
            ConnectView::Connected(c) ==> {
            let session = session_cookie(text::texts(login.cookies@));
            &&& c.sid == session
            &&& c.version == text::trimmed(version.body->Ok_0@)
            &&& version_request(c).cookie == session
            &&& forall|name: Seq<char>| (#[trigger] category_request(c, name)).cookie == session
            &&& forall|f: Seq<char>, b: Seq<u8>, k: Seq<char>|
                (#[trigger] torrent_request(c, f, b, k)).cookie == session
        },
        granted(login) ==> connection(p, seq![Reply::Answered(login)]) is Ask,
        connection(p, seq![Reply::Answered(login)]) matches ConnectView::Ask(_, r) ==> r.cookie
            == session_cookie(text::texts(login.cookies@)),
{
    let one = seq![Reply::Answered(login)];
    let two = seq![Reply::Answered(login), Reply::Answered(version)];
    assert(one.drop_last() == Seq::<Reply>::empty());
    assert(two.drop_last() == one);
    reveal_with_fuel(connection, 3);
}

/// A login that is refused, by its status or by the body `Fails.`, ends the
/// connection whatever else comes.
pub proof fn law_a_refused_login_fails(p: ProfileView, login: Answer)
    requires
        p.username.len() > 0,
        !success(login.status) || body_text(login) == "Fails."@,
    ensures
        connection(p, seq![Reply::Answered(login)]) == ConnectView::Failed(
            "qBittorrent login failed — check username/password"@,
        ),
{
    let one = seq![Reply::Answered(login)];
    assert(one.drop_last() == Seq::<Reply>::empty());
    reveal_with_fuel(connection, 2);
}

/// The password goes into the login and nowhere else: once a reply is there,
/// nothing that follows depends on it.
pub proof fn law_the_password_goes_to_the_login_alone(
    p: ProfileView,
    q: ProfileView,
    replies: Seq<Reply>,
)
    requires
        p.endpoint == q.endpoint,
        p.username == q.username,
        replies.len() > 0,
    ensures
        connection(p, replies) == connection(q, replies),
    decreases replies.len(),
{
    if replies.len() == 1 {
        reveal_with_fuel(connection, 2);
    } else {
        law_the_password_goes_to_the_login_alone(p, q, replies.drop_last());
    }
}

/// A request that adds a torrent carries exactly the bytes that are given, however
/// many, under the given name and in the given category, to the endpoint and with
/// the session of the client.
pub proof fn law_a_torrent_is_sent_whole(
    c: ClientView,
    filename: Seq<char>,
    bytes: Seq<u8>,
    category: Seq<char>,
    r: Request,
)
    requires
        r@ == torrent_request(c, filename, bytes, category),
    ensures
        r.payload is Multipart,
        r.payload->Multipart_0.bytes@ == bytes,
        r.payload->Multipart_0.filename@ == filename,
        r.payload->Multipart_0.part@ == "torrents"@,
        r.payload->Multipart_0.mime@ == "application/x-bittorrent"@,
        r.payload->Multipart_0.fields@.len() == 2,
        r.payload->Multipart_0.fields@[0].0@ == "category"@,
        r.payload->Multipart_0.fields@[0].1@ == category,
        r.payload->Multipart_0.fields@[1].0@ == "autoTMM"@,
        r.payload->Multipart_0.fields@[1].1@ == "true"@,
        r.method == Method::Post,
        r.url@ == c.endpoint + "/api/v2/torrents/add"@,
        r.cookie is Some <==> c.sid is Some,
        r.cookie matches Some(t) ==> c.sid == Some(t@),
{
    let v = r.payload->Multipart_0.fields@;
    assert(fields(v).len() == v.len());
    assert(fields(v)[0] == (v[0].0@, v[0].1@));
    assert(fields(v)[1] == (v[1].0@, v[1].1@));
}

/// A login carries the whole user name and the whole password; a category is
/// asked for by its whole name; and the version with nothing. All go to the
/// endpoint of the client, and all but the login with its session.
pub proof fn law_questions_are_asked_whole(
    c: ClientView,
    username: Seq<char>,
    password: Seq<char>,
    name: Seq<char>,
)
    ensures
        login_request(c.endpoint, username, password).method == Method::Post,
        login_request(c.endpoint, username, password).url == c.endpoint + "/api/v2/auth/login"@,
        login_request(c.endpoint, username, password).cookie is None,
        login_request(c.endpoint, username, password).payload == PayloadView::Form(
            seq![("username"@, username), ("password"@, password)],
        ),
        version_request(c).method == Method::Get,
        version_request(c).url == c.endpoint + "/api/v2/app/version"@,
        version_request(c).cookie == c.sid,
        version_request(c).payload is Nothing,
        category_request(c, name).method == Method::Post,
        category_request(c, name).url == c.endpoint + "/api/v2/torrents/createCategory"@,
        category_request(c, name).cookie == c.sid,
        category_request(c, name).payload == PayloadView::Form(
            seq![("category"@, name), ("savePath"@, ""@)],
        ),
{
}

/// What a request shows over sequences is all of it.
pub proof fn law_requests_are_seen_whole(r: Request, v: Seq<(String, String)>, i: int)
    ensures
        r@.method == r.method,
        r@.url == r.url@,
        r.cookie is None ==> r@.cookie is None,
        r.cookie matches Some(t) ==> r@.cookie == Some(t@),
        r.payload is Nothing <==> r@.payload is Nothing,
        r.payload matches Payload::Form(f) ==> r@.payload == PayloadView::Form(fields(f@)),
        r.payload matches Payload::Multipart(u) ==> r@.payload == (PayloadView::Multipart {
            part: u.part@,
            filename: u.filename@,
            mime: u.mime@,
            bytes: u.bytes@,
            fields: fields(u.fields@),
        }),
        fields(v).len() == v.len(),
        0 <= i < v.len() ==> fields(v)[i] == (v[i].0@, v[i].1@),
{
}

/// The endpoint of a client is that of the profile without the slashes at its
/// end, and nothing else of it is cut. A client begins without a session.
pub proof fn law_an_endpoint_loses_only_slashes(p: ProfileView) -> (k: nat)
    ensures
        p.endpoint == fresh_client(p).endpoint + Seq::new(k, |i: int| '/'),
        fresh_client(p).endpoint.len() > 0 ==> fresh_client(p).endpoint.last() != '/',
        fresh_client(p).sid is None,
        fresh_client(p).version.len() == 0,
{
    let end = text::is_char('/');
    text::law_trimming_an_end_cuts_only_that(p.endpoint, end);
    let kept = fresh_client(p).endpoint;
    let k = (p.endpoint.len() - kept.len()) as nat;
    assert(p.endpoint =~= kept + Seq::new(k, |i: int| '/'));
    k
}

/// Connecting begins with the whole user name and password where there is a user
/// name, and else with the question for the version.
pub proof fn law_connecting_begins_with_the_profile(p: ProfileView)
    ensures
        p.username.len() > 0 ==> first_question(p).0 == ConnectingView::LoggingIn(fresh_client(p))
            && first_question(p).1.payload == PayloadView::Form(
            seq![("username"@, p.username), ("password"@, p.password)],
        ) && first_question(p).1.url == fresh_client(p).endpoint + "/api/v2/auth/login"@,
        p.username.len() == 0 ==> first_question(p).0 == ConnectingView::Checking(fresh_client(p))
            && first_question(p).1.payload is Nothing && first_question(p).1.url == fresh_client(
            p,
        ).endpoint + "/api/v2/app/version"@,
{
}

/// A reply to the login leaves the endpoint as it is, and one to the question for
/// the version the endpoint and the session. The version is the whole body without
/// the white space around it.
pub proof fn law_connecting_keeps_the_client(c: ClientView, a: Answer)
    ensures
        after_login(c, Reply::Answered(a)) matches ConnectView::Ask(next, r) ==> (next matches
            ConnectingView::Checking(d) && d.endpoint == c.endpoint && d.version == c.version
            && d.sid == session_cookie(text::texts(a.cookies@)) && r.url == c.endpoint
            + "/api/v2/app/version"@ && r.cookie == d.sid && r.payload is Nothing),
        after_version(c, Reply::Answered(a)) is Connected <==> !(400 <= a.status < 600) && a.body is Ok,
        after_version(c, Reply::Answered(a)) matches ConnectView::Connected(d) ==> d.endpoint
            == c.endpoint && d.sid == c.sid && d.version == text::trimmed(a.body->Ok_0@),
        400 <= a.status < 600 ==> after_version(c, Reply::Answered(a)) == ConnectView::Failed(
            "qBittorrent rejected the version request: "@ + a.complaint@,
        ),
        !(400 <= a.status < 600) && a.body is Err ==> after_version(c, Reply::Answered(a))
            == ConnectView::Failed("reading the version response: "@ + a.body->Err_0@),
{
}

/// Where nothing answers, the whole endpoint and the whole cause are told.
pub proof fn law_an_unreachable_endpoint_is_told(c: ClientView, cause: String)
    ensures
        after_login(c, Reply::Unreachable(cause)) == ConnectView::Failed(
            "could not reach qBittorrent at "@ + c.endpoint + " — is the WebUI enabled?"@ + ": "@
                + cause@,
        ),
        after_version(c, Reply::Unreachable(cause)) == after_login(c, Reply::Unreachable(cause)),
{
}

/// An answer grants exactly where its status is one of success and its body, up to
/// white space around it, is not `Fails.`; one whose body cannot be read counts as
/// empty.
pub proof fn law_only_success_grants(a: Answer)
    ensures
        !(200 <= a.status < 300) ==> !granted(a),
        200 <= a.status < 300 && a.body is Err ==> granted(a),
        200 <= a.status < 300 && (a.body matches Ok(t) && text::trimmed(t@) != "Fails."@)
            ==> granted(a),
        a.body matches Ok(t) && text::trimmed(t@) == "Fails."@ ==> !granted(a),
        a.body matches Ok(t) ==> body_text(a) == text::trimmed(t@),
        a.body is Err ==> body_text(a).len() == 0,
{
    text::law_trimming_cuts_only_white_space(Seq::empty());
    reveal_strlit("Fails.");
    assert("Fails."@.len() == 6);
}

proof fn lemma_no_part(s: Seq<char>, c: char, pat: Seq<char>)
    requires
        pat == seq![c],
        forall|i: int| 0 <= i < s.len() ==> #[trigger] s[i] != c,
    ensures
        text::before_first(s, pat) == s,
        text::after_first(s, pat) is None,
{
    text::law_cutting_is_at_the_first(s, pat);
    if let Some(rest) = text::after_first(s, pat) {
        let n = text::before_first(s, pat).len() as int;
        assert(s[n] == c);
    }
}

proof fn lemma_cut_at(front: Seq<char>, c: char, pat: Seq<char>, rest: Seq<char>)
    requires
        pat == seq![c],
        forall|i: int| 0 <= i < front.len() ==> #[trigger] front[i] != c,
    ensures
        text::before_first(front + pat + rest, pat) == front,
        text::after_first(front + pat + rest, pat) == Some(rest),
{
    let s = front + pat + rest;
    assert forall|j: int| 0 <= j < front.len() implies (#[trigger] s.subrange(j, j + pat.len()))
        != pat by {
        assert(s.subrange(j, j + 1)[0] == front[j]);
    }
    text::law_parts_are_found_again(front, pat, rest);
}

/// A header that sets the cookie of a session gives the whole cookie, name and
/// value, whatever attributes follow: the name is `SID`, or any that begins with
/// `QBT_SID_`.
pub proof fn law_session_cookies_read_back(
    name: Seq<char>,
    value: Seq<char>,
    attributes: Seq<char>,
)
    requires
        name == "SID"@ || exists|port: Seq<char>| name == "QBT_SID_"@ + port,
        forall|i: int| 0 <= i < name.len() ==> #[trigger] name[i] != '=' && name[i] != ';',
        forall|i: int| 0 <= i < value.len() ==> #[trigger] value[i] != ';',
        value.len() > 0,
        !text::white_space(value.last()),
        attributes.len() > 0 ==> attributes[0] == ';',
    ensures
        session_cookie(seq![name + "="@ + value + attributes]) == Some(name + "="@ + value),
{
    reveal_strlit("=");
    reveal_strlit(";");
    reveal_strlit("SID");
    reveal_strlit("QBT_SID_");
    assert("="@ == seq!['=']);
    assert(";"@ == seq![';']);
    let pair = name + "="@ + value;
    let header = pair + attributes;
    assert("SID"@[0] == 'S');
    assert("QBT_SID_"@[0] == 'Q');
    assert(name.len() > 0 && (name[0] == 'S' || name[0] == 'Q')) by {
        if name != "SID"@ {
            let port = choose|port: Seq<char>| name == "QBT_SID_"@ + port;
            assert(name[0] == "QBT_SID_"@[0]);
        }
    }
    assert forall|i: int| 0 <= i < pair.len() implies #[trigger] pair[i] != ';' by {
        if i < name.len() {
            assert(pair[i] == name[i]);
        } else if i > name.len() {
            assert(pair[i] == value[i - name.len() - 1]);
        }
    }
    if attributes.len() == 0 {
        assert(header == pair);
        lemma_no_part(pair, ';', ";"@);
    } else {
        let rest = attributes.skip(1);
        assert(header == pair + ";"@ + rest);
        lemma_cut_at(pair, ';', ";"@, rest);
    }
    assert(pair[0] == name[0]);
    assert(pair.last() == value.last());
    assert(!text::white_space('S') && !text::white_space('Q'));
    text::lemma_trimmed_fixed(pair);
    lemma_cut_at(name, '=', "="@, value);
    if name != "SID"@ {
        let port = choose|port: Seq<char>| name == "QBT_SID_"@ + port;
        assert(name.subrange(0, 8) == "QBT_SID_"@);
    }
    let headers = seq![header];
    assert(headers[0] == header);
    reveal_with_fuel(session_cookie, 2);
}

/// The headers are read from the first on, all of them: those in front without a
/// session are passed over, and those behind the session do not matter.
pub proof fn law_the_first_session_counts(
    before: Seq<Seq<char>>,
    header: Seq<char>,
    after: Seq<Seq<char>>,
)
    requires
        session_cookie(before) is None,
    ensures
        session_cookie(Seq::empty()) is None,
        session_cookie(before + after) == session_cookie(after),
        session_cookie(seq![header]) is Some ==> session_cookie(before + seq![header] + after)
            == session_cookie(seq![header]),
    decreases before.len(),
{
    if before.len() == 0 {
        assert(before + after == after);
        let all = before + seq![header] + after;
        assert(all[0] == header);
        reveal_with_fuel(session_cookie, 2);
        assert(seq![header].skip(1) == Seq::<Seq<char>>::empty());
    } else {
        law_the_first_session_counts(before.skip(1), header, after);
        assert((before + after).skip(1) == before.skip(1) + after);
        assert((before + seq![header] + after).skip(1) == before.skip(1) + seq![header] + after);
    }
}

/// A cookie of any other name is no session.
pub proof fn law_other_cookies_are_no_session(name: Seq<char>, value: Seq<char>)
    requires
        name != "SID"@,
        name.len() < 8 || name.take(8) != "QBT_SID_"@,
        name.len() > 0,
        !text::white_space(name[0]),
        value.len() > 0,
        !text::white_space(value.last()),
        forall|i: int| 0 <= i < name.len() ==> #[trigger] name[i] != '=' && name[i] != ';',
        forall|i: int| 0 <= i < value.len() ==> #[trigger] value[i] != ';',
    ensures
        session_cookie(seq![name + "="@ + value]) is None,
{
    reveal_strlit("=");
    reveal_strlit(";");
    reveal_strlit("QBT_SID_");
    assert("="@ == seq!['=']);
    assert(";"@ == seq![';']);
    let pair = name + "="@ + value;
    assert forall|i: int| 0 <= i < pair.len() implies #[trigger] pair[i] != ';' by {
        if i < name.len() {
            assert(pair[i] == name[i]);
        } else if i > name.len() {
            assert(pair[i] == value[i - name.len() - 1]);
        }
    }
    lemma_no_part(pair, ';', ";"@);
    assert(pair[0] == name[0]);
    assert(pair.last() == value.last());
    text::lemma_trimmed_fixed(pair);
    lemma_cut_at(name, '=', "="@, value);
    if name.len() >= 8 {
        assert(name.subrange(0, 8) == name.take(8));
    }
    let headers = seq![pair];
    assert(headers[0] == pair);
    assert(headers.skip(1) == Seq::<Seq<char>>::empty());
    reveal_with_fuel(session_cookie, 2);
}

/// What may be shown of a client does not depend on the session that it has.
pub proof fn law_a_session_is_never_shown(endpoint: Seq<char>, version: Seq<char>)
    ensures
        shown_client(endpoint, true, version) == "QbtClient { endpoint: "@ + endpoint
            + ", sid: Some(\"<redacted>\"), version: "@ + version + " }"@,
        shown_client(endpoint, false, version) == "QbtClient { endpoint: "@ + endpoint
            + ", sid: None, version: "@ + version + " }"@,
{
    reveal_strlit(", sid: ");
    reveal_strlit("Some(\"<redacted>\")");
    reveal_strlit("None");
    reveal_strlit(", version: ");
    reveal_strlit(", sid: Some(\"<redacted>\"), version: ");
    reveal_strlit(", sid: None, version: ");
    assert(", sid: "@ + "Some(\"<redacted>\")"@ + ", version: "@
        =~= ", sid: Some(\"<redacted>\"), version: "@);
    assert(", sid: "@ + "None"@ + ", version: "@ =~= ", sid: None, version: "@);
    assert(shown_client(endpoint, true, version) =~= "QbtClient { endpoint: "@ + endpoint + (
    ", sid: "@ + "Some(\"<redacted>\")"@ + ", version: "@) + version + " }"@);
    assert(shown_client(endpoint, false, version) =~= "QbtClient { endpoint: "@ + endpoint + (
    ", sid: "@ + "None"@ + ", version: "@) + version + " }"@);
}

}
