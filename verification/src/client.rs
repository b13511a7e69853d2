//! A session with an MCP server: what is sent, and what is made of the replies.

use reqwest::header::{HeaderMap, HeaderValue};
use vstd::prelude::*;
use vstd::string::*;

use crate::error::{because, plain, Error, Fault};
use crate::http::{
    added_header_wins, every_header_has_to_be_allowed, fixed_name, header_in, header_values,
    is_header_name, is_header_value, is_success, lowered, name_char, no_headers, no_values,
    other_headers_stay, put_headers, put_value, show_status, status_text, succeeded, texts,
    with_headers, with_value, Refusal,
};
use crate::json::{array_wf, json_views, member_wf, Json, JsonNumber, JsonV};
use crate::rpc::{
    a_notification_has_no_identifier, a_request_says_what_is_asked, notification_body,
    notification_message, object, object_with, objects_hold_their_pairs, pairs_view, request_body,
    request_message, text_json,
};
use crate::table::Table;
use crate::text::{
    a_beginning_is_a_prefix, begins, concat, opt_str, opt_view, starts_with, trim, trim_text,
    trimming_takes_the_space_around, white_space,
};

verus! {

/// The version of the protocol that is spoken.
pub const PROTOCOL_VERSION: &'static str = "2025-06-18";

/// The version of this program.
pub const VERSION: &'static str = "0.2.0";

/// A reply that access is refused, with the challenge that leads to the
/// authorization server.
#[derive(Debug, PartialEq)]
pub struct Unauthorized {
    pub www_authenticate: Option<String>,
}

/// Why a call failed.
#[derive(Debug, PartialEq)]
pub enum CallError {
    Unauthorized(Unauthorized),
    Other(Error),
}

impl From<Error> for CallError {
    fn from(e: Error) -> (r: CallError) {
        CallError::Other(e)
    }
}

impl vstd::std_specs::convert::FromSpecImpl<Error> for CallError {
    open spec fn obeys_from_spec() -> bool {
        true
    }

    open spec fn from_spec(e: Error) -> CallError {
        CallError::Other(e)
    }
}

impl CallError {
    /// What the failure says.
    pub open spec fn fault(self) -> Fault {
        match self {
            CallError::Other(e) => e@,
            CallError::Unauthorized(_) => plain("unauthorized"@),
        }
    }

    /// The failure as an error.
    pub fn into_error(self) -> (r: Error)
        ensures
            r@ == self.fault(),
    {
        match self {
            CallError::Other(e) => e,
            CallError::Unauthorized(_) => Error::plain("unauthorized".to_owned()),
        }
    }
}

/// The name that the program gives itself in requests.
pub open spec fn own_name() -> Seq<char> {
    "mcp-cli/"@ + VERSION@
}

/// The name that the program gives itself in requests.
pub fn user_agent() -> (r: String)
    ensures
        r@ == own_name(),
{
    concat("mcp-cli/", VERSION)
}

// ---------------------------------------------------------------------------
// The state of a session
// ---------------------------------------------------------------------------

/// What a session is: the mathematical model of [`Client`].
pub struct Session {
    pub url: Seq<char>,
    pub extra_headers: Seq<(Seq<char>, Seq<char>)>,
    pub token: Option<Seq<char>>,
    pub session_id: Option<Seq<char>>,
    pub next_id: u64,
    pub initialized: bool,
}

impl Session {
    /// The headers that a request carries in any case.
    pub open spec fn basic_headers(self) -> Map<Seq<char>, Seq<char>> {
        let headers = no_values().insert(
            "content-type"@,
            "application/json"@,
        ).insert("accept"@, "application/json, text/event-stream"@);
        if self.initialized {
            headers.insert("mcp-protocol-version"@, PROTOCOL_VERSION@)
        } else {
            headers
        }
    }

    /// The headers with the session that the server opened.
    pub open spec fn session_headers(self) -> Result<Map<Seq<char>, Seq<char>>, Fault> {
        match self.session_id {
            Some(id) => with_value(
                self.basic_headers(),
                "mcp-session-id"@,
                id,
                "invalid session id"@,
            ),
            None => Ok(self.basic_headers()),
        }
    }

    /// The headers with the access token.
    pub open spec fn own_headers(self) -> Result<Map<Seq<char>, Seq<char>>, Fault> {
        match self.session_headers() {
            Ok(headers) => match self.token {
                Some(token) => with_value(
                    headers,
                    "authorization"@,
                    "Bearer "@ + token,
                    "invalid access token"@,
                ),
                None => Ok(headers),
            },
            Err(e) => Err(e),
        }
    }

    /// The headers of a request, by their names in lower case.
    pub open spec fn headers(self) -> Result<Map<Seq<char>, Seq<char>>, Fault> {
        match self.own_headers() {
            Ok(headers) => with_headers(headers, self.extra_headers),
            Err(e) => Err(e),
        }
    }
}

/// A session with an MCP server.
pub struct Client {
    pub url: String,
    /// Static headers, sent with every request.
    pub extra_headers: Table<String>,
    /// The access token.
    pub token: Option<String>,
    /// The session that the server opened.
    pub session_id: Option<String>,
    /// The identifier of the last request.
    pub next_id: u64,
    /// Whether the server has answered the opening request.
    pub initialized: bool,
}

impl View for Client {
    type V = Session;

    open spec fn view(&self) -> Session {
        Session {
            url: self.url@,
            extra_headers: texts(self.extra_headers@),
            token: opt_view(self.token),
            session_id: opt_view(self.session_id),
            next_id: self.next_id,
            initialized: self.initialized,
        }
    }
}

// ---------------------------------------------------------------------------
// Messages
// ---------------------------------------------------------------------------

/// What the opening request says of this side.
pub open spec fn opening_params() -> JsonV {
    object_with(
        seq![
            ("protocolVersion"@, JsonV::Text(PROTOCOL_VERSION@)),
            ("capabilities"@, object_with(seq![])),
            (
                "clientInfo"@,
                object_with(
                    seq![
                        ("name"@, JsonV::Text("mcp-cli"@)),
                        ("version"@, JsonV::Text(VERSION@)),
                    ],
                ),
            ),
        ],
    )
}

/// The parameters of a request for one page of the list of tools.
pub open spec fn page_params(cursor: Option<Seq<char>>) -> JsonV {
    match cursor {
        Some(c) => object_with(seq![("cursor"@, JsonV::Text(c))]),
        None => object_with(seq![]),
    }
}

/// The parameters of a call of a tool.
pub open spec fn call_params(name: Seq<char>, arguments: JsonV) -> JsonV {
    object_with(seq![("name"@, JsonV::Text(name)), ("arguments"@, arguments)])
}

/// The request that opens a session.
pub open spec fn opening_message(id: u64) -> JsonV {
    request_body(id, "initialize"@, opening_params())
}

/// The notification that confirms that a session is open.
pub open spec fn confirmation() -> JsonV {
    notification_body("notifications/initialized"@, object_with(seq![]))
}

/// The request for one page of the list of tools.
pub open spec fn page_message(id: u64, cursor: Option<Seq<char>>) -> JsonV {
    request_body(id, "tools/list"@, page_params(cursor))
}

/// The request that calls a tool.
pub open spec fn call_message(id: u64, name: Seq<char>, arguments: JsonV) -> JsonV {
    request_body(id, "tools/call"@, call_params(name, arguments))
}

fn empty_object() -> (r: Json)
    ensures
        r@ == object_with(seq![]),
        r@.wf(),
{
    let pairs: Vec<(&str, Json)> = Vec::new();
    assert(pairs_view(pairs@) =~= seq![]);
    object(pairs)
}

fn opening() -> (r: Json)
    ensures
        r@ == opening_params(),
        r@.wf(),
{
    let info_pairs: Vec<(&str, Json)> = vec![
        ("name", text_json("mcp-cli")),
        ("version", text_json(VERSION)),
    ];
    assert(pairs_view(info_pairs@) =~= seq![
        ("name"@, JsonV::Text("mcp-cli"@)),
        ("version"@, JsonV::Text(VERSION@)),
    ]);
    let info = object(info_pairs);
    let pairs: Vec<(&str, Json)> = vec![
        ("protocolVersion", text_json(PROTOCOL_VERSION)),
        ("capabilities", empty_object()),
        ("clientInfo", info),
    ];
    assert(pairs_view(pairs@) =~= seq![
        ("protocolVersion"@, JsonV::Text(PROTOCOL_VERSION@)),
        ("capabilities"@, object_with(seq![])),
        ("clientInfo"@, info@),
    ]);
    object(pairs)
}

/// The request that only asks for the challenge of a server.
pub fn probe_message() -> (r: Json)
    ensures
        r@ == opening_message(1),
        r@.wf(),
{
    request_message(1, "initialize", opening())
}

impl Client {
    /// Whether the static headers stand in the order of their names.
    pub open spec fn wf(self) -> bool {
        self.extra_headers.wf()
    }

    /// A session in which nothing has been sent.
    pub fn new(url: String, extra_headers: Table<String>, token: Option<String>) -> (r: Client)
        requires
            extra_headers.wf(),
        ensures
            r.wf(),
            r@ == (Session {
                url: url@,
                extra_headers: texts(extra_headers@),
                token: opt_view(token),
                session_id: None,
                next_id: 0,
                initialized: false,
            }),
    {
        Client { url, extra_headers, token, session_id: None, next_id: 0, initialized: false }
    }

    /// The headers of a request. There is room for 6548 static ones in any case.
    pub fn headers(&self) -> (r: Result<HeaderMap<HeaderValue>, Refusal>)
        ensures
            match r {
                Ok(headers) => self@.headers() == Ok::<Map<Seq<char>, Seq<char>>, Fault>(header_values(headers)),
                Err(Refusal::Fault(e)) => self@.headers() == Err::<Map<Seq<char>, Seq<char>>, Fault>(e@),
                Err(Refusal::TooMany) => self@.extra_headers.len() > 6_548,
            },
    {
        proof {
            own_names_are_names();
            own_values_are_values();
        }
        let mut headers = no_headers();
        put_value(&mut headers, fixed_name("content-type"), "application/json", "")?;
        put_value(&mut headers, fixed_name("accept"), "application/json, text/event-stream", "")?;
        if self.initialized {
            put_value(&mut headers, fixed_name("mcp-protocol-version"), PROTOCOL_VERSION, "")?;
        }
        assert(header_values(headers) == self@.basic_headers());
        if let Some(session) = &self.session_id {
            let name = fixed_name("mcp-session-id");
            put_value(&mut headers, name, session.as_str(), "invalid session id")?;
        }
        if let Some(token) = &self.token {
            let bearer = concat("Bearer ", token.as_str());
            let name = fixed_name("authorization");
            put_value(&mut headers, name, bearer.as_str(), "invalid access token")?;
        }
        put_headers(&mut headers, &self.extra_headers)?;
        Ok(headers)
    }

    /// Makes the next request: its identifier and its body.
    pub fn request(&mut self, method: &str, params: Json) -> (r: (u64, Json))
        requires
            old(self).next_id < u64::MAX,
            params@.wf(),
        ensures
            r.0 == old(self).next_id + 1,
            r.1@ == request_body(r.0, method@, params@),
            r.1@.wf(),
            final(self)@ == (Session { next_id: r.0, ..old(self)@ }),
            final(self).extra_headers == old(self).extra_headers,
    {
        self.next_id = self.next_id + 1;
        let id = self.next_id;
        (id, request_message(id, method, params))
    }

    /// Makes a notification.
    pub fn notify(&self, method: &str, params: Json) -> (r: Json)
        requires
            params@.wf(),
        ensures
            r@ == notification_body(method@, params@),
            r@.wf(),
    {
        notification_message(method, params)
    }

    /// Makes the request that opens the session.
    pub fn initialize(&mut self) -> (r: (u64, Json))
        requires
            old(self).next_id < u64::MAX,
        ensures
            r.0 == old(self).next_id + 1,
            r.1@ == opening_message(r.0),
            r.1@.wf(),
            final(self)@ == (Session { next_id: r.0, ..old(self)@ }),
            final(self).extra_headers == old(self).extra_headers,
    {
        self.request("initialize", opening())
    }

    /// Notes that the opening request has been answered, and makes the notification
    /// that confirms it.
    pub fn confirm(&mut self) -> (r: Json)
        ensures
            r@ == confirmation(),
            r@.wf(),
            final(self)@ == (Session { initialized: true, ..old(self)@ }),
            final(self).extra_headers == old(self).extra_headers,
    {
        self.initialized = true;
        self.notify("notifications/initialized", empty_object())
    }

    /// Makes the request for one page of the list of tools.
    pub fn list_tools(&mut self, cursor: Option<&str>) -> (r: (u64, Json))
        requires
            old(self).next_id < u64::MAX,
        ensures
            r.0 == old(self).next_id + 1,
            r.1@ == page_message(r.0, opt_str(cursor)),
            r.1@.wf(),
            final(self)@ == (Session { next_id: r.0, ..old(self)@ }),
            final(self).extra_headers == old(self).extra_headers,
    {
        let params = match cursor {
            Some(c) => {
                let pairs: Vec<(&str, Json)> = vec![("cursor", text_json(c))];
                assert(pairs_view(pairs@) =~= seq![("cursor"@, JsonV::Text(c@))]);
                object(pairs)
            },
            None => empty_object(),
        };
        self.request("tools/list", params)
    }

    /// Makes the request that calls a tool.
    pub fn call_tool(&mut self, name: &str, arguments: Json) -> (r: (u64, Json))
        requires
            old(self).next_id < u64::MAX,
            arguments@.wf(),
        ensures
            r.0 == old(self).next_id + 1,
            r.1@ == call_message(r.0, name@, arguments@),
            r.1@.wf(),
            final(self)@ == (Session { next_id: r.0, ..old(self)@ }),
            final(self).extra_headers == old(self).extra_headers,
    {
        let pairs: Vec<(&str, Json)> = vec![("name", text_json(name)), ("arguments", arguments)];
        assert(pairs_view(pairs@) =~= seq![
            ("name"@, JsonV::Text(name@)),
            ("arguments"@, arguments@),
        ]);
        let params = object(pairs);
        self.request("tools/call", params)
    }
}

// ---------------------------------------------------------------------------
// Replies
// ---------------------------------------------------------------------------

/// What a reply says before its body.
pub struct Head {
    pub status: u16,
    pub www_authenticate: Option<String>,
    pub session_id: Option<String>,
    pub content_type: Option<String>,
}

/// What is to be done about a reply: the mathematical model of [`Reception`].
pub enum Step {
    Unauthorized(Option<Seq<char>>),
    ReadFailure,
    Done,
    ReadStream(u64),
    ReadBody(u64),
}

/// What is to be done about a reply.
pub enum Reception {
    /// Access is refused.
    Unauthorized(Unauthorized),
    /// The body says what went wrong.
    ReadFailure,
    /// There is nothing to wait for.
    Done,
    /// The answer to the request comes in a stream of events.
    ReadStream(u64),
    /// The body is the answer to the request.
    ReadBody(u64),
}

impl View for Reception {
    type V = Step;

    open spec fn view(&self) -> Step {
        match self {
            Reception::Unauthorized(u) => Step::Unauthorized(opt_view(u.www_authenticate)),
            Reception::ReadFailure => Step::ReadFailure,
            Reception::Done => Step::Done,
            Reception::ReadStream(id) => Step::ReadStream(*id),
            Reception::ReadBody(id) => Step::ReadBody(*id),
        }
    }
}

impl Head {
    /// Whether the body is a stream of events.
    pub open spec fn is_stream(self) -> bool {
        match self.content_type {
            Some(content_type) => begins(content_type@, "text/event-stream"@),
            None => false,
        }
    }

    /// What is to be done about the reply to a message, which waits for an answer
    /// if it is a request.
    pub open spec fn step(self, want_id: Option<u64>) -> Step {
        if self.status == 401 {
            Step::Unauthorized(opt_view(self.www_authenticate))
        } else if !is_success(self.status) {
            Step::ReadFailure
        } else {
            match want_id {
                None => Step::Done,
                Some(id) => if self.is_stream() {
                    Step::ReadStream(id)
                } else {
                    Step::ReadBody(id)
                },
            }
        }
    }

    /// The session after the reply: the one that the server named, if it named one.
    pub open spec fn session_after(self, before: Option<Seq<char>>) -> Option<Seq<char>> {
        if self.status != 401 && self.session_id is Some {
            opt_view(self.session_id)
        } else {
            before
        }
    }
}

/// What a server said that reported no success.
pub open spec fn failure(status: Seq<char>, text: Seq<char>) -> Fault {
    plain(
        "MCP server returned "@ + status + if text.len() == 0 {
            seq![]
        } else {
            ": "@ + trim(text)
        },
    )
}

impl Client {
    /// Takes in the head of a reply, and says what is to be done about the rest.
    pub fn receive(&mut self, head: Head, want_id: Option<u64>) -> (r: Reception)
        ensures
            r@ == head.step(want_id),
            final(self)@ == (Session {
                session_id: head.session_after(old(self)@.session_id),
                ..old(self)@
            }),
            final(self).extra_headers == old(self).extra_headers,
    {
        if head.status == 401 {
            return Reception::Unauthorized(
                Unauthorized { www_authenticate: head.www_authenticate },
            );
        }
        let is_stream = match &head.content_type {
            Some(content_type) => starts_with(content_type.as_str(), "text/event-stream"),
            None => false,
        };
        if head.session_id.is_some() {
            self.session_id = head.session_id;
        }
        if !succeeded(head.status) {
            return Reception::ReadFailure;
        }
        match want_id {
            None => Reception::Done,
            Some(id) => if is_stream {
                Reception::ReadStream(id)
            } else {
                Reception::ReadBody(id)
            },
        }
    }
}

/// The error of a reply that reports no success, from the text of its status and
/// its body.
pub fn failure_with(status: &str, text: &str) -> (r: Error)
    ensures
        r@ == failure(status@, text@),
{
    let mut headline = concat("MCP server returned ", status);
    if !text.is_empty() {
        headline.append(": ");
        headline.append(trim_text(text).as_str());
    }
    assert(headline@ =~= failure(status@, text@).headline);
    Error::plain(headline)
}

/// The error of a reply that reports no success.
pub fn failed_reply(status: u16, text: &str) -> (r: Error)
    ensures
        r@ == failure(status_text(status), text@),
{
    failure_with(show_status(status).as_str(), text)
}

// ---------------------------------------------------------------------------
// Listing tools page by page
// ---------------------------------------------------------------------------

/// The tools on a page.
pub open spec fn page_tools(page: JsonV) -> Seq<JsonV> {
    match page.array_at("tools"@) {
        Some(tools) => tools,
        None => seq![],
    }
}

/// Where the list goes on behind a page.
pub open spec fn next_cursor(page: JsonV) -> Option<Seq<char>> {
    match page.text_at("nextCursor"@) {
        Some(cursor) => if cursor.len() > 0 {
            Some(cursor)
        } else {
            None
        },
        None => None,
    }
}

/// The tools on some pages, one page after another.
pub open spec fn all_tools(pages: Seq<JsonV>) -> Seq<JsonV>
    decreases pages.len(),
{
    if pages.len() == 0 {
        seq![]
    } else {
        all_tools(pages.drop_last()) + page_tools(pages.last())
    }
}

/// A list of tools that comes in page by page.
pub struct Listing {
    /// The tools so far.
    pub tools: Vec<Json>,
    /// Where the list goes on.
    pub cursor: Option<String>,
}

impl Listing {
    /// Whether all tools so far are in good order.
    pub open spec fn wf(self) -> bool {
        forall|i: int| 0 <= i < self.tools@.len() ==> (#[trigger] self.tools@[i])@.wf()
    }

    /// Whether the listing holds what the given pages say.
    pub open spec fn holds(self, pages: Seq<JsonV>) -> bool {
        json_views(self.tools@) == all_tools(pages)
    }

    /// A listing before the first page.
    pub fn new() -> (r: Listing)
        ensures
            r.wf(),
            r.holds(seq![]),
            r.cursor is None,
    {
        let tools: Vec<Json> = Vec::new();
        assert(json_views(tools@) =~= seq![]);
        Listing { tools, cursor: None }
    }

    /// Takes in a page, and says whether another one follows.
    pub fn take(&mut self, page: &Json) -> (r: bool)
        requires
            old(self).wf(),
            page@.wf(),
        ensures
            final(self).wf(),
            json_views(final(self).tools@) == json_views(old(self).tools@) + page_tools(page@),
            opt_view(final(self).cursor) == next_cursor(page@),
            r == (next_cursor(page@) is Some),
            forall|pages: Seq<JsonV>| #[trigger]
                old(self).holds(pages) ==> final(self).holds(pages.push(page@)),
    {
        let ghost before = json_views(self.tools@);
        if let Some(list) = page.array_at("tools") {
            proof {
                member_wf(page@, "tools"@);
                array_wf(json_views(list@));
            }
            let mut i: usize = 0;
            assert(json_views(list@).take(0) =~= seq![]);
            assert(before + seq![] =~= before);
            while i < list.len()
                invariant
                    i <= list@.len(),
                    forall|k: int|
                        0 <= k < list@.len() ==> (#[trigger] json_views(list@)[k]).wf(),
                    self.wf(),
                    json_views(self.tools@) == before + json_views(list@).take(i as int),
                decreases list@.len() - i,
            {
                let ghost now = json_views(self.tools@);
                assert(json_views(list@)[i as int].wf());
                self.tools.push(list[i].clone());
                assert(json_views(self.tools@) =~= now.push(list@[i as int]@));
                assert(json_views(list@).take(i + 1) =~= json_views(list@).take(i as int).push(
                    list@[i as int]@,
                ));
                assert(json_views(self.tools@) =~= before + json_views(list@).take(i + 1));
                i += 1;
            }
            assert(json_views(list@).take(i as int) =~= json_views(list@));
        } else {
            assert(before + seq![] =~= before);
        }
        assert(json_views(self.tools@) == before + page_tools(page@));
        self.cursor = match page.text_at("nextCursor") {
            Some(next) => if next.is_empty() {
                None
            } else {
                Some(next.to_owned())
            },
            None => None,
        };
        proof {
            assert forall|pages: Seq<JsonV>| before == all_tools(pages) implies json_views(
                self.tools@,
            ) == #[trigger] all_tools(pages.push(page@)) by {
                assert(pages.push(page@).drop_last() =~= pages);
            }
        }
        self.cursor.is_some()
    }
}

// ---------------------------------------------------------------------------
// Laws
// ---------------------------------------------------------------------------

/// Whether a text may be the name of a header as it stands.
spec fn is_plain_name(s: Seq<char>) -> bool {
    0 < s.len() < 100 && forall|i: int|
        0 <= i < s.len() ==> 'a' <= (#[trigger] s[i]) <= 'z' || s[i] == '-'
}

proof fn plain_names_are_names(s: Seq<char>)
    requires
        is_plain_name(s),
    ensures
        is_header_name(s),
        lowered(s) == s,
{
    assert forall|i: int| 0 <= i < s.len() implies name_char(#[trigger] s[i]) by {}
    assert(lowered(s) =~= s);
}

proof fn own_names_are_names()
    ensures
        is_header_name("content-type"@),
        lowered("content-type"@) == "content-type"@,
        is_header_name("accept"@),
        lowered("accept"@) == "accept"@,
        is_header_name("mcp-protocol-version"@),
        lowered("mcp-protocol-version"@) == "mcp-protocol-version"@,
        is_header_name("mcp-session-id"@),
        lowered("mcp-session-id"@) == "mcp-session-id"@,
        is_header_name("authorization"@),
        lowered("authorization"@) == "authorization"@,
{
    reveal_strlit("content-type");
    assert(is_plain_name("content-type"@));
    plain_names_are_names("content-type"@);
    reveal_strlit("accept");
    assert(is_plain_name("accept"@));
    plain_names_are_names("accept"@);
    reveal_strlit("mcp-protocol-version");
    assert(is_plain_name("mcp-protocol-version"@));
    plain_names_are_names("mcp-protocol-version"@);
    reveal_strlit("mcp-session-id");
    assert(is_plain_name("mcp-session-id"@));
    plain_names_are_names("mcp-session-id"@);
    reveal_strlit("authorization");
    assert(is_plain_name("authorization"@));
    plain_names_are_names("authorization"@);
}

proof fn own_values_are_values()
    ensures
        is_header_value("application/json"@),
        is_header_value("application/json, text/event-stream"@),
        is_header_value(PROTOCOL_VERSION@),
{
    reveal_strlit("application/json");
    assert(is_header_value("application/json"@));
    reveal_strlit("application/json, text/event-stream");
    assert(is_header_value("application/json, text/event-stream"@));
    reveal_strlit("2025-06-18");
    assert(is_header_value("2025-06-18"@));
}

proof fn names_differ()
    ensures
        "content-type"@.len() == 12,
        "accept"@.len() == 6,
        "mcp-protocol-version"@.len() == 20,
        "mcp-session-id"@.len() == 14,
        "authorization"@.len() == 13,
{
    reveal_strlit("content-type");
    reveal_strlit("accept");
    reveal_strlit("mcp-protocol-version");
    reveal_strlit("mcp-session-id");
    reveal_strlit("authorization");
}

/// What the session itself puts under a name.
proof fn own_header(c: Session, name: Seq<char>)
    ensures
        c.own_headers() matches Ok(headers) ==> header_in(headers, name) == if name
            == "authorization"@ && c.token is Some {
            Some("Bearer "@ + c.token->0)
        } else if name == "mcp-session-id"@ {
            c.session_id
        } else if name == "mcp-protocol-version"@ {
            if c.initialized {
                Some(PROTOCOL_VERSION@)
            } else {
                None
            }
        } else if name == "accept"@ {
            Some("application/json, text/event-stream"@)
        } else if name == "content-type"@ {
            Some("application/json"@)
        } else {
            None
        },
{
    names_differ();
}

/// Whether a static header has the given name, which is in lower case.
pub open spec fn overridden(c: Session, name: Seq<char>) -> bool {
    exists|i: int|
        0 <= i < c.extra_headers.len() && lowered((#[trigger] c.extra_headers[i]).0) == name
}

proof fn header_kept(c: Session, name: Seq<char>)
    requires
        !overridden(c, name),
        c.headers() is Ok,
    ensures
        header_in(c.headers()->Ok_0, name) == header_in(c.own_headers()->Ok_0, name),
{
    own_header(c, name);
    other_headers_stay(c.own_headers()->Ok_0, c.extra_headers, name);
}

/// A session that holds an access token sends it with every request, unless a
/// static header takes its place.
pub proof fn access_token_is_sent(c: Session, token: Seq<char>)
    requires
        c.token == Some(token),
        c.headers() is Ok,
        !overridden(c, "authorization"@),
    ensures
        header_in(c.headers()->Ok_0, "authorization"@) == Some("Bearer "@ + token),
{
    own_header(c, "authorization"@);
    header_kept(c, "authorization"@);
}

/// A session without an access token sends none, unless a static header is one.
pub proof fn no_token_no_authorization(c: Session)
    requires
        c.token is None,
        c.headers() is Ok,
        !overridden(c, "authorization"@),
    ensures
        header_in(c.headers()->Ok_0, "authorization"@) is None,
{
    names_differ();
    own_header(c, "authorization"@);
    header_kept(c, "authorization"@);
}

/// The version of the protocol is named in every request once the session is open,
/// and in none before.
pub proof fn version_is_named_once_open(c: Session)
    requires
        c.headers() is Ok,
        !overridden(c, "mcp-protocol-version"@),
    ensures
        header_in(c.headers()->Ok_0, "mcp-protocol-version"@) == if c.initialized {
            Some(PROTOCOL_VERSION@)
        } else {
            None
        },
{
    names_differ();
    own_header(c, "mcp-protocol-version"@);
    header_kept(c, "mcp-protocol-version"@);
}

/// Every request carries JSON, and takes JSON or a stream of events as its answer,
/// unless static headers say otherwise.
pub proof fn every_request_speaks_json(c: Session)
    requires
        c.headers() is Ok,
    ensures
        !overridden(c, "content-type"@) ==> header_in(c.headers()->Ok_0, "content-type"@) == Some(
            "application/json"@,
        ),
        !overridden(c, "accept"@) ==> header_in(c.headers()->Ok_0, "accept"@) == Some(
            "application/json, text/event-stream"@,
        ),
{
    names_differ();
    own_header(c, "content-type"@);
    own_header(c, "accept"@);
    if !overridden(c, "content-type"@) {
        header_kept(c, "content-type"@);
    }
    if !overridden(c, "accept"@) {
        header_kept(c, "accept"@);
    }
}

/// Every request names the session that the server opened, as soon as it opened one.
pub proof fn session_is_named(c: Session)
    requires
        c.headers() is Ok,
        !overridden(c, "mcp-session-id"@),
    ensures
        header_in(c.headers()->Ok_0, "mcp-session-id"@) == c.session_id,
{
    names_differ();
    own_header(c, "mcp-session-id"@);
    header_kept(c, "mcp-session-id"@);
}

/// A static header is sent with every request, and replaces what the session would
/// send under its name.
pub proof fn static_header_is_sent(c: Session, k: int)
    requires
        c.headers() is Ok,
        0 <= k < c.extra_headers.len(),
        forall|i: int|
            k < i < c.extra_headers.len() ==> lowered((#[trigger] c.extra_headers[i]).0) != lowered(
                c.extra_headers[k].0,
            ),
    ensures
        header_in(c.headers()->Ok_0, lowered(c.extra_headers[k].0)) == Some(c.extra_headers[k].1),
{
    added_header_wins(c.own_headers()->Ok_0, c.extra_headers, k);
}

/// A reply that refuses access hands its challenge on, and opens no session.
pub proof fn a_refused_reply_changes_no_session(head: Head, before: Option<Seq<char>>, want_id: Option<u64>)
    requires
        head.status == 401,
    ensures
        head.session_after(before) == before,
        head.step(want_id) == Step::Unauthorized(opt_view(head.www_authenticate)),
{
}

/// A successful reply to a request is a stream of events exactly if its content type
/// begins with the name of that type, whatever stands behind it; else its body is the
/// answer.
pub proof fn streams_are_told_by_their_type(head: Head, id: u64, parameters: Seq<char>)
    requires
        head.status / 100 == 2,
    ensures
        opt_view(head.content_type) == Some("text/event-stream"@ + parameters) ==> head.step(Some(id))
            == Step::ReadStream(id),
        head.content_type is None ==> head.step(Some(id)) == Step::ReadBody(id),
        opt_view(head.content_type) matches Some(text) && (text.len() < 17 || text.take(17)
            != "text/event-stream"@) ==> head.step(Some(id)) == Step::ReadBody(id),
{
    reveal_strlit("text/event-stream");
    assert("text/event-stream"@.len() == 17);
    a_beginning_is_a_prefix("text/event-stream"@ + parameters, "text/event-stream"@, parameters);
    if let Some(text) = opt_view(head.content_type) {
        if text.len() >= 17 {
            assert(text.subrange(0, 17) =~= text.take(17));
        }
    }
}

/// What is done about a reply is told by its status first: access refused, another
/// failure, and success, after which only a request waits for an answer.
pub proof fn the_status_decides_first(head: Head, want_id: Option<u64>, id: u64)
    ensures
        head.status == 401 ==> head.step(want_id) == Step::Unauthorized(
            opt_view(head.www_authenticate),
        ),
        head.status != 401 && head.status / 100 != 2 ==> head.step(want_id) == Step::ReadFailure,
        head.status / 100 == 2 ==> head.step(None) == Step::Done,
        head.status / 100 == 2 ==> head.step(Some(id)) == Step::ReadStream(id) || head.step(Some(id))
            == Step::ReadBody(id),
{
}

/// A session is that which the last reply named, if it was let in, and stays otherwise.
pub proof fn the_server_names_the_session(head: Head, before: Option<Seq<char>>, id: Seq<char>)
    ensures
        head.status != 401 && opt_view(head.session_id) == Some(id) ==> head.session_after(before)
            == Some(id),
        head.session_id is None ==> head.session_after(before) == before,
        head.status == 401 ==> head.session_after(before) == before,
{
}

/// A failed reply is reported with its status, and with its body if there is one.
pub proof fn failures_are_reported_with_their_body(
    status: Seq<char>,
    before: Seq<char>,
    text: Seq<char>,
    tail: Seq<char>,
)
    requires
        forall|i: int| 0 <= i < before.len() ==> white_space(#[trigger] before[i]),
        forall|i: int| 0 <= i < tail.len() ==> white_space(#[trigger] tail[i]),
        text.len() > 0 ==> !white_space(text[0]) && !white_space(text.last()),
    ensures
        failure(status, seq![]) == plain("MCP server returned "@ + status),
        before.len() + text.len() + tail.len() > 0 ==> failure(status, before + text + tail) == plain(
            "MCP server returned "@ + status + ": "@ + text,
        ),
{
    trimming_takes_the_space_around(before, text, tail);
    let said = "MCP server returned "@ + status;
    assert(said + Seq::<char>::empty() =~= said);
    assert(said + ": "@ + text =~= said + (": "@ + text));
}

/// The list of tools is what the pages hold under `tools`, page after page; it goes on
/// as long as a page names a cursor that is not empty.
pub proof fn pages_make_the_list(
    pages: Seq<JsonV>,
    page: JsonV,
    tools: Seq<JsonV>,
    cursor: Seq<char>,
)
    ensures
        page.get("tools"@) == Some(JsonV::Array(tools)) ==> all_tools(pages.push(page)) == all_tools(
            pages,
        ) + tools,
        !(page.get("tools"@) matches Some(JsonV::Array(_))) ==> all_tools(pages.push(page))
            == all_tools(pages),
        all_tools(seq![]).len() == 0,
        page.get("nextCursor"@) == Some(JsonV::Text(cursor)) && cursor.len() > 0 ==> next_cursor(page)
            == Some(cursor),
        page.get("nextCursor"@) == Some(JsonV::Text(seq![])) ==> next_cursor(page) is None,
        !(page.get("nextCursor"@) matches Some(JsonV::Text(_))) ==> next_cursor(page) is None,
{
    assert(pages.push(page).drop_last() =~= pages);
    assert(all_tools(pages) + Seq::<JsonV>::empty() =~= all_tools(pages));
}

/// A call names the tool and hands over its arguments; a request for a page names the
/// cursor if there is one.
pub proof fn calls_carry_tool_and_arguments(
    name: Seq<char>,
    arguments: JsonV,
    cursor: Seq<char>,
    other: Seq<char>,
)
    ensures
        call_params(name, arguments).get("name"@) == Some(JsonV::Text(name)),
        call_params(name, arguments).get("arguments"@) == Some(arguments),
        other != "name"@ && other != "arguments"@ ==> call_params(name, arguments).get(other) is None,
        page_params(Some(cursor)).get("cursor"@) == Some(JsonV::Text(cursor)),
        other != "cursor"@ ==> page_params(Some(cursor)).get(other) is None,
        page_params(None) == JsonV::Object(seq![]),
{
    reveal_strlit("name");
    reveal_strlit("arguments");
    reveal_strlit("cursor");
    assert("name"@.len() == 4);
    assert("arguments"@.len() == 9);
    assert("cursor"@.len() == 6);
    let call = seq![("name"@, JsonV::Text(name)), ("arguments"@, arguments)];
    assert(call[0].0 == "name"@ && call[1].0 == "arguments"@);
    objects_hold_their_pairs(call, "name"@);
    objects_hold_their_pairs(call, "arguments"@);
    objects_hold_their_pairs(call, other);
    let page = seq![("cursor"@, JsonV::Text(cursor))];
    assert(page[0].0 == "cursor"@);
    objects_hold_their_pairs(page, "cursor"@);
    objects_hold_their_pairs(page, other);
}

/// The opening request names the version of the protocol, no capabilities, and this
/// program with its version.
pub proof fn the_opening_introduces_this_side(other: Seq<char>)
    ensures
        opening_params().get("protocolVersion"@) == Some(JsonV::Text("2025-06-18"@)),
        opening_params().get("capabilities"@) == Some(JsonV::Object(seq![])),
        opening_params().get2("clientInfo"@, "name"@) == Some(JsonV::Text("mcp-cli"@)),
        opening_params().get2("clientInfo"@, "version"@) == Some(JsonV::Text(VERSION@)),
        other != "protocolVersion"@ && other != "capabilities"@ && other != "clientInfo"@
            ==> opening_params().get(other) is None,
{
    reveal_strlit("protocolVersion");
    reveal_strlit("capabilities");
    reveal_strlit("clientInfo");
    reveal_strlit("name");
    reveal_strlit("version");
    assert("protocolVersion"@.len() == 15);
    assert("capabilities"@.len() == 12);
    assert("clientInfo"@.len() == 10);
    assert("name"@.len() == 4);
    assert("version"@.len() == 7);
    let info = seq![("name"@, JsonV::Text("mcp-cli"@)), ("version"@, JsonV::Text(VERSION@))];
    let pairs = seq![
        ("protocolVersion"@, JsonV::Text(PROTOCOL_VERSION@)),
        ("capabilities"@, object_with(seq![])),
        ("clientInfo"@, object_with(info)),
    ];
    assert(opening_params() == object_with(pairs));
    assert(pairs[0].0 == "protocolVersion"@ && pairs[1].0 == "capabilities"@ && pairs[2].0
        == "clientInfo"@);
    assert(info[0].0 == "name"@ && info[1].0 == "version"@);
    objects_hold_their_pairs(pairs, "protocolVersion"@);
    objects_hold_their_pairs(pairs, "capabilities"@);
    objects_hold_their_pairs(pairs, "clientInfo"@);
    objects_hold_their_pairs(pairs, other);
    objects_hold_their_pairs(info, "name"@);
    objects_hold_their_pairs(info, "version"@);
}

/// A failed call says what went wrong; a refusal of access says only that.
pub proof fn failed_calls_say_why(e: Error, refusal: Unauthorized)
    ensures
        CallError::Other(e).fault() == e@,
        CallError::Unauthorized(refusal).fault() == plain("unauthorized"@),
{
}

/// Each message names its method, its identifier where an answer is owed to it, and its
/// parameters.
pub proof fn messages_name_their_methods(id: u64, cursor: Option<Seq<char>>, name: Seq<char>, arguments: JsonV)
    ensures
        opening_message(id).get("method"@) == Some(JsonV::Text("initialize"@)),
        opening_message(id).get("id"@) == Some(JsonV::Number(JsonNumber::PosInt(id))),
        opening_message(id).get("params"@) == Some(opening_params()),
        confirmation().get("method"@) == Some(JsonV::Text("notifications/initialized"@)),
        confirmation().get("params"@) == Some(JsonV::Object(seq![])),
        confirmation().get("id"@) is None,
        page_message(id, cursor).get("method"@) == Some(JsonV::Text("tools/list"@)),
        page_message(id, cursor).get("id"@) == Some(JsonV::Number(JsonNumber::PosInt(id))),
        page_message(id, cursor).get("params"@) == Some(page_params(cursor)),
        call_message(id, name, arguments).get("method"@) == Some(JsonV::Text("tools/call"@)),
        call_message(id, name, arguments).get("id"@) == Some(JsonV::Number(JsonNumber::PosInt(id))),
        call_message(id, name, arguments).get2("params"@, "name"@) == Some(JsonV::Text(name)),
        call_message(id, name, arguments).get2("params"@, "arguments"@) == Some(arguments),
{
    a_request_says_what_is_asked(id, "initialize"@, opening_params(), seq![]);
    a_notification_has_no_identifier("notifications/initialized"@, object_with(seq![]), seq![]);
    a_request_says_what_is_asked(id, "tools/list"@, page_params(cursor), seq![]);
    a_request_says_what_is_asked(id, "tools/call"@, call_params(name, arguments), seq![]);
    calls_carry_tool_and_arguments(name, arguments, seq![], seq![]);
}

/// The program names itself with its version.
pub proof fn the_program_names_its_version()
    ensures
        own_name() == "mcp-cli/0.2.0"@,
        PROTOCOL_VERSION@ == "2025-06-18"@,
{
    reveal_strlit("mcp-cli/");
    reveal_strlit("0.2.0");
    reveal_strlit("mcp-cli/0.2.0");
    assert(own_name() =~= "mcp-cli/0.2.0"@);
}

/// A session is seen with everything that it holds.
pub proof fn a_session_is_seen_whole(client: Client)
    ensures
        client@.url == client.url@ && client@.token == opt_view(client.token),
        client@.session_id == opt_view(client.session_id) && client@.next_id == client.next_id,
        client@.initialized == client.initialized,
        client@.extra_headers == texts(client.extra_headers@),
{
}

/// A request carries no headers but those of the session and the static ones.
pub proof fn no_other_header_is_sent(c: Session, name: Seq<char>)
    requires
        c.headers() is Ok,
        !overridden(c, name),
        name != "content-type"@ && name != "accept"@ && name != "mcp-protocol-version"@,
        name != "mcp-session-id"@ && name != "authorization"@,
    ensures
        header_in(c.headers()->Ok_0, name) is None,
{
    own_header(c, name);
    header_kept(c, name);
}

/// Headers are made exactly if the identifier of the session, the token and the static
/// headers may all stand in headers; the first that may not is reported.
pub proof fn forbidden_headers_are_reported(c: Session)
    ensures
        c.headers() is Ok <==> {
            &&& c.session_id matches Some(id) ==> is_header_value(id)
            &&& c.token matches Some(token) ==> is_header_value("Bearer "@ + token)
            &&& forall|i: int|
                0 <= i < c.extra_headers.len() ==> is_header_name((#[trigger] c.extra_headers[i]).0)
                    && is_header_value(c.extra_headers[i].1)
        },
        c.session_id matches Some(id) && !is_header_value(id) ==> c.headers() == Err::<
            Map<Seq<char>, Seq<char>>,
            Fault,
        >(because("invalid session id"@, "failed to parse header value"@)),
        (c.session_id matches Some(id) ==> is_header_value(id)) && (c.token matches Some(token)
            && !is_header_value("Bearer "@ + token)) ==> c.headers() == Err::<
            Map<Seq<char>, Seq<char>>,
            Fault,
        >(because("invalid access token"@, "failed to parse header value"@)),
        c.own_headers() is Ok ==> c.headers() == with_headers(c.own_headers()->Ok_0, c.extra_headers),
{
    if let Ok(own) = c.own_headers() {
        every_header_has_to_be_allowed(own, c.extra_headers);
    }
}

/// What is to be done about a reply is seen as it is.
pub proof fn receptions_are_seen_as_they_are(refusal: Unauthorized, id: u64)
    ensures
        Reception::Unauthorized(refusal)@ == Step::Unauthorized(opt_view(refusal.www_authenticate)),
        Reception::ReadFailure@ == Step::ReadFailure,
        Reception::Done@ == Step::Done,
        Reception::ReadStream(id)@ == Step::ReadStream(id),
        Reception::ReadBody(id)@ == Step::ReadBody(id),
{
}

} // verus!
