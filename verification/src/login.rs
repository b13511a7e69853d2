//! A login, from the authorization server that was found to the credentials.

use vstd::prelude::*;
use vstd::string::*;

use crate::address::{carries, extended_in, pair_views, Snag, Trouble};
use crate::callback::{answer_bytes, answered, param, Callback};
use crate::config::{Credentials, Grant};
use crate::discovery::{AuthServer, Authority};
use crate::error::{Error, Fault};
use crate::json::{Json, JsonV};
use crate::numeral::decimal;
use crate::oauth::{
    applicant, authorization_pairs, authorization_url, callback_address, challenge_of,
    choose_client, exchange, exchange_form, is_secret, logged_in, login, pkce, question,
    random_string, redirect_uri, registration, registration_body, the_exchange_carries_the_proof,
    Applicant, ClientChoice, Pkce,
};
use crate::text::{lossy_text, opt_view};

verus! {

/// A login that is about to ask: the mathematical model of [`Login`].
pub struct Request {
    pub server: Authority,
    pub resource: Seq<char>,
    pub redirect_uri: Seq<char>,
}

/// A login that is about to ask.
#[derive(Debug, PartialEq)]
pub struct Login {
    pub server: AuthServer,
    /// The canonical name of the resource.
    pub resource: String,
    /// Where the browser brings the answer.
    pub redirect_uri: String,
}

impl View for Login {
    type V = Request;

    open spec fn view(&self) -> Request {
        Request {
            server: self.server@,
            resource: self.resource@,
            redirect_uri: self.redirect_uri@,
        }
    }
}

/// How a login begins: the mathematical model of [`LoginStep`].
pub enum Beginning {
    Register(Request, Seq<char>, JsonV),
    Ask(Request, Seq<char>, Option<Seq<char>>),
}

/// How a login begins.
#[derive(Debug, PartialEq)]
pub enum LoginStep {
    /// A client is to be registered: where, and with what message.
    Register(Login, String, Json),
    /// The user can be asked, for a client with or without a secret.
    Ask(Login, String, Option<String>),
}

impl View for LoginStep {
    type V = Beginning;

    open spec fn view(&self) -> Beginning {
        match self {
            LoginStep::Register(login, endpoint, body) => Beginning::Register(
                login@,
                endpoint@,
                body@,
            ),
            LoginStep::Ask(login, id, secret) => Beginning::Ask(login@, id@, opt_view(*secret)),
        }
    }
}

/// How a login begins that listens on a port, with the credentials from before.
pub open spec fn beginning(
    server: Authority,
    resource: Seq<char>,
    port: u16,
    existing: Grant,
) -> Result<Beginning, Fault> {
    let request = Request { server, resource, redirect_uri: callback_address(port) };
    match applicant(existing, server) {
        Ok(Applicant::Known(id, secret)) => Ok(Beginning::Ask(request, id, secret)),
        Ok(Applicant::Register(endpoint)) => Ok(
            Beginning::Register(
                request,
                endpoint,
                registration(callback_address(port), server.scopes_supported),
            ),
        ),
        Err(e) => Err(e),
    }
}

/// Begins a login that listens on a port, with the credentials from before.
pub fn begin(server: AuthServer, resource: String, port: u16, existing: &Credentials) -> (r: Result<
    LoginStep,
    Error,
>)
    ensures
        match (r, beginning(server@, resource@, port, existing@)) {
            (Ok(step), Ok(begun)) => step@ == begun,
            (Err(e), Err(fault)) => e@ == fault,
            _ => false,
        },
        r matches Ok(LoginStep::Register(_, _, body)) ==> body@.wf(),
{
    let choice = match choose_client(existing, &server) {
        Ok(choice) => choice,
        Err(e) => return Err(e),
    };
    let login = Login { server, resource, redirect_uri: redirect_uri(port) };
    match choice {
        ClientChoice::Known(id, secret) => Ok(LoginStep::Ask(login, id, secret)),
        ClientChoice::Register(endpoint) => {
            let body = match &login.server.scopes_supported {
                Some(scope) => registration_body(login.redirect_uri.as_str(), Some(scope.as_str())),
                None => registration_body(login.redirect_uri.as_str(), None),
            };
            Ok(LoginStep::Register(login, endpoint, body))
        },
    }
}

/// A login that has asked: the mathematical model of [`Asking`].
pub struct Inquiry {
    pub request: Request,
    pub client_id: Seq<char>,
    pub client_secret: Option<Seq<char>>,
    pub verifier: Seq<char>,
    pub state: Seq<char>,
    pub url: Seq<char>,
}

/// A login that has asked, and waits for the answer.
#[derive(Debug, PartialEq)]
pub struct Asking {
    pub login: Login,
    pub client_id: String,
    pub client_secret: Option<String>,
    pub pkce: Pkce,
    /// What the answer has to return.
    pub state: String,
    /// The address at which the user is asked.
    pub url: String,
}

impl View for Asking {
    type V = Inquiry;

    open spec fn view(&self) -> Inquiry {
        Inquiry {
            request: self.login@,
            client_id: self.client_id@,
            client_secret: opt_view(self.client_secret),
            verifier: self.pkce.verifier@,
            state: self.state@,
            url: self.url@,
        }
    }
}

impl Inquiry {
    /// What the authorization server is asked.
    pub open spec fn asked(self) -> Seq<(Seq<char>, Seq<char>)> {
        question(
            self.client_id,
            self.request.redirect_uri,
            self.state,
            challenge_of(self.verifier),
            self.request.resource,
            self.request.server.scopes_supported,
        )
    }

    /// What is sent to exchange a code for tokens.
    pub open spec fn exchanged(self, code: Seq<char>) -> Seq<(Seq<char>, Seq<char>)> {
        exchange(
            code,
            self.request.redirect_uri,
            self.client_id,
            self.verifier,
            self.request.resource,
            self.client_secret,
        )
    }

    /// The credentials once the tokens have come.
    pub open spec fn finished(self, tokens: Grant) -> Grant {
        logged_in(
            tokens,
            self.client_id,
            self.client_secret,
            self.request.server,
            self.request.resource,
        )
    }
}

/// The inquiry that a request becomes with a client and two secrets.
pub open spec fn inquiry(
    request: Request,
    client_id: Seq<char>,
    client_secret: Option<Seq<char>>,
    verifier: Seq<char>,
    state: Seq<char>,
) -> Result<Inquiry, Snag> {
    let draft = Inquiry { request, client_id, client_secret, verifier, state, url: seq![] };
    match extended_in(
        request.server.authorization_endpoint,
        draft.asked(),
        "parsing authorization endpoint"@,
    ) {
        Ok(url) => Ok(Inquiry { url, ..draft }),
        Err(snag) => Err(snag),
    }
}

/// The view of an inquiry that may have failed.
pub open spec fn inquiry_view(r: Result<Asking, Trouble>) -> Result<Inquiry, Snag> {
    match r {
        Ok(asking) => Ok(asking@),
        Err(trouble) => Err(trouble@),
    }
}

impl Login {
    /// Asks the user, with two given secrets.
    pub fn ask_with(
        self,
        client_id: String,
        client_secret: Option<String>,
        pkce: Pkce,
        state: String,
    ) -> (r: Result<Asking, Trouble>)
        requires
            pkce.challenge@ == challenge_of(pkce.verifier@),
        ensures
            inquiry_view(r) == inquiry(
                self@,
                client_id@,
                opt_view(client_secret),
                pkce.verifier@,
                state@,
            ),
            r matches Ok(asking) ==> asking.pkce == pkce && carries(asking.url@, asking@.asked()),
    {
        let scope: Option<&str> = match &self.server.scopes_supported {
            Some(scope) => Some(scope.as_str()),
            None => None,
        };
        let pairs = authorization_pairs(
            client_id.as_str(),
            self.redirect_uri.as_str(),
            state.as_str(),
            pkce.challenge.as_str(),
            self.resource.as_str(),
            scope,
        );
        match authorization_url(self.server.authorization_endpoint.as_str(), &pairs) {
            Ok(url) => Ok(
                Asking { login: self, client_id, client_secret, pkce, state, url },
            ),
            Err(trouble) => Err(trouble),
        }
    }

    /// Asks the user, with new secrets.
    pub fn ask(self, client_id: String, client_secret: Option<String>) -> (r: Result<Asking, Trouble>)
        ensures
            r matches Ok(asking) ==> asking.pkce.challenge@ == challenge_of(asking.pkce.verifier@)
                && carries(asking.url@, asking@.asked()),
            exists|verifier: Seq<char>, state: Seq<char>|
                is_secret(verifier, 64) && is_secret(state, 32) && inquiry_view(r)
                    == #[trigger] inquiry(
                    self@,
                    client_id@,
                    opt_view(client_secret),
                    verifier,
                    state,
                ),
    {
        let proof_of_client = pkce();
        let state = random_string(32);
        let ghost verifier = proof_of_client.verifier@;
        let ghost returned = state@;
        let r = self.ask_with(client_id, client_secret, proof_of_client, state);
        assert(inquiry_view(r) == inquiry(
            self@,
            client_id@,
            opt_view(client_secret),
            verifier,
            returned,
        ));
        r
    }
}

impl Asking {
    /// What a request to the local address comes to.
    pub fn answer(&self, buffer: &[u8]) -> (r: Callback)
        ensures
            r@ == answered(lossy_text(buffer@), self@.state),
    {
        answer_bytes(buffer, self.state.as_str())
    }

    /// What is sent to exchange a code for tokens.
    pub fn exchange(&self, code: &str) -> (r: Vec<(String, String)>)
        ensures
            pair_views(r@) == self@.exchanged(code@),
    {
        let secret: Option<&str> = match &self.client_secret {
            Some(secret) => Some(secret.as_str()),
            None => None,
        };
        exchange_form(
            code,
            self.login.redirect_uri.as_str(),
            self.client_id.as_str(),
            self.pkce.verifier.as_str(),
            self.login.resource.as_str(),
            secret,
        )
    }

    /// The credentials once the tokens have come.
    pub fn finish(self, tokens: Credentials) -> (r: Credentials)
        ensures
            r@ == self@.finished(tokens@),
    {
        login(tokens, self.client_id, self.client_secret, self.login.server, self.login.resource)
    }
}

// ---------------------------------------------------------------------------
// Laws
// ---------------------------------------------------------------------------

proof fn keys_differ()
    ensures
        "response_type"@.len() == 13,
        "grant_type"@.len() == 10,
        "client_id"@.len() == 9,
        "redirect_uri"@.len() == 12,
        "state"@.len() == 5,
        "code_challenge"@.len() == 14,
        "code_challenge_method"@.len() == 21,
        "resource"@.len() == 8,
        "code"@.len() == 4,
        "code_verifier"@.len() == 13,
{
    reveal_strlit("response_type");
    reveal_strlit("grant_type");
    reveal_strlit("client_id");
    reveal_strlit("redirect_uri");
    reveal_strlit("state");
    reveal_strlit("code_challenge");
    reveal_strlit("code_challenge_method");
    reveal_strlit("resource");
    reveal_strlit("code");
    reveal_strlit("code_verifier");
}

/// A parameter is found where its name first stands.
proof fn param_is_at(pairs: Seq<(Seq<char>, Seq<char>)>, key: Seq<char>, i: int)
    requires
        0 <= i < pairs.len(),
        pairs[i].0 == key,
        forall|j: int| 0 <= j < i ==> (#[trigger] pairs[j]).0 != key,
    ensures
        param(pairs, key) == Some(pairs[i].1),
    decreases i,
{
    if i > 0 {
        let rest = pairs.skip(1);
        assert(pairs[0].0 != key);
        assert forall|j: int| 0 <= j < i - 1 implies (#[trigger] rest[j]).0 != key by {
            assert(rest[j] == pairs[j + 1]);
        }
        param_is_at(rest, key, i - 1);
    }
}

/// What is sent in exchange for a code belongs to what was asked: the same client, the
/// same address for the answer and the same resource, and the secret whose challenge
/// was shown.
pub proof fn the_exchange_belongs_to_the_question(inquiry: Inquiry, code: Seq<char>)
    ensures
        param(inquiry.exchanged(code), "client_id"@) == param(inquiry.asked(), "client_id"@),
        param(inquiry.exchanged(code), "redirect_uri"@) == param(inquiry.asked(), "redirect_uri"@),
        param(inquiry.exchanged(code), "resource"@) == param(inquiry.asked(), "resource"@),
        param(inquiry.exchanged(code), "code"@) == Some(code),
        param(inquiry.exchanged(code), "code_verifier"@) matches Some(verifier) && param(
            inquiry.asked(),
            "code_challenge"@,
        ) == Some(challenge_of(verifier)),
{
    keys_differ();
    let asked = inquiry.asked();
    let sent = inquiry.exchanged(code);
    param_is_at(asked, "client_id"@, 1);
    param_is_at(asked, "redirect_uri"@, 2);
    param_is_at(asked, "code_challenge"@, 4);
    param_is_at(asked, "resource"@, 6);
    param_is_at(sent, "code"@, 1);
    param_is_at(sent, "redirect_uri"@, 2);
    param_is_at(sent, "client_id"@, 3);
    param_is_at(sent, "code_verifier"@, 4);
    param_is_at(sent, "resource"@, 5);
}

/// The state that the answer has to return is the one that was sent.
pub proof fn the_state_was_sent(inquiry: Inquiry)
    ensures
        param(inquiry.asked(), "state"@) == Some(inquiry.state),
{
    keys_differ();
    param_is_at(inquiry.asked(), "state"@, 3);
}

/// A client that was registered for one login is used for the next at the same server.
pub proof fn the_next_login_uses_the_client(inquiry: Inquiry, tokens: Grant, port: u16)
    ensures
        beginning(
            inquiry.request.server,
            inquiry.request.resource,
            port,
            inquiry.finished(tokens),
        ) matches Ok(Beginning::Ask(_, id, secret)) && id == inquiry.client_id && secret
            == inquiry.client_secret,
{
}

/// A login begins with the question for a known client, and with a registration for a
/// new one; the answer comes to the port that is listened on.
pub proof fn a_login_begins_with_a_client(
    server: Authority,
    resource: Seq<char>,
    port: u16,
    existing: Grant,
    id: Seq<char>,
    secret: Option<Seq<char>>,
    endpoint: Seq<char>,
    e: Fault,
)
    ensures
        ({
            let request = Request {
                server,
                resource,
                redirect_uri: "http://127.0.0.1:"@ + decimal(port as nat) + "/callback"@,
            };
            &&& applicant(existing, server) == Ok::<Applicant, Fault>(Applicant::Known(id, secret))
                ==> beginning(server, resource, port, existing) == Ok::<Beginning, Fault>(
                Beginning::Ask(request, id, secret),
            )
            &&& applicant(existing, server) == Ok::<Applicant, Fault>(Applicant::Register(endpoint))
                ==> beginning(server, resource, port, existing) == Ok::<Beginning, Fault>(
                Beginning::Register(
                    request,
                    endpoint,
                    registration(request.redirect_uri, server.scopes_supported),
                ),
            )
            &&& applicant(existing, server) == Err::<Applicant, Fault>(e) ==> beginning(
                server,
                resource,
                port,
                existing,
            ) == Err::<Beginning, Fault>(e)
        }),
{
}

/// The user is asked at the authorization endpoint of the server, for its client, its
/// resource and its scopes, with the challenge of the verifier that is kept for the
/// exchange.
pub proof fn the_user_is_asked_at_the_server(
    request: Request,
    client_id: Seq<char>,
    client_secret: Option<Seq<char>>,
    verifier: Seq<char>,
    state: Seq<char>,
    url: Seq<char>,
    snag: Snag,
)
    ensures
        ({
            let pairs = question(
                client_id,
                request.redirect_uri,
                state,
                challenge_of(verifier),
                request.resource,
                request.server.scopes_supported,
            );
            let address = extended_in(
                request.server.authorization_endpoint,
                pairs,
                "parsing authorization endpoint"@,
            );
            &&& address == Ok::<Seq<char>, Snag>(url) ==> inquiry(
                request,
                client_id,
                client_secret,
                verifier,
                state,
            ) == Ok::<Inquiry, Snag>(
                (Inquiry { request, client_id, client_secret, verifier, state, url }),
            )
            &&& address == Err::<Seq<char>, Snag>(snag) ==> inquiry(
                request,
                client_id,
                client_secret,
                verifier,
                state,
            ) == Err::<Inquiry, Snag>(snag)
        }),
{
}

/// A finished login holds the tokens, the client that asked for them, the endpoints of
/// the server and the resource.
pub proof fn a_finished_login_holds_its_tokens(inquiry: Inquiry, tokens: Grant)
    ensures
        inquiry.finished(tokens).access_token == tokens.access_token,
        inquiry.finished(tokens).refresh_token == tokens.refresh_token,
        inquiry.finished(tokens).expires_at == tokens.expires_at,
        inquiry.finished(tokens).client_id == Some(inquiry.client_id),
        inquiry.finished(tokens).client_secret == inquiry.client_secret,
        inquiry.finished(tokens).token_endpoint == Some(inquiry.request.server.token_endpoint),
        inquiry.finished(tokens).authorization_endpoint == Some(
            inquiry.request.server.authorization_endpoint,
        ),
        inquiry.finished(tokens).registration_endpoint == inquiry.request.server.registration_endpoint,
        inquiry.finished(tokens).resource == Some(inquiry.request.resource),
{
}

/// The exchange names the code, the verifier and the secret that belong to the question.
pub proof fn the_exchange_names_its_secrets(inquiry: Inquiry, code: Seq<char>)
    ensures
        inquiry.exchanged(code).contains(("grant_type"@, "authorization_code"@)),
        inquiry.exchanged(code).contains(("code"@, code)),
        inquiry.exchanged(code).contains(("code_verifier"@, inquiry.verifier)),
        inquiry.exchanged(code).contains(("client_id"@, inquiry.client_id)),
        inquiry.exchanged(code).contains(("redirect_uri"@, inquiry.request.redirect_uri)),
        inquiry.exchanged(code).contains(("resource"@, inquiry.request.resource)),
        inquiry.client_secret is Some ==> inquiry.exchanged(code).contains(
            ("client_secret"@, inquiry.client_secret->0),
        ),
{
    the_exchange_carries_the_proof(
        code,
        inquiry.request.redirect_uri,
        inquiry.client_id,
        inquiry.verifier,
        inquiry.request.resource,
        inquiry.client_secret,
    );
}

/// A login is seen with everything that belongs to it.
pub proof fn a_login_is_seen_whole(login: Login, asking: Asking)
    ensures
        login@.server == login.server@ && login@.resource == login.resource@,
        login@.redirect_uri == login.redirect_uri@,
        asking@.request == asking.login@ && asking@.client_id == asking.client_id@,
        asking@.client_secret == opt_view(asking.client_secret),
        asking@.verifier == asking.pkce.verifier@,
        asking@.state == asking.state@ && asking@.url == asking.url@,
{
}

/// How a login begins is seen as it is.
pub proof fn beginnings_are_seen_as_they_are(login: Login, text: String, body: Json, secret: Option<String>)
    ensures
        LoginStep::Register(login, text, body)@ == Beginning::Register(login@, text@, body@),
        LoginStep::Ask(login, text, secret)@ == Beginning::Ask(login@, text@, opt_view(secret)),
{
}

} // verus!
