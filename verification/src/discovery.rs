//! Finding the authorization server of an MCP endpoint.
//!
//! The search starts from the hint in the challenge of the endpoint, goes on with
//! the well-known places for the metadata of a protected resource, and in the end
//! takes the origin of the endpoint itself for the authorization server.

use vstd::prelude::*;
use vstd::string::*;

use crate::address::{
    canonical_resource, origin, parse_target, site_in, well_known, Site, Snag, Trouble,
};
use crate::config::copy_text;
use crate::http::{is_success, succeeded};
use crate::json::{json_views, opt_json, parse_json, parse_view, parsed_json, Json, JsonV};
use crate::text::{
    a_beginning_is_a_prefix, a_text_is_split_at_the_first_sign, begins, behind, chars_of, concat,
    find, join, joined, opt_str, opt_view, position, split_at_first, split_first, string_of, strip,
    trailing_signs_are_taken, trim, trim_end_char, trim_end_of, trimmed,
    trimming_takes_the_space_around, views,
};
use crate::tools::{texts_among, texts_in};
use vstd::slice::slice_subrange;

verus! {

// ---------------------------------------------------------------------------
// The challenge
// ---------------------------------------------------------------------------

/// What stands before the first `c`, or everything where there is none.
pub open spec fn up_to(s: Seq<char>, c: char) -> Seq<char> {
    match split_at_first(s, c) {
        Some((before, _)) => before,
        None => s,
    }
}

/// Where a challenge says that the metadata of the resource is: in double quotes, or
/// up to the next comma.
pub open spec fn metadata_hint(header: Seq<char>) -> Option<Seq<char>> {
    match find(header, "resource_metadata="@) {
        Some(i) => {
            let rest = header.skip(i + "resource_metadata="@.len());
            match behind(rest, seq!['"']) {
                Some(quoted) => Some(up_to(quoted, '"')),
                None => Some(trim(up_to(rest, ','))),
            }
        },
        None => None,
    }
}

fn before_first(s: &[char], c: char) -> (r: &[char])
    ensures
        r@ == up_to(s@, c),
{
    match split_first(s, c) {
        Some((before, _)) => before,
        None => s,
    }
}

/// Where a challenge says that the metadata of the resource is.
pub fn parse_resource_metadata(header: &str) -> (r: Option<String>)
    ensures
        opt_view(r) == metadata_hint(header@),
{
    let chars = chars_of(header);
    let key = chars_of("resource_metadata=");
    let quote: [char; 1] = ['"'];
    assert(quote@ =~= seq!['"']);
    match position(chars.as_slice(), key.as_slice()) {
        Some(i) => {
            let n: usize = chars.len();
            let rest = slice_subrange(chars.as_slice(), i + key.len(), n);
            assert(rest@ =~= header@.skip(i + key@.len()));
            match strip(rest, &quote) {
                Some(quoted) => Some(string_of(before_first(quoted, '"'))),
                None => Some(string_of(trimmed(before_first(rest, ',')))),
            }
        },
        None => None,
    }
}

// ---------------------------------------------------------------------------
// Metadata
// ---------------------------------------------------------------------------

/// What an authorization server is: the mathematical model of [`AuthServer`].
pub struct Authority {
    pub authorization_endpoint: Seq<char>,
    pub token_endpoint: Seq<char>,
    pub registration_endpoint: Option<Seq<char>>,
    pub scopes_supported: Option<Seq<char>>,
}

/// An authorization server.
#[derive(Debug, PartialEq)]
pub struct AuthServer {
    pub authorization_endpoint: String,
    pub token_endpoint: String,
    pub registration_endpoint: Option<String>,
    pub scopes_supported: Option<String>,
}

impl View for AuthServer {
    type V = Authority;

    open spec fn view(&self) -> Authority {
        Authority {
            authorization_endpoint: self.authorization_endpoint@,
            token_endpoint: self.token_endpoint@,
            registration_endpoint: opt_view(self.registration_endpoint),
            scopes_supported: opt_view(self.scopes_supported),
        }
    }
}

/// The metadata in the answer of a place, if it has any. `parsed` is what reading the
/// body as JSON gave.
pub open spec fn metadata_in(success: bool, parsed: Result<JsonV, Seq<char>>) -> Option<JsonV> {
    match parsed {
        Ok(value) => if success {
            Some(value)
        } else {
            None
        },
        Err(_) => None,
    }
}

/// The metadata in the answer of a place, from what reading the body as JSON gave.
pub fn metadata_with(success: bool, parsed: Result<Json, String>) -> (r: Option<Json>)
    ensures
        opt_json(r) == metadata_in(success, parse_view(parsed)),
{
    match parsed {
        Ok(value) => if success {
            Some(value)
        } else {
            None
        },
        Err(_) => None,
    }
}

/// The metadata in the answer of a place, from its status and its body.
pub fn read_metadata(status: u16, text: &str) -> (r: Option<Json>)
    ensures
        opt_json(r) == metadata_in(is_success(status), parsed_json(text@)),
{
    metadata_with(succeeded(status), parse_json(text))
}

/// The scopes that metadata names, separated by spaces, if it names any.
pub open spec fn scopes_in(metadata: JsonV) -> Option<Seq<char>> {
    match metadata.array_at("scopes_supported"@) {
        Some(items) => {
            let scopes = joined(texts_among(items), " "@);
            if scopes.len() > 0 {
                Some(scopes)
            } else {
                None
            }
        },
        None => None,
    }
}

/// The authorization server that the metadata of a resource names first.
pub open spec fn issuer_in(metadata: JsonV) -> Option<Seq<char>> {
    match metadata.array_at("authorization_servers"@) {
        Some(servers) => if servers.len() > 0 {
            servers[0].as_text()
        } else {
            None
        },
        None => None,
    }
}

/// The authorization server that metadata describes, if it names both endpoints that
/// are needed. The scopes of the resource come before its own.
pub open spec fn authority_in(metadata: JsonV, scopes: Option<Seq<char>>) -> Option<Authority> {
    match (metadata.text_at("authorization_endpoint"@), metadata.text_at("token_endpoint"@)) {
        (Some(authorization_endpoint), Some(token_endpoint)) => Some(
            Authority {
                authorization_endpoint,
                token_endpoint,
                registration_endpoint: metadata.text_at("registration_endpoint"@),
                scopes_supported: match scopes {
                    Some(scopes) => Some(scopes),
                    None => scopes_in(metadata),
                },
            },
        ),
        _ => None,
    }
}

/// The endpoints that an authorization server has by convention.
pub open spec fn conventional(issuer: Seq<char>, scopes: Option<Seq<char>>) -> Authority {
    let base = trim_end_char(issuer, '/');
    Authority {
        authorization_endpoint: base + "/authorize"@,
        token_endpoint: base + "/token"@,
        registration_endpoint: Some(base + "/register"@),
        scopes_supported: scopes,
    }
}

fn scopes_named(metadata: &Json) -> (r: Option<String>)
    ensures
        opt_view(r) == scopes_in(metadata@),
{
    match metadata.array_at("scopes_supported") {
        Some(items) => {
            let scopes = join(&texts_in(items), " ");
            if scopes.as_str().is_empty() {
                None
            } else {
                Some(scopes)
            }
        },
        None => None,
    }
}

fn issuer_named(metadata: &Json) -> (r: Option<String>)
    ensures
        opt_view(r) == issuer_in(metadata@),
{
    match metadata.array_at("authorization_servers") {
        Some(servers) => if servers.len() > 0 {
            assert(json_views(servers@)[0] == servers@[0]@);
            match servers[0].as_text() {
                Some(text) => Some(text.to_owned()),
                None => None,
            }
        } else {
            None
        },
        None => None,
    }
}

/// The text of a member, if there is one.
pub(crate) fn own_text(value: &Json, key: &str) -> (r: Option<String>)
    ensures
        opt_view(r) == value@.text_at(key@),
{
    match value.text_at(key) {
        Some(text) => Some(text.to_owned()),
        None => None,
    }
}

/// The authorization server that metadata describes, if it names both endpoints that
/// are needed.
pub fn read_authority(metadata: &Json, scopes: &Option<String>) -> (r: Option<AuthServer>)
    ensures
        match r {
            Some(server) => authority_in(metadata@, opt_view(*scopes)) == Some(server@),
            None => authority_in(metadata@, opt_view(*scopes)) is None,
        },
{
    match (metadata.text_at("authorization_endpoint"), metadata.text_at("token_endpoint")) {
        (Some(authorization_endpoint), Some(token_endpoint)) => Some(
            AuthServer {
                authorization_endpoint: authorization_endpoint.to_owned(),
                token_endpoint: token_endpoint.to_owned(),
                registration_endpoint: own_text(metadata, "registration_endpoint"),
                scopes_supported: match scopes {
                    Some(scopes) => Some(scopes.clone()),
                    None => scopes_named(metadata),
                },
            },
        ),
        _ => None,
    }
}

fn convention(issuer: &str, scopes: &Option<String>) -> (r: AuthServer)
    ensures
        r@ == conventional(issuer@, opt_view(*scopes)),
{
    let base = trim_end_of(issuer, '/');
    AuthServer {
        authorization_endpoint: concat(base.as_str(), "/authorize"),
        token_endpoint: concat(base.as_str(), "/token"),
        registration_endpoint: Some(concat(base.as_str(), "/register")),
        scopes_supported: copy_text(scopes),
    }
}

// ---------------------------------------------------------------------------
// The search
// ---------------------------------------------------------------------------

/// A search that has not ended: the mathematical model of [`Discovery`].
pub struct Search {
    /// The canonical name of the resource.
    pub resource: Seq<char>,
    /// The origin of the endpoint.
    pub origin: Seq<char>,
    /// The authorization server, once it is known.
    pub issuer: Option<Seq<char>>,
    /// The scopes that the metadata of the resource named last.
    pub scopes: Option<Seq<char>>,
    /// Where to look next, and then.
    pub left: Seq<Seq<char>>,
}

/// What was found.
pub struct Finding {
    pub server: Authority,
    pub resource: Seq<char>,
    pub issuer: Seq<char>,
}

/// What a search has come to: the mathematical model of [`Progress`].
pub enum Turn {
    Ask(Search),
    Found(Finding),
}

/// Where the metadata of a resource may be found: where the challenge says, and then
/// at the well-known places.
pub open spec fn resource_places(site: Site, www_authenticate: Option<Seq<char>>) -> Seq<Seq<char>> {
    let usual = site.well_known("oauth-protected-resource"@);
    let hint = match www_authenticate {
        Some(header) => metadata_hint(header),
        None => None,
    };
    match hint {
        Some(place) => seq![place] + usual,
        None => usual,
    }
}

/// Where the metadata of an authorization server may be found.
pub open spec fn server_places(site: Site) -> Seq<Seq<char>> {
    site.well_known("oauth-authorization-server"@) + site.well_known("openid-configuration"@)
}

/// How a search begins.
pub open spec fn search_for(mcp_url: Seq<char>, www_authenticate: Option<Seq<char>>) -> Result<
    Search,
    Snag,
> {
    match site_in(mcp_url, "parsing server URL"@) {
        Err(snag) => Err(snag),
        Ok(site) => Ok(
            Search {
                resource: site.canonical(),
                origin: site.origin(),
                issuer: None,
                scopes: None,
                left: resource_places(site, www_authenticate),
            },
        ),
    }
}

impl Search {
    /// The search once the authorization server is known.
    pub open spec fn settled(self, issuer: Seq<char>) -> Result<Turn, Snag> {
        match site_in(issuer, "parsing issuer "@ + issuer) {
            Err(snag) => Err(snag),
            Ok(site) => Ok(
                Turn::Ask(Search { issuer: Some(issuer), left: server_places(site), ..self }),
            ),
        }
    }

    /// The search when a place gave nothing that ends it. At the last place for the
    /// resource the origin is taken for the authorization server, and at the last
    /// place for the server its endpoints are taken to be the conventional ones.
    pub open spec fn passed(self) -> Result<Turn, Snag> {
        if self.left.len() > 1 {
            Ok(Turn::Ask(Search { left: self.left.skip(1), ..self }))
        } else {
            match self.issuer {
                None => self.settled(self.origin),
                Some(issuer) => Ok(
                    Turn::Found(
                        Finding {
                            server: conventional(issuer, self.scopes),
                            resource: self.resource,
                            issuer,
                        },
                    ),
                ),
            }
        }
    }

    /// The search after the next place has given its metadata, if it has any.
    pub open spec fn told(self, metadata: Option<JsonV>) -> Result<Turn, Snag> {
        match (metadata, self.issuer) {
            (None, _) => self.passed(),
            (Some(m), None) => {
                let here = Search { scopes: scopes_in(m), ..self };
                match issuer_in(m) {
                    Some(issuer) => here.settled(issuer),
                    None => here.passed(),
                }
            },
            (Some(m), Some(issuer)) => match authority_in(m, self.scopes) {
                Some(server) => Ok(
                    Turn::Found(Finding { server, resource: self.resource, issuer }),
                ),
                None => self.passed(),
            },
        }
    }

    /// How many more places the search can come to at the most.
    pub open spec fn bound(self) -> nat {
        match self.issuer {
            None => self.left.len() + 6,
            Some(_) => self.left.len(),
        }
    }
}

/// A search for an authorization server.
pub struct Discovery {
    pub resource: String,
    pub origin: String,
    pub issuer: Option<String>,
    pub scopes: Option<String>,
    /// Where to look.
    pub places: Vec<String>,
    /// How many of the places have been looked at.
    pub passed: usize,
}

impl View for Discovery {
    type V = Search;

    open spec fn view(&self) -> Search {
        Search {
            resource: self.resource@,
            origin: self.origin@,
            issuer: opt_view(self.issuer),
            scopes: opt_view(self.scopes),
            left: views(self.places@).skip(self.passed as int),
        }
    }
}

/// What a search has come to.
pub enum Progress {
    /// Another place is to be looked at.
    Ask(Discovery),
    /// The authorization server, the canonical name of the resource, and the issuer.
    Found(AuthServer, String, String),
}

impl View for Progress {
    type V = Turn;

    open spec fn view(&self) -> Turn {
        match self {
            Progress::Ask(discovery) => Turn::Ask(discovery@),
            Progress::Found(server, resource, issuer) => Turn::Found(
                Finding { server: server@, resource: resource@, issuer: issuer@ },
            ),
        }
    }
}

impl Progress {
    /// Whether there is a place to look at if the search goes on.
    pub open spec fn wf(self) -> bool {
        self matches Progress::Ask(discovery) ==> discovery.wf()
    }
}

/// The view of a turn that may have failed.
pub open spec fn turn_of(r: Result<Progress, Trouble>) -> Result<Turn, Snag> {
    match r {
        Ok(progress) => Ok(progress@),
        Err(trouble) => Err(trouble@),
    }
}

/// Begins a search.
pub fn discover(mcp_url: &str, www_authenticate: Option<&str>) -> (r: Result<Discovery, Trouble>)
    ensures
        match (r, search_for(mcp_url@, opt_str(www_authenticate))) {
            (Ok(discovery), Ok(search)) => discovery@ == search && discovery.wf(),
            (Err(trouble), Err(snag)) => trouble@ == snag,
            _ => false,
        },
{
    let url = match parse_target(mcp_url, "parsing server URL") {
        Ok(url) => url,
        Err(trouble) => return Err(trouble),
    };
    let hint = match www_authenticate {
        Some(header) => parse_resource_metadata(header),
        None => None,
    };
    let mut usual = well_known(&url, "oauth-protected-resource");
    let ghost wanted = views(usual@);
    let mut places: Vec<String> = Vec::new();
    match hint {
        Some(place) => {
            places.push(place);
            assert(views(places@) =~= seq![place@]);
        },
        None => {
            assert(views(places@) =~= seq![]);
        },
    }
    let ghost before = views(places@);
    places.append(&mut usual);
    assert(views(places@) =~= before + wanted);
    assert(views(places@) =~= resource_places(url@, opt_str(www_authenticate)));
    assert(views(places@).skip(0) =~= views(places@));
    Ok(
        Discovery {
            resource: canonical_resource(&url),
            origin: origin(&url),
            issuer: None,
            scopes: None,
            places,
            passed: 0,
        },
    )
}

impl Discovery {
    /// Whether there is a place to look at.
    pub open spec fn wf(self) -> bool {
        self.passed < self.places@.len()
    }

    /// The place to look at next.
    pub fn wanted(&self) -> (r: String)
        requires
            self.wf(),
        ensures
            r@ == self@.left[0],
    {
        self.places[self.passed].clone()
    }

    fn settle(self, issuer: String) -> (r: Result<Progress, Trouble>)
        ensures
            turn_of(r) == self@.settled(issuer@),
            r matches Ok(progress) ==> progress.wf(),
    {
        let headline = concat("parsing issuer ", issuer.as_str());
        match parse_target(issuer.as_str(), headline.as_str()) {
            Err(trouble) => Err(trouble),
            Ok(url) => {
                let mut places = well_known(&url, "oauth-authorization-server");
                let mut others = well_known(&url, "openid-configuration");
                let ghost first = views(places@);
                let ghost second = views(others@);
                places.append(&mut others);
                assert(views(places@) =~= first + second);
                assert(views(places@).skip(0) =~= views(places@));
                Ok(
                    Progress::Ask(
                        Discovery { issuer: Some(issuer), places, passed: 0, ..self },
                    ),
                )
            },
        }
    }

    fn pass(self) -> (r: Result<Progress, Trouble>)
        requires
            self.wf(),
        ensures
            turn_of(r) == self@.passed(),
            r matches Ok(progress) ==> progress.wf(),
    {
        assert(self@.left.len() == self.places@.len() - self.passed);
        if self.places.len() - self.passed > 1 {
            assert(self@.left.skip(1) =~= views(self.places@).skip(self.passed + 1));
            let passed = self.passed + 1;
            Ok(Progress::Ask(Discovery { passed, ..self }))
        } else {
            match &self.issuer {
                None => {
                    let origin = self.origin.clone();
                    self.settle(origin)
                },
                Some(issuer) => {
                    let server = convention(issuer.as_str(), &self.scopes);
                    Ok(Progress::Found(server, self.resource.clone(), issuer.clone()))
                },
            }
        }
    }

    /// Goes on with what was found at the place that was wanted.
    pub fn tell(self, metadata: Option<Json>) -> (r: Result<Progress, Trouble>)
        requires
            self.wf(),
        ensures
            turn_of(r) == self@.told(opt_json(metadata)),
            r matches Ok(progress) ==> progress.wf(),
    {
        let metadata = match metadata {
            None => return self.pass(),
            Some(metadata) => metadata,
        };
        match &self.issuer {
            None => {
                let scopes = scopes_named(&metadata);
                let here = Discovery { scopes, ..self };
                assert(here@ == (Search { scopes: scopes_in(metadata@), ..self@ }));
                match issuer_named(&metadata) {
                    Some(issuer) => here.settle(issuer),
                    None => here.pass(),
                }
            },
            Some(issuer) => match read_authority(&metadata, &self.scopes) {
                Some(server) => Ok(
                    Progress::Found(server, self.resource.clone(), issuer.clone()),
                ),
                None => self.pass(),
            },
        }
    }
}

// ---------------------------------------------------------------------------
// Laws
// ---------------------------------------------------------------------------

/// Every place that is looked at brings the search nearer to its end.
pub proof fn the_search_ends(search: Search, metadata: Option<JsonV>)
    requires
        search.left.len() > 0,
    ensures
        search.told(metadata) matches Ok(Turn::Ask(next)) ==> next.left.len() > 0 && next.bound()
            < search.bound(),
{
}

/// What a search comes to when its places give the listed metadata one after
/// another.
pub open spec fn search_run(search: Search, answers: Seq<Option<JsonV>>) -> Result<Turn, Snag>
    decreases answers.len(),
{
    if answers.len() == 0 {
        Ok(Turn::Ask(search))
    } else {
        match search.told(answers[0]) {
            Ok(Turn::Ask(next)) => search_run(next, answers.skip(1)),
            other => other,
        }
    }
}

/// As many answers as places, none of which gives metadata.
pub open spec fn silence(n: nat) -> Seq<Option<JsonV>> {
    Seq::new(n, |i: int| None)
}

proof fn silence_passes(search: Search, n: nat)
    requires
        0 < n <= search.left.len(),
    ensures
        n < search.left.len() ==> search_run(search, silence(n)) == Ok::<Turn, Snag>(
            Turn::Ask(Search { left: search.left.skip(n as int), ..search }),
        ),
        n == search.left.len() && search.issuer is Some ==> search_run(search, silence(n)) == Ok::<
            Turn,
            Snag,
        >(
            Turn::Found(
                Finding {
                    server: conventional(search.issuer->0, search.scopes),
                    resource: search.resource,
                    issuer: search.issuer->0,
                },
            ),
        ),
    decreases n,
{
    reveal_with_fuel(search_run, 2);
    let answers = silence(n);
    assert(answers.skip(1) =~= silence((n - 1) as nat));
    assert(answers[0] is None);
    if search.left.len() > 1 {
        let next = Search { left: search.left.skip(1), ..search };
        assert(search.told(answers[0]) == Ok::<Turn, Snag>(Turn::Ask(next)));
        if n > 1 {
            silence_passes(next, (n - 1) as nat);
            assert(search.left.skip(1).skip(n - 1) =~= search.left.skip(n as int));
        }
    }
}

/// An authorization server that describes itself nowhere is taken to have the
/// conventional endpoints.
pub proof fn a_silent_server_has_the_conventional_endpoints(search: Search, issuer: Seq<char>)
    requires
        search.left.len() > 0,
        search.issuer == Some(issuer),
    ensures
        search_run(search, silence(search.left.len())) == Ok::<Turn, Snag>(
            Turn::Found(
                Finding {
                    server: conventional(issuer, search.scopes),
                    resource: search.resource,
                    issuer,
                },
            ),
        ),
{
    silence_passes(search, search.left.len());
}

/// A resource that describes itself nowhere is taken for its own authorization
/// server: after its last place the search goes on at its origin.
pub proof fn a_silent_resource_is_its_own_authority(search: Search)
    requires
        search.left.len() > 0,
        search.issuer is None,
    ensures
        search_run(search, silence(search.left.len())) == search.settled(search.origin),
    decreases search.left.len(),
{
    reveal_with_fuel(search_run, 2);
    let n = search.left.len();
    let answers = silence(n);
    assert(answers[0] is None);
    assert(answers.skip(1) =~= silence((n - 1) as nat));
    if n > 1 {
        let next = Search { left: search.left.skip(1), ..search };
        assert(search.told(answers[0]) == Ok::<Turn, Snag>(Turn::Ask(next)));
        a_silent_resource_is_its_own_authority(next);
        assert(next.settled(next.origin) == search.settled(search.origin));
    } else {
        assert(search.told(answers[0]) == search.settled(search.origin));
    }
}

/// The place that the challenge names is looked at first.
pub proof fn the_hint_comes_first(
    mcp_url: Seq<char>,
    header: Seq<char>,
    place: Seq<char>,
)
    requires
        metadata_hint(header) == Some(place),
    ensures
        search_for(mcp_url, Some(header)) matches Ok(search) ==> search.left[0] == place,
{
}

/// Scopes that the resource names are asked for in place of those that the
/// authorization server names.
pub proof fn scopes_of_the_resource_come_first(metadata: JsonV, scopes: Seq<char>)
    ensures
        authority_in(metadata, Some(scopes)) matches Some(server) ==> server.scopes_supported == Some(
            scopes,
        ),
{
}

/// The place of the metadata stands in the challenge behind its key: in quotes, or up to
/// the next comma. Without the key there is none.
pub proof fn the_challenge_names_the_place(
    before: Seq<char>,
    place: Seq<char>,
    rest: Seq<char>,
    header: Seq<char>,
)
    ensures
        find(header, "resource_metadata="@) is None ==> metadata_hint(header) is None,
        header == before + "resource_metadata="@ + (seq!['"'] + place + seq!['"'] + rest) && find(
            header,
            "resource_metadata="@,
        ) == Some(before.len() as int) && !place.contains('"') ==> metadata_hint(header) == Some(place),
        header == before + "resource_metadata="@ + (place + seq![','] + rest) && find(
            header,
            "resource_metadata="@,
        ) == Some(before.len() as int) && place.len() > 0 && place[0] != '"' && !place.contains(',')
            ==> metadata_hint(header) == Some(trim(place)),
        header == before + "resource_metadata="@ + place && find(header, "resource_metadata="@) == Some(
            before.len() as int,
        ) && place.len() > 0 && place[0] != '"' && !place.contains(',') ==> metadata_hint(header) == Some(
            trim(place),
        ),
{
    let key = "resource_metadata="@;
    let n = before.len() + key.len();
    let quote = seq!['"'];
    let quoted = quote + place + quote + rest;
    if header == before + key + quoted {
        assert(header.skip(n as int) =~= quoted);
        assert(quoted =~= quote + (place + quote + rest));
        a_beginning_is_a_prefix(quoted, quote, place + quote + rest);
        if !place.contains('"') {
            a_text_is_split_at_the_first_sign(place, '"', rest);
        }
    }
    let listed = place + seq![','] + rest;
    if place.len() > 0 && place[0] != '"' && !place.contains(',') {
        a_text_is_split_at_the_first_sign(place, ',', rest);
        a_beginning_is_a_prefix(listed, quote, seq![]);
        a_beginning_is_a_prefix(place, quote, seq![]);
        if begins(listed, quote) {
            assert(listed[0] == quote[0]);
        }
        if begins(place, quote) {
            assert(place[0] == quote[0]);
        }
        if header == before + key + listed {
            assert(header.skip(n as int) =~= listed);
        }
        if header == before + key + place {
            assert(header.skip(n as int) =~= place);
        }
    }
}

/// Metadata is what a successful reply holds as JSON.
pub proof fn metadata_comes_with_success(value: JsonV, complaint: Seq<char>, success: bool)
    ensures
        metadata_in(true, Ok(value)) == Some(value),
        metadata_in(false, Ok(value)) is None,
        metadata_in(success, Err(complaint)) is None,
{
}

/// Scopes are the texts of their list with spaces between them, and none where there is
/// no text in it.
pub proof fn scopes_are_listed(metadata: JsonV, items: Seq<JsonV>)
    ensures
        metadata.get("scopes_supported"@) == Some(JsonV::Array(items)) && joined(
            texts_among(items),
            " "@,
        ).len() > 0 ==> scopes_in(metadata) == Some(joined(texts_among(items), " "@)),
        metadata.get("scopes_supported"@) == Some(JsonV::Array(items)) && joined(
            texts_among(items),
            " "@,
        ).len() == 0 ==> scopes_in(metadata) is None,
        !(metadata.get("scopes_supported"@) matches Some(JsonV::Array(_))) ==> scopes_in(metadata) is None,
{
}

/// The authorization server of a resource is the first of those that its metadata lists.
pub proof fn the_first_authorization_server_counts(
    metadata: JsonV,
    issuer: Seq<char>,
    more: Seq<JsonV>,
    other: JsonV,
)
    ensures
        metadata.get("authorization_servers"@) == Some(
            JsonV::Array(seq![JsonV::Text(issuer)] + more),
        ) ==> issuer_in(metadata) == Some(issuer),
        metadata.get("authorization_servers"@) == Some(JsonV::Array(seq![other] + more)) && !(other is Text)
            ==> issuer_in(metadata) is None,
        metadata.get("authorization_servers"@) == Some(JsonV::Array(seq![])) ==> issuer_in(metadata) is None,
        !(metadata.get("authorization_servers"@) matches Some(JsonV::Array(_))) ==> issuer_in(
            metadata,
        ) is None,
{
    assert((seq![JsonV::Text(issuer)] + more)[0] == JsonV::Text(issuer));
    assert((seq![other] + more)[0] == other);
}

/// The endpoints of a server are those that its metadata names; both the first two have
/// to be there. The scopes are those of the resource, or else its own.
pub proof fn endpoints_are_read_from_the_metadata(
    metadata: JsonV,
    scopes: Option<Seq<char>>,
    authorize: Seq<char>,
    token: Seq<char>,
)
    ensures
        metadata.get("authorization_endpoint"@) == Some(JsonV::Text(authorize)) && metadata.get(
            "token_endpoint"@,
        ) == Some(JsonV::Text(token)) ==> {
            &&& authority_in(metadata, scopes) is Some
            &&& authority_in(metadata, scopes)->0.authorization_endpoint == authorize
            &&& authority_in(metadata, scopes)->0.token_endpoint == token
            &&& metadata.get("registration_endpoint"@) matches Some(JsonV::Text(register))
                ==> authority_in(metadata, scopes)->0.registration_endpoint == Some(register)
            &&& !(metadata.get("registration_endpoint"@) matches Some(JsonV::Text(_))) ==> authority_in(
                metadata,
                scopes,
            )->0.registration_endpoint is None
            &&& scopes is Some ==> authority_in(metadata, scopes)->0.scopes_supported == scopes
            &&& scopes is None ==> authority_in(metadata, scopes)->0.scopes_supported == scopes_in(metadata)
        },
        !(metadata.get("authorization_endpoint"@) matches Some(JsonV::Text(_))) ==> authority_in(
            metadata,
            scopes,
        ) is None,
        !(metadata.get("token_endpoint"@) matches Some(JsonV::Text(_))) ==> authority_in(metadata, scopes) is None,
{
}

/// The conventional endpoints stand directly below the issuer.
pub proof fn conventional_endpoints_stand_below_the_issuer(base: Seq<char>, n: nat, scopes: Option<Seq<char>>)
    requires
        base.len() > 0 ==> base.last() != '/',
    ensures
        ({
            let server = conventional(base + Seq::new(n, |i: int| '/'), scopes);
            &&& server.authorization_endpoint == base + "/authorize"@
            &&& server.token_endpoint == base + "/token"@
            &&& server.registration_endpoint == Some(base + "/register"@)
            &&& server.scopes_supported == scopes
        }),
{
    trailing_signs_are_taken(base, '/', n);
}

/// The metadata of a resource is looked for at the place that the challenge names, if it
/// names one, and then at the usual places; that of a server at the places of both kinds
/// of server metadata.
pub proof fn places_are_looked_at_in_order(site: Site, header: Seq<char>, place: Seq<char>)
    ensures
        metadata_hint(header) == Some(place) ==> resource_places(site, Some(header)) == seq![place]
            + site.well_known("oauth-protected-resource"@),
        metadata_hint(header) is None ==> resource_places(site, Some(header)) == site.well_known(
            "oauth-protected-resource"@,
        ),
        resource_places(site, None) == site.well_known("oauth-protected-resource"@),
        server_places(site) == site.well_known("oauth-authorization-server"@) + site.well_known(
            "openid-configuration"@,
        ),
{
}

/// A search starts at the places of the resource, with the canonical name of the
/// resource and its origin in hand, and knows nothing else yet.
pub proof fn a_search_starts_at_the_resource(
    mcp_url: Seq<char>,
    challenge: Option<Seq<char>>,
    site: Site,
    snag: Snag,
)
    ensures
        site_in(mcp_url, "parsing server URL"@) == Ok::<Site, Snag>(site) ==> {
            &&& search_for(mcp_url, challenge) is Ok
            &&& search_for(mcp_url, challenge)->Ok_0.resource == site.canonical()
            &&& search_for(mcp_url, challenge)->Ok_0.origin == site.origin()
            &&& search_for(mcp_url, challenge)->Ok_0.issuer is None
            &&& search_for(mcp_url, challenge)->Ok_0.scopes is None
            &&& search_for(mcp_url, challenge)->Ok_0.left == resource_places(site, challenge)
        },
        site_in(mcp_url, "parsing server URL"@) == Err::<Site, Snag>(snag) ==> search_for(
            mcp_url,
            challenge,
        ) == Err::<Search, Snag>(snag),
{
}

/// The metadata of a resource that names an authorization server turns the search to
/// that server, with the scopes that the metadata names; one that is no address is
/// reported.
pub proof fn the_metadata_leads_to_the_server(
    search: Search,
    metadata: JsonV,
    issuer: Seq<char>,
    site: Site,
    snag: Snag,
)
    requires
        search.issuer is None,
        issuer_in(metadata) == Some(issuer),
    ensures
        site_in(issuer, "parsing issuer "@ + issuer) == Ok::<Site, Snag>(site) ==> search.told(
            Some(metadata),
        ) == Ok::<Turn, Snag>(
            Turn::Ask(
                Search {
                    resource: search.resource,
                    origin: search.origin,
                    issuer: Some(issuer),
                    scopes: scopes_in(metadata),
                    left: server_places(site),
                },
            ),
        ),
        site_in(issuer, "parsing issuer "@ + issuer) == Err::<Site, Snag>(snag) ==> search.told(
            Some(metadata),
        ) == Err::<Turn, Snag>(snag),
{
}

/// A place that gives nothing is passed over; so is one whose metadata names no
/// authorization server, of which the scopes are kept.
pub proof fn other_places_are_passed_over(search: Search, metadata: JsonV)
    requires
        search.left.len() > 1,
    ensures
        search.told(None) == Ok::<Turn, Snag>(
            Turn::Ask(Search { left: search.left.skip(1), ..search }),
        ),
        search.issuer is None && issuer_in(metadata) is None ==> search.told(Some(metadata)) == Ok::<
            Turn,
            Snag,
        >(
            Turn::Ask(
                Search { left: search.left.skip(1), scopes: scopes_in(metadata), ..search },
            ),
        ),
        search.issuer is Some && authority_in(metadata, search.scopes) is None ==> search.told(
            Some(metadata),
        ) == Ok::<Turn, Snag>(Turn::Ask(Search { left: search.left.skip(1), ..search })),
{
}

/// Once the server is known, the first metadata with its endpoints ends the search.
pub proof fn the_endpoints_end_the_search(
    search: Search,
    metadata: JsonV,
    issuer: Seq<char>,
    server: Authority,
)
    requires
        search.issuer == Some(issuer),
        authority_in(metadata, search.scopes) == Some(server),
    ensures
        search.told(Some(metadata)) == Ok::<Turn, Snag>(
            Turn::Found(Finding { server, resource: search.resource, issuer }),
        ),
{
}

/// When no place is left, a resource counts as its own authorization server, and a
/// server has the conventional endpoints.
pub proof fn the_last_place_settles_the_search(search: Search, issuer: Seq<char>, site: Site)
    requires
        search.left.len() == 1,
    ensures
        search.issuer is None && site_in(search.origin, "parsing issuer "@ + search.origin) == Ok::<
            Site,
            Snag,
        >(site) ==> search.told(None) == Ok::<Turn, Snag>(
            Turn::Ask(
                Search {
                    issuer: Some(search.origin),
                    left: server_places(site),
                    ..search
                },
            ),
        ),
        search.issuer == Some(issuer) ==> search.told(None) == Ok::<Turn, Snag>(
            Turn::Found(
                Finding {
                    server: conventional(issuer, search.scopes),
                    resource: search.resource,
                    issuer,
                },
            ),
        ),
{
}

/// A server is seen with everything that is known of it.
pub proof fn a_server_is_seen_whole(server: AuthServer)
    ensures
        server@.authorization_endpoint == server.authorization_endpoint@,
        server@.token_endpoint == server.token_endpoint@,
        server@.registration_endpoint == opt_view(server.registration_endpoint),
        server@.scopes_supported == opt_view(server.scopes_supported),
{
}

/// A quoted place without a closing quote goes to the end of the challenge, and a key
/// with nothing behind it names an empty place.
pub proof fn an_unfinished_challenge_is_read_to_its_end(before: Seq<char>, place: Seq<char>, rest: Seq<char>, header: Seq<char>)
    ensures
        header == before + "resource_metadata="@ + (seq!['"'] + place) && find(
            header,
            "resource_metadata="@,
        ) == Some(before.len() as int) && !place.contains('"') ==> metadata_hint(header) == Some(place),
        header == before + "resource_metadata="@ && find(header, "resource_metadata="@) == Some(
            before.len() as int,
        ) ==> metadata_hint(header) == Some(Seq::<char>::empty()),
        header == before + "resource_metadata="@ + (seq![','] + rest) && find(
            header,
            "resource_metadata="@,
        ) == Some(before.len() as int) ==> metadata_hint(header) == Some(Seq::<char>::empty()),
{
    let key = "resource_metadata="@;
    let n = (before.len() + key.len()) as int;
    let quote = seq!['"'];
    let nothing = Seq::<char>::empty();
    a_beginning_is_a_prefix(quote + place, quote, place);
    a_text_is_split_at_the_first_sign(nothing, ',', rest);
    trimming_takes_the_space_around(nothing, nothing, nothing);
    assert(nothing + nothing + nothing =~= nothing);
    if header == before + key + (quote + place) {
        assert(header.skip(n) =~= quote + place);
        if !place.contains('"') {
            a_text_is_split_at_the_first_sign(place, '"', nothing);
        }
    }
    if header == before + key {
        assert(header.skip(n) =~= nothing);
        a_beginning_is_a_prefix(nothing, quote, nothing);
    }
    let listed = seq![','] + rest;
    if header == before + key + listed {
        assert(header.skip(n) =~= listed);
        assert(listed =~= nothing + seq![','] + rest);
        a_beginning_is_a_prefix(listed, quote, nothing);
        if begins(listed, quote) {
            assert(listed[0] == quote[0]);
        }
    }
}

/// At the last place metadata without what is looked for settles the search as silence
/// does, but for the scopes of the resource, which are kept.
pub proof fn the_last_metadata_settles_the_search(
    search: Search,
    metadata: JsonV,
    issuer: Seq<char>,
    site: Site,
    snag: Snag,
)
    requires
        search.left.len() == 1,
    ensures
        search.issuer is None && issuer_in(metadata) is None && site_in(
            search.origin,
            "parsing issuer "@ + search.origin,
        ) == Ok::<Site, Snag>(site) ==> search.told(Some(metadata)) == Ok::<Turn, Snag>(
            Turn::Ask(
                Search {
                    resource: search.resource,
                    origin: search.origin,
                    issuer: Some(search.origin),
                    scopes: scopes_in(metadata),
                    left: server_places(site),
                },
            ),
        ),
        search.issuer is None && issuer_in(metadata) is None && site_in(
            search.origin,
            "parsing issuer "@ + search.origin,
        ) == Err::<Site, Snag>(snag) ==> search.told(Some(metadata)) == Err::<Turn, Snag>(snag)
            && search.told(None) == Err::<Turn, Snag>(snag),
        search.issuer == Some(issuer) && authority_in(metadata, search.scopes) is None ==> search.told(
            Some(metadata),
        ) == search.told(None),
{
}

/// A search and what comes of it are seen as they are.
pub proof fn searches_are_seen_whole(d: Discovery, server: AuthServer, resource: String, issuer: String)
    ensures
        d@.resource == d.resource@ && d@.origin == d.origin@,
        d@.issuer == opt_view(d.issuer) && d@.scopes == opt_view(d.scopes),
        d@.left == views(d.places@).skip(d.passed as int),
        Progress::Ask(d)@ == Turn::Ask(d@),
        Progress::Found(server, resource, issuer)@ == Turn::Found(
            Finding { server: server@, resource: resource@, issuer: issuer@ },
        ),
{
}

} // verus!
