//! Registered servers and stored credentials, and the files that hold them.

use vstd::prelude::*;
use vstd::string::*;

use crate::error::{because, plain, Error, Fault};
use crate::http::texts;
use crate::table::{
    ascending, lookup, on_values, on_values_commutes, put, put_keeps_order, put_then_lookup,
    without, without_keeps_order, without_then_lookup, Table,
};
use crate::text::{blank, blank_is_all_space, concat, is_blank, opt_view, views};

verus! {

// ---------------------------------------------------------------------------
// What is stored
// ---------------------------------------------------------------------------

/// What a registered server is: the mathematical model of [`Server`].
pub struct Registration {
    pub url: Seq<char>,
    pub headers: Seq<(Seq<char>, Seq<char>)>,
}

/// A registered server.
#[derive(Debug, PartialEq)]
pub struct Server {
    pub url: String,
    /// Static headers, for a server that wants an API key in place of OAuth.
    pub headers: Table<String>,
}

impl View for Server {
    type V = Registration;

    open spec fn view(&self) -> Registration {
        Registration { url: self.url@, headers: texts(self.headers@) }
    }
}

/// Copies named texts.
pub fn copy_texts(table: &Table<String>) -> (r: Table<String>)
    ensures
        texts(r@) == texts(table@),
        table.wf() ==> r.wf(),
{
    let mut out: Table<String> = Table::new();
    let mut i: usize = 0;
    while i < table.entries.len()
        invariant
            i <= table.entries@.len(),
            out@ =~= table@.take(i as int),
        decreases table.entries@.len() - i,
    {
        let ghost before = out@;
        let key = table.entries[i].0.clone();
        let value = table.entries[i].1.clone();
        out.entries.push((key, value));
        assert(out@ =~= before.push(table@[i as int]));
        i += 1;
    }
    assert(out@ =~= table@);
    out
}

impl Clone for Server {
    fn clone(&self) -> (r: Self)
        ensures
            r@ == self@,
            self.wf() ==> r.wf(),
    {
        Server { url: self.url.clone(), headers: copy_texts(&self.headers) }
    }
}

impl Server {
    /// Whether the headers stand in the order of their names.
    pub open spec fn wf(self) -> bool {
        self.headers.wf()
    }
}

/// The registered servers, by name.
#[derive(Debug, PartialEq)]
pub struct Config {
    pub servers: Table<Server>,
}

impl View for Config {
    type V = Seq<(Seq<char>, Registration)>;

    open spec fn view(&self) -> Seq<(Seq<char>, Registration)> {
        on_values(self.servers@, |s: Server| s@)
    }
}

impl Config {
    /// Whether the servers, and the headers of each, stand in the order of their
    /// names.
    pub open spec fn wf(self) -> bool {
        self.servers.wf() && forall|i: int|
            0 <= i < self.servers@.len() ==> (#[trigger] self.servers@[i]).1.wf()
    }
}

impl Default for Config {
    /// No servers.
    fn default() -> (r: Self)
        ensures
            r.wf(),
            r@ == Seq::<(Seq<char>, Registration)>::empty(),
    {
        let r = Config { servers: Table::new() };
        assert(r@ =~= Seq::empty());
        r
    }
}

/// What the OAuth state of a server is: the mathematical model of [`Credentials`].
pub struct Grant {
    pub access_token: Option<Seq<char>>,
    pub refresh_token: Option<Seq<char>>,
    pub expires_at: Option<u64>,
    pub client_id: Option<Seq<char>>,
    pub client_secret: Option<Seq<char>>,
    pub authorization_endpoint: Option<Seq<char>>,
    pub token_endpoint: Option<Seq<char>>,
    pub registration_endpoint: Option<Seq<char>>,
    pub resource: Option<Seq<char>>,
    pub scope: Option<Seq<char>>,
}

/// The OAuth state of a server: the registered client and the tokens.
#[derive(Debug, PartialEq)]
pub struct Credentials {
    pub access_token: Option<String>,
    pub refresh_token: Option<String>,
    /// In Unix seconds. There is none when the token was issued without an expiry.
    pub expires_at: Option<u64>,
    pub client_id: Option<String>,
    pub client_secret: Option<String>,
    pub authorization_endpoint: Option<String>,
    pub token_endpoint: Option<String>,
    pub registration_endpoint: Option<String>,
    /// The resource that the tokens are meant for.
    pub resource: Option<String>,
    pub scope: Option<String>,
}

impl View for Credentials {
    type V = Grant;

    open spec fn view(&self) -> Grant {
        Grant {
            access_token: opt_view(self.access_token),
            refresh_token: opt_view(self.refresh_token),
            expires_at: self.expires_at,
            client_id: opt_view(self.client_id),
            client_secret: opt_view(self.client_secret),
            authorization_endpoint: opt_view(self.authorization_endpoint),
            token_endpoint: opt_view(self.token_endpoint),
            registration_endpoint: opt_view(self.registration_endpoint),
            resource: opt_view(self.resource),
            scope: opt_view(self.scope),
        }
    }
}

/// Credentials that hold nothing.
pub open spec fn no_grant() -> Grant {
    Grant {
        access_token: None,
        refresh_token: None,
        expires_at: None,
        client_id: None,
        client_secret: None,
        authorization_endpoint: None,
        token_endpoint: None,
        registration_endpoint: None,
        resource: None,
        scope: None,
    }
}

/// Copies an optional text.
pub fn copy_text(text: &Option<String>) -> (r: Option<String>)
    ensures
        opt_view(r) == opt_view(*text),
{
    match text {
        Some(s) => Some(s.clone()),
        None => None,
    }
}

impl Clone for Credentials {
    fn clone(&self) -> (r: Self)
        ensures
            r@ == self@,
    {
        Credentials {
            access_token: copy_text(&self.access_token),
            refresh_token: copy_text(&self.refresh_token),
            expires_at: self.expires_at,
            client_id: copy_text(&self.client_id),
            client_secret: copy_text(&self.client_secret),
            authorization_endpoint: copy_text(&self.authorization_endpoint),
            token_endpoint: copy_text(&self.token_endpoint),
            registration_endpoint: copy_text(&self.registration_endpoint),
            resource: copy_text(&self.resource),
            scope: copy_text(&self.scope),
        }
    }
}

impl Default for Credentials {
    /// Credentials that hold nothing.
    fn default() -> (r: Self)
        ensures
            r@ == no_grant(),
    {
        Credentials {
            access_token: None,
            refresh_token: None,
            expires_at: None,
            client_id: None,
            client_secret: None,
            authorization_endpoint: None,
            token_endpoint: None,
            registration_endpoint: None,
            resource: None,
            scope: None,
        }
    }
}

// ---------------------------------------------------------------------------
// Time
// ---------------------------------------------------------------------------

impl Grant {
    /// Whether the access token is to be refreshed: from a minute before its expiry,
    /// so that it does not expire in the middle of a request.
    pub open spec fn expired_at(self, now: u64) -> bool {
        match self.expires_at {
            Some(exp) => now + 60 >= exp,
            None => false,
        }
    }
}

/// A reading of the clock.
#[verifier::external_type_specification]
#[verifier::external_body]
pub struct ExSystemTime(std::time::SystemTime);

/// The error of a reading that is earlier than what it is compared with.
#[verifier::external_type_specification]
#[verifier::external_body]
pub struct ExSystemTimeError(std::time::SystemTimeError);

/// `SystemTime::now`: what the clock shows. Nothing is claimed of it.
pub assume_specification[ std::time::SystemTime::now ]() -> std::time::SystemTime;

/// How much later than the Unix epoch a reading of the clock is, if it is not earlier.
pub uninterp spec fn passed_since_epoch(time: std::time::SystemTime) -> Option<
    core::time::Duration,
>;

/// `SystemTime::duration_since` the Unix epoch: how much later a reading is, or an
/// error if it is earlier.
#[verifier::external_body]
fn since_epoch(time: std::time::SystemTime) -> (r: Result<
    core::time::Duration,
    std::time::SystemTimeError,
>)
    ensures
        match r {
            Ok(passed) => passed_since_epoch(time) == Some(passed),
            Err(_) => passed_since_epoch(time) is None,
        },
{
    time.duration_since(std::time::UNIX_EPOCH)
}

/// The whole seconds in a span of time.
pub uninterp spec fn whole_seconds(d: core::time::Duration) -> u64;

/// `Duration::as_secs`: the whole seconds in a span of time.
pub assume_specification[ core::time::Duration::as_secs ](d: &core::time::Duration) -> (r: u64)
    ensures
        r == whole_seconds(*d),
;

/// The Unix seconds of a reading of the clock: zero if it stands before the epoch.
pub open spec fn unix_time(time: std::time::SystemTime) -> u64 {
    match passed_since_epoch(time) {
        Some(passed) => whole_seconds(passed),
        None => 0,
    }
}

/// The Unix seconds for what the clock gave: zero if it stands before the epoch.
pub fn unix_seconds(reading: Option<u64>) -> (r: u64)
    ensures
        r == match reading {
            Some(seconds) => seconds,
            None => 0,
        },
{
    match reading {
        Some(seconds) => seconds,
        None => 0,
    }
}

/// The Unix seconds of this moment: those of a reading of the clock. Nothing is
/// promised of what the clock shows.
pub fn now() -> (r: u64)
    ensures
        exists|time: std::time::SystemTime| r == #[trigger] unix_time(time),
{
    let time = std::time::SystemTime::now();
    let reading: Option<u64> = match since_epoch(time) {
        Ok(passed) => Some(passed.as_secs()),
        Err(_) => None,
    };
    let seconds: u64 = unix_seconds(reading);
    assert(seconds == unix_time(time));
    seconds
}

impl Credentials {
    /// Whether the access token is to be refreshed at a moment.
    pub fn is_expired_at(&self, now: u64) -> (r: bool)
        ensures
            r == self@.expired_at(now),
    {
        match self.expires_at {
            Some(exp) => now >= exp || exp - now <= 60,
            None => false,
        }
    }

    /// Whether the access token is to be refreshed now, by a reading of the clock.
    pub fn is_expired(&self) -> (r: bool)
        ensures
            self.expires_at is None ==> !r,
            self.expires_at matches Some(exp) && exp <= 60 ==> r,
            exists|time: std::time::SystemTime|
                r == self@.expired_at(#[trigger] unix_time(time)),
    {
        let now = now();
        self.is_expired_at(now)
    }
}

// ---------------------------------------------------------------------------
// Where the files are
// ---------------------------------------------------------------------------

/// Where a path starts: the mathematical model of [`Root`].
pub enum Start {
    Given(Seq<char>),
    User,
}

/// Where a path starts.
#[derive(Debug, PartialEq)]
pub enum Root {
    /// At a path that is given.
    Given(String),
    /// At the directory for the configuration of the user.
    User,
}

/// What a path is: the mathematical model of [`Location`].
pub struct Place {
    pub root: Start,
    pub segments: Seq<Seq<char>>,
}

/// A path: where it starts, and what follows, one name below the other.
#[derive(Debug, PartialEq)]
pub struct Location {
    pub root: Root,
    pub segments: Vec<String>,
}

impl View for Root {
    type V = Start;

    open spec fn view(&self) -> Start {
        match self {
            Root::Given(dir) => Start::Given(dir@),
            Root::User => Start::User,
        }
    }
}

impl View for Location {
    type V = Place;

    open spec fn view(&self) -> Place {
        Place { root: self.root@, segments: views(self.segments@) }
    }
}

impl Place {
    /// The path one name further down.
    pub open spec fn join(self, segment: Seq<char>) -> Place {
        Place { root: self.root, segments: self.segments.push(segment) }
    }
}

impl Location {
    /// The path one name further down.
    pub fn join(self, segment: &str) -> (r: Location)
        ensures
            r@ == self@.join(segment@),
    {
        let ghost before = views(self.segments@);
        let mut segments = self.segments;
        segments.push(segment.to_owned());
        assert(views(segments@) =~= before.push(segment@));
        Location { root: self.root, segments }
    }
}

/// The directory of this program, when the environment names one (`chosen`) or the
/// user has a directory for configuration (`has_home`).
pub open spec fn config_place(chosen: Option<Seq<char>>, has_home: bool) -> Result<Place, Fault> {
    match chosen {
        Some(dir) => Ok(Place { root: Start::Given(dir), segments: seq![] }),
        None => if has_home {
            Ok(Place { root: Start::User, segments: seq!["mcp"@] })
        } else {
            Err(plain("cannot determine config directory"@))
        },
    }
}

/// A place below the directory of this program.
pub open spec fn below(dir: Result<Place, Fault>, segment: Seq<char>) -> Result<Place, Fault> {
    match dir {
        Ok(place) => Ok(place.join(segment)),
        Err(e) => Err(e),
    }
}

/// The view of a path that may not be known.
pub open spec fn place_of(r: Result<Location, Error>) -> Result<Place, Fault> {
    match r {
        Ok(location) => Ok(location@),
        Err(e) => Err(e@),
    }
}

/// The directory of this program: the one that `MCP_CONFIG_DIR` names, or `mcp` in
/// the directory for the configuration of the user.
pub fn config_dir(chosen: Option<String>, has_home: bool) -> (r: Result<Location, Error>)
    ensures
        place_of(r) == config_place(opt_view(chosen), has_home),
{
    match chosen {
        Some(dir) => {
            let r = Location { root: Root::Given(dir), segments: Vec::new() };
            assert(r@.segments =~= seq![]);
            Ok(r)
        },
        None => if has_home {
            let r = Location { root: Root::User, segments: Vec::new() };
            assert(r@.segments =~= seq![]);
            let r = r.join("mcp");
            assert(r@.segments =~= seq!["mcp"@]);
            Ok(r)
        } else {
            Err(Error::plain("cannot determine config directory".to_owned()))
        },
    }
}

/// A place below the directory of this program.
pub fn join_to(dir: Result<Location, Error>, segment: &str) -> (r: Result<Location, Error>)
    ensures
        place_of(r) == below(place_of(dir), segment@),
{
    match dir {
        Ok(location) => Ok(location.join(segment)),
        Err(e) => Err(e),
    }
}

/// The file that holds the registered servers.
pub open spec fn servers_place(chosen: Option<Seq<char>>, has_home: bool) -> Result<Place, Fault> {
    below(config_place(chosen, has_home), "servers.json"@)
}

/// The file that holds the credentials.
pub open spec fn credentials_place(chosen: Option<Seq<char>>, has_home: bool) -> Result<Place, Fault> {
    below(config_place(chosen, has_home), "credentials.json"@)
}

/// The file that holds the registered servers.
pub fn servers_path(chosen: Option<String>, has_home: bool) -> (r: Result<Location, Error>)
    ensures
        place_of(r) == servers_place(opt_view(chosen), has_home),
{
    join_to(config_dir(chosen, has_home), "servers.json")
}

/// The file that holds the credentials.
pub fn credentials_path(chosen: Option<String>, has_home: bool) -> (r: Result<Location, Error>)
    ensures
        place_of(r) == credentials_place(opt_view(chosen), has_home),
{
    join_to(config_dir(chosen, has_home), "credentials.json")
}

/// How the file that holds the credentials is named to the user, from how its path
/// is shown where it is known.
pub fn credentials_path_display(shown: Option<String>) -> (r: String)
    ensures
        r@ == match shown {
            Some(path) => path@,
            None => "the config directory"@,
        },
{
    match shown {
        Some(path) => path,
        None => "the config directory".to_owned(),
    }
}

// ---------------------------------------------------------------------------
// Reading and writing files
// ---------------------------------------------------------------------------

/// What reading a file gave.
pub enum Stored<T> {
    /// There is no such file.
    Missing,
    /// The text of the file, and what it stands for or the complaint of the reader.
    Text(String, Result<T, String>),
    /// The complaint of the file system.
    Unreadable(String),
}

impl<T> Stored<T> {
    /// Whether there is nothing to read.
    pub open spec fn nothing(self) -> bool {
        match self {
            Stored::Missing => true,
            Stored::Text(text, _) => blank(text@),
            Stored::Unreadable(_) => false,
        }
    }
}

/// What a file holds: nothing when it is missing or blank, the value that its text
/// stands for, or the error why it cannot be known.
pub open spec fn held<T>(stored: Stored<T>, path: Seq<char>) -> Result<Option<T>, Fault> {
    if stored.nothing() {
        Ok(None)
    } else {
        match stored {
            Stored::Text(_, Ok(value)) => Ok(Some(value)),
            Stored::Text(_, Err(e)) => Err(because("parsing "@ + path, e@)),
            Stored::Unreadable(e) => Err(because("reading "@ + path, e@)),
            Stored::Missing => Ok(None),
        }
    }
}

/// What a file holds, if anything.
pub fn read_json<T>(path: &str, stored: Stored<T>) -> (r: Result<Option<T>, Error>)
    ensures
        match r {
            Ok(value) => held(stored, path@) == Ok::<Option<T>, Fault>(value),
            Err(e) => held(stored, path@) == Err::<Option<T>, Fault>(e@),
        },
{
    match stored {
        Stored::Missing => Ok(None),
        Stored::Text(text, decoded) => if is_blank(text.as_str()) {
            Ok(None)
        } else {
            match decoded {
                Ok(value) => Ok(Some(value)),
                Err(e) => Err(Error::because(concat("parsing ", path), e)),
            }
        },
        Stored::Unreadable(e) => Err(Error::because(concat("reading ", path), e)),
    }
}

/// What is to be written to a file.
pub struct Writing<T> {
    /// The value that the text of the file stands for.
    pub value: T,
    /// Whether only its owner may read the file.
    pub private: bool,
}

/// The text of a file, from how its value is printed: it ends with a line break. A
/// blank text would be read as a file that holds nothing, and is not written.
pub open spec fn written_text(printed: Seq<char>) -> Option<Seq<char>> {
    if blank(printed) {
        None
    } else {
        Some(printed.push('\n'))
    }
}

/// The text of a file, from how its value is printed.
pub fn file_text(printed: &str) -> (r: Option<String>)
    ensures
        opt_view(r) == written_text(printed@),
{
    if is_blank(printed) {
        return None;
    }
    let mut out = printed.to_owned();
    out.push('\n');
    Some(out)
}

// ---------------------------------------------------------------------------
// Servers
// ---------------------------------------------------------------------------

/// Whether what reading the servers gave is in good order.
pub open spec fn servers_wf(stored: Stored<Config>) -> bool {
    stored matches Stored::Text(_, Ok(config)) ==> config.wf()
}

/// The registered servers that a file holds.
pub open spec fn servers_held(stored: Stored<Config>, path: Seq<char>) -> Result<
    Seq<(Seq<char>, Registration)>,
    Fault,
> {
    match held(stored, path) {
        Ok(Some(config)) => Ok(config@),
        Ok(None) => Ok(seq![]),
        Err(e) => Err(e),
    }
}

/// The registered servers that a file holds.
pub fn load_config(path: &str, stored: Stored<Config>) -> (r: Result<Config, Error>)
    requires
        servers_wf(stored),
    ensures
        match r {
            Ok(config) => config.wf() && servers_held(stored, path@) == Ok::<
                Seq<(Seq<char>, Registration)>,
                Fault,
            >(config@),
            Err(e) => servers_held(stored, path@) == Err::<Seq<(Seq<char>, Registration)>, Fault>(
                e@,
            ),
        },
{
    match read_json(path, stored) {
        Ok(Some(config)) => Ok(config),
        Ok(None) => Ok(Config::default()),
        Err(e) => Err(e),
    }
}

/// What is to be written when the servers are saved.
pub fn save_config(config: &Config) -> (r: Writing<&Config>)
    ensures
        *r.value == *config,
        !r.private,
{
    Writing { value: config, private: false }
}

// ---------------------------------------------------------------------------
// Credentials
// ---------------------------------------------------------------------------

/// Credentials by the names of their servers.
pub open spec fn grants(all: Seq<(Seq<char>, Credentials)>) -> Seq<(Seq<char>, Grant)> {
    on_values(all, |c: Credentials| c@)
}

/// Whether what reading the credentials gave is in good order.
pub open spec fn credentials_wf(stored: Stored<Table<Credentials>>) -> bool {
    stored matches Stored::Text(_, Ok(all)) ==> all.wf()
}

/// The credentials that a file holds.
pub open spec fn grants_held(stored: Stored<Table<Credentials>>, path: Seq<char>) -> Result<
    Seq<(Seq<char>, Grant)>,
    Fault,
> {
    match held(stored, path) {
        Ok(Some(all)) => Ok(grants(all@)),
        Ok(None) => Ok(seq![]),
        Err(e) => Err(e),
    }
}

/// The credentials for a server among all of them: empty ones when there are none.
pub open spec fn grant_for(all: Seq<(Seq<char>, Grant)>, name: Seq<char>) -> Grant {
    match lookup(all, name) {
        Some(grant) => grant,
        None => no_grant(),
    }
}

/// The credentials that a file holds.
pub fn load_all_credentials(path: &str, stored: Stored<Table<Credentials>>) -> (r: Result<
    Table<Credentials>,
    Error,
>)
    requires
        credentials_wf(stored),
    ensures
        match r {
            Ok(all) => all.wf() && grants_held(stored, path@) == Ok::<
                Seq<(Seq<char>, Grant)>,
                Fault,
            >(grants(all@)),
            Err(e) => grants_held(stored, path@) == Err::<Seq<(Seq<char>, Grant)>, Fault>(e@),
        },
{
    match read_json(path, stored) {
        Ok(Some(all)) => Ok(all),
        Ok(None) => {
            let all: Table<Credentials> = Table::new();
            assert(grants(all@) =~= seq![]);
            Ok(all)
        },
        Err(e) => Err(e),
    }
}

/// The credentials for a server.
pub fn load_credentials(name: &str, path: &str, stored: Stored<Table<Credentials>>) -> (r: Result<
    Credentials,
    Error,
>)
    requires
        credentials_wf(stored),
    ensures
        match r {
            Ok(c) => grants_held(stored, path@) matches Ok(all) && c@ == grant_for(all, name@),
            Err(e) => grants_held(stored, path@) == Err::<Seq<(Seq<char>, Grant)>, Fault>(e@),
        },
{
    match load_all_credentials(path, stored) {
        Ok(all) => {
            let mut all = all;
            proof {
                on_values_commutes(all@, |c: Credentials| c@, name@, arbitrary());
            }
            match all.remove(name) {
                Some(c) => Ok(c),
                None => Ok(Credentials::default()),
            }
        },
        Err(e) => Err(e),
    }
}

/// What is to be written when credentials are saved: all of them, for their owner
/// only.
pub fn save_credentials(
    name: &str,
    creds: &Credentials,
    path: &str,
    stored: Stored<Table<Credentials>>,
) -> (r: Result<Writing<Table<Credentials>>, Error>)
    requires
        credentials_wf(stored),
    ensures
        match r {
            Ok(writing) => {
                &&& grants_held(stored, path@) matches Ok(all)
                &&& grants(writing.value@) == put(all, name@, creds@)
                &&& writing.value.wf()
                &&& writing.private
            },
            Err(e) => grants_held(stored, path@) == Err::<Seq<(Seq<char>, Grant)>, Fault>(e@),
        },
{
    match load_all_credentials(path, stored) {
        Ok(all) => {
            let mut all = all;
            let copy = creds.clone();
            proof {
                on_values_commutes(all@, |c: Credentials| c@, name@, copy);
            }
            all.insert(name.to_owned(), copy);
            Ok(Writing { value: all, private: true })
        },
        Err(e) => Err(e),
    }
}

/// What is to be written when credentials are deleted: the others, for their owner
/// only, and nothing when there are none to delete.
pub fn delete_credentials(name: &str, path: &str, stored: Stored<Table<Credentials>>) -> (r: Result<
    Option<Writing<Table<Credentials>>>,
    Error,
>)
    requires
        credentials_wf(stored),
    ensures
        match r {
            Ok(Some(writing)) => {
                &&& grants_held(stored, path@) matches Ok(all)
                &&& lookup(all, name@) is Some
                &&& grants(writing.value@) == without(all, name@)
                &&& writing.value.wf()
                &&& writing.private
            },
            Ok(None) => {
                &&& grants_held(stored, path@) matches Ok(all)
                &&& lookup(all, name@) is None
            },
            Err(e) => grants_held(stored, path@) == Err::<Seq<(Seq<char>, Grant)>, Fault>(e@),
        },
{
    match load_all_credentials(path, stored) {
        Ok(all) => {
            let mut all = all;
            proof {
                on_values_commutes(all@, |c: Credentials| c@, name@, arbitrary());
            }
            match all.remove(name) {
                Some(_) => Ok(Some(Writing { value: all, private: true })),
                None => Ok(None),
            }
        },
        Err(e) => Err(e),
    }
}

// ---------------------------------------------------------------------------
// Laws
// ---------------------------------------------------------------------------

/// Saved credentials are what is loaded under their name, and those of other
/// servers stay as they were.
pub proof fn saved_credentials_load_back(
    all: Seq<(Seq<char>, Grant)>,
    name: Seq<char>,
    grant: Grant,
    other: Seq<char>,
)
    requires
        ascending(all),
    ensures
        ascending(put(all, name, grant)),
        grant_for(put(all, name, grant), name) == grant,
        other != name ==> grant_for(put(all, name, grant), other) == grant_for(all, other),
{
    put_keeps_order(all, name, grant);
    put_then_lookup(all, name, grant, other);
}

/// What is written is not blank.
proof fn written_text_is_not_blank(printed: Seq<char>)
    ensures
        written_text(printed) matches Some(text) ==> !blank(text),
{
    if let Some(text) = written_text(printed) {
        blank_is_all_space(printed);
        blank_is_all_space(text);
        assert forall|i: int| 0 <= i < printed.len() implies text[i] == printed[i] by {}
    }
}

/// Servers that were saved are what is loaded when the file is read again, however
/// they are printed.
pub proof fn saved_servers_are_loaded(
    config: Config,
    printed: Seq<char>,
    text: String,
    path: Seq<char>,
)
    requires
        written_text(printed) == Some(text@),
    ensures
        servers_held(Stored::Text(text, Ok(config)), path) == Ok::<
            Seq<(Seq<char>, Registration)>,
            Fault,
        >(config@),
{
    written_text_is_not_blank(printed);
}

/// What is written when credentials are saved is what is loaded when the file is read
/// again: the saved ones under their name, and under other names what was there.
pub proof fn what_was_saved_is_loaded(
    before: Stored<Table<Credentials>>,
    written: Table<Credentials>,
    printed: Seq<char>,
    text: String,
    path: Seq<char>,
    name: Seq<char>,
    grant: Grant,
    other: Seq<char>,
)
    requires
        credentials_wf(before),
        grants_held(before, path) is Ok,
        grants(written@) == put(grants_held(before, path)->Ok_0, name, grant),
        written_text(printed) == Some(text@),
    ensures
        ({
            let all = grants_held(before, path)->Ok_0;
            let after = grants_held(Stored::Text(text, Ok(written)), path);
            &&& after == Ok::<Seq<(Seq<char>, Grant)>, Fault>(put(all, name, grant))
            &&& grant_for(after->Ok_0, name) == grant
            &&& other != name ==> grant_for(after->Ok_0, other) == grant_for(all, other)
        }),
{
    let all = grants_held(before, path)->Ok_0;
    if let Stored::Text(_, Ok(table)) = before {
        on_values_commutes(table@, |c: Credentials| c@, name, arbitrary());
    }
    assert(ascending(all));
    written_text_is_not_blank(printed);
    saved_credentials_load_back(all, name, grant, other);
}

/// What is written when credentials are deleted is what is loaded when the file is
/// read again: none under their name, so that there is nothing to delete a second
/// time, and under other names what was there.
pub proof fn what_was_deleted_is_gone(
    before: Stored<Table<Credentials>>,
    written: Table<Credentials>,
    printed: Seq<char>,
    text: String,
    path: Seq<char>,
    name: Seq<char>,
    other: Seq<char>,
)
    requires
        credentials_wf(before),
        grants_held(before, path) is Ok,
        grants(written@) == without(grants_held(before, path)->Ok_0, name),
        written_text(printed) == Some(text@),
    ensures
        ({
            let all = grants_held(before, path)->Ok_0;
            let after = grants_held(Stored::Text(text, Ok(written)), path);
            &&& after == Ok::<Seq<(Seq<char>, Grant)>, Fault>(without(all, name))
            &&& lookup(after->Ok_0, name) is None
            &&& other != name ==> lookup(after->Ok_0, other) == lookup(all, other)
        }),
{
    let all = grants_held(before, path)->Ok_0;
    if let Stored::Text(_, Ok(table)) = before {
        on_values_commutes(table@, |c: Credentials| c@, name, arbitrary());
    }
    assert(ascending(all));
    written_text_is_not_blank(printed);
    without_then_lookup(all, name, name);
    without_then_lookup(all, name, other);
}

/// Deleted credentials are gone, and those of other servers stay as they were.
pub proof fn deleted_credentials_are_gone(
    all: Seq<(Seq<char>, Grant)>,
    name: Seq<char>,
    other: Seq<char>,
)
    requires
        ascending(all),
    ensures
        ascending(without(all, name)),
        grant_for(without(all, name), name) == no_grant(),
        other != name ==> grant_for(without(all, name), other) == grant_for(all, other),
{
    without_keeps_order(all, name);
    without_then_lookup(all, name, other);
}

/// A token is refreshed from a minute before its expiry on, and from then on at any
/// later moment; a token without an expiry never.
pub proof fn tokens_are_refreshed_a_minute_early(grant: Grant, now: u64, later: u64)
    requires
        now <= later,
    ensures
        grant.expires_at is None ==> !grant.expired_at(now),
        grant.expires_at matches Some(exp) ==> (grant.expired_at(now) <==> now >= exp - 60),
        grant.expired_at(now) ==> grant.expired_at(later),
{
}

/// The files for the servers and for the credentials lie side by side, in the
/// directory that the environment names if it names one.
pub proof fn chosen_directory_holds_the_files(dir: Seq<char>, has_home: bool, file: Seq<char>)
    ensures
        below(config_place(Some(dir), has_home), file) == Ok::<Place, Fault>(
            (Place { root: Start::Given(dir), segments: seq![file] }),
        ),
{
    assert(Seq::<Seq<char>>::empty().push(file) =~= seq![file]);
}

/// The files lie in the directory that the environment names, else below that for the
/// configuration of the user, and without both nowhere.
pub proof fn files_lie_in_one_directory(dir: Seq<char>, has_home: bool, file: Seq<char>, place: Place, e: Fault)
    ensures
        config_place(Some(dir), has_home) == Ok::<Place, Fault>(
            (Place { root: Start::Given(dir), segments: seq![] }),
        ),
        config_place(None, true) == Ok::<Place, Fault>(
            (Place { root: Start::User, segments: seq!["mcp"@] }),
        ),
        config_place(None, false) == Err::<Place, Fault>(plain("cannot determine config directory"@)),
        below(Ok(place), file) == Ok::<Place, Fault>(
            (Place { root: place.root, segments: place.segments.push(file) }),
        ),
        below(Err(e), file) == Err::<Place, Fault>(e),
{
}

/// A file that is missing or blank holds nothing; else it holds what its text stands
/// for, or it is reported why that cannot be known.
pub proof fn files_hold_what_they_stand_for<T>(
    text: String,
    value: T,
    decoded: Result<T, String>,
    complaint: String,
    path: Seq<char>,
)
    ensures
        held(Stored::<T>::Missing, path) == Ok::<Option<T>, Fault>(None),
        blank(text@) ==> held(Stored::Text(text, decoded), path) == Ok::<Option<T>, Fault>(None),
        !blank(text@) ==> held(Stored::Text(text, Ok(value)), path) == Ok::<Option<T>, Fault>(Some(value)),
        !blank(text@) ==> held(Stored::<T>::Text(text, Err(complaint)), path) == Err::<Option<T>, Fault>(
            because("parsing "@ + path, complaint@),
        ),
        held(Stored::<T>::Unreadable(complaint), path) == Err::<Option<T>, Fault>(
            because("reading "@ + path, complaint@),
        ),
{
}

/// What is loaded is what the file holds, nothing where it holds nothing, and an error
/// where that cannot be known.
pub proof fn what_is_held_is_loaded(
    servers: Stored<Config>,
    config: Config,
    credentials: Stored<Table<Credentials>>,
    all: Table<Credentials>,
    path: Seq<char>,
    e: Fault,
)
    ensures
        held(servers, path) == Ok::<Option<Config>, Fault>(Some(config)) ==> servers_held(servers, path)
            == Ok::<Seq<(Seq<char>, Registration)>, Fault>(config@),
        held(servers, path) == Ok::<Option<Config>, Fault>(None) ==> servers_held(servers, path) == Ok::<
            Seq<(Seq<char>, Registration)>,
            Fault,
        >(seq![]),
        held(servers, path) == Err::<Option<Config>, Fault>(e) ==> servers_held(servers, path) == Err::<
            Seq<(Seq<char>, Registration)>,
            Fault,
        >(e),
        held(credentials, path) == Ok::<Option<Table<Credentials>>, Fault>(Some(all)) ==> grants_held(
            credentials,
            path,
        ) == Ok::<Seq<(Seq<char>, Grant)>, Fault>(grants(all@)),
        held(credentials, path) == Ok::<Option<Table<Credentials>>, Fault>(None) ==> grants_held(
            credentials,
            path,
        ) == Ok::<Seq<(Seq<char>, Grant)>, Fault>(seq![]),
        held(credentials, path) == Err::<Option<Table<Credentials>>, Fault>(e) ==> grants_held(
            credentials,
            path,
        ) == Err::<Seq<(Seq<char>, Grant)>, Fault>(e),
{
}

/// The credentials of a server that has none are empty in every field.
pub proof fn without_credentials_every_field_is_empty(all: Seq<(Seq<char>, Grant)>, name: Seq<char>, grant: Grant)
    ensures
        lookup(all, name) == Some(grant) ==> grant_for(all, name) == grant,
        lookup(all, name) is None ==> {
            let none = grant_for(all, name);
            &&& none.access_token is None && none.refresh_token is None && none.expires_at is None
            &&& none.client_id is None && none.client_secret is None && none.resource is None
            &&& none.authorization_endpoint is None && none.token_endpoint is None
            &&& none.registration_endpoint is None && none.scope is None
        },
{
}

/// Credentials, servers and the tables of both are seen with everything that they hold.
pub proof fn stored_values_are_seen_whole(c: Credentials, server: Server, config: Config, all: Table<Credentials>, i: int)
    ensures
        c@.access_token == opt_view(c.access_token) && c@.refresh_token == opt_view(c.refresh_token),
        c@.expires_at == c.expires_at && c@.scope == opt_view(c.scope),
        c@.client_id == opt_view(c.client_id) && c@.client_secret == opt_view(c.client_secret),
        c@.authorization_endpoint == opt_view(c.authorization_endpoint),
        c@.token_endpoint == opt_view(c.token_endpoint),
        c@.registration_endpoint == opt_view(c.registration_endpoint),
        c@.resource == opt_view(c.resource),
        server@.url == server.url@ && server@.headers == texts(server.headers@),
        config@.len() == config.servers@.len(),
        0 <= i < config@.len() ==> config@[i] == (config.servers@[i].0, config.servers@[i].1@),
        grants(all@).len() == all@.len(),
        0 <= i < all@.len() ==> grants(all@)[i] == (all@[i].0, all@[i].1@),
{
}

/// A file is written as it is printed, with a line break at its end.
pub proof fn files_end_with_a_line_break(printed: Seq<char>)
    ensures
        !blank(printed) ==> written_text(printed) == Some(printed + seq!['\n']),
        blank(printed) ==> written_text(printed) is None,
{
    assert(printed.push('\n') =~= printed + seq!['\n']);
}

/// The servers and the credentials have files of their own in the directory of this
/// program.
pub proof fn servers_and_credentials_have_their_files(dir: Seq<char>, has_home: bool)
    ensures
        servers_place(Some(dir), has_home) == Ok::<Place, Fault>(
            (Place { root: Start::Given(dir), segments: seq!["servers.json"@] }),
        ),
        credentials_place(Some(dir), has_home) == Ok::<Place, Fault>(
            (Place { root: Start::Given(dir), segments: seq!["credentials.json"@] }),
        ),
        servers_place(None, true) == Ok::<Place, Fault>(
            (Place { root: Start::User, segments: seq!["mcp"@, "servers.json"@] }),
        ),
        credentials_place(None, true) == Ok::<Place, Fault>(
            (Place { root: Start::User, segments: seq!["mcp"@, "credentials.json"@] }),
        ),
        servers_place(None, false) is Err && credentials_place(None, false) is Err,
{
    let none = Seq::<Seq<char>>::empty();
    assert(none.push("servers.json"@) =~= seq!["servers.json"@]);
    assert(none.push("credentials.json"@) =~= seq!["credentials.json"@]);
    assert(seq!["mcp"@].push("servers.json"@) =~= seq!["mcp"@, "servers.json"@]);
    assert(seq!["mcp"@].push("credentials.json"@) =~= seq!["mcp"@, "credentials.json"@]);
}

/// The clock counts whole seconds from the epoch on, and zero before it.
pub proof fn the_clock_starts_at_the_epoch(time: std::time::SystemTime, passed: core::time::Duration)
    ensures
        passed_since_epoch(time) is None ==> unix_time(time) == 0,
        passed_since_epoch(time) == Some(passed) ==> unix_time(time) == whole_seconds(passed),
{
}

} // verus!
