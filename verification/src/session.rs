//! Opening a session: refreshing tokens where that is needed, and asking the user to
//! authorize where it does not help.

use vstd::prelude::*;
use vstd::string::*;

use crate::client::{CallError, Unauthorized};
use crate::config::{Credentials, Grant};
use crate::error::{plain, Error, Fault};
use crate::text::{concat3, opt_view};

verus! {

/// How far the opening of a session has come: the mathematical model of [`Stage`].
pub enum Phase {
    Early,
    First,
    Retry(Option<Seq<char>>),
    Second(Option<Seq<char>>),
}

/// How far the opening of a session has come.
#[derive(Debug, PartialEq)]
pub enum Stage {
    /// The token has expired and is to be refreshed before anything is sent.
    Early,
    /// The session is to be opened.
    First,
    /// Access was refused with a challenge; the token is to be refreshed.
    Retry(Option<String>),
    /// The session is to be opened again.
    Second(Option<String>),
}

/// The opening of a session: the mathematical model of [`Connect`].
pub struct Opening {
    pub name: Seq<char>,
    pub grant: Grant,
    pub phase: Phase,
}

/// The opening of a session.
#[derive(Debug, PartialEq)]
pub struct Connect {
    /// The server.
    pub name: String,
    /// The credentials in hand.
    pub credentials: Credentials,
    pub stage: Stage,
}

/// What is to be done next: the mathematical model of [`Action`].
pub enum Deed {
    Refresh(Opening),
    Open(Opening, bool),
    Done,
    Fail(Fault),
}

/// What is to be done next.
#[derive(Debug, PartialEq)]
pub enum Action {
    /// Refresh the credentials in hand.
    Refresh(Connect),
    /// Open the session with the token in hand, and before that save the credentials if
    /// they are new.
    Open(Connect, bool),
    /// The session is open.
    Done,
    /// The session cannot be opened.
    Fail(Error),
}

impl View for Stage {
    type V = Phase;

    open spec fn view(&self) -> Phase {
        match self {
            Stage::Early => Phase::Early,
            Stage::First => Phase::First,
            Stage::Retry(challenge) => Phase::Retry(opt_view(*challenge)),
            Stage::Second(challenge) => Phase::Second(opt_view(*challenge)),
        }
    }
}

impl View for Connect {
    type V = Opening;

    open spec fn view(&self) -> Opening {
        Opening { name: self.name@, grant: self.credentials@, phase: self.stage@ }
    }
}

impl View for Action {
    type V = Deed;

    open spec fn view(&self) -> Deed {
        match self {
            Action::Refresh(connect) => Deed::Refresh(connect@),
            Action::Open(connect, save) => Deed::Open(connect@, *save),
            Action::Done => Deed::Done,
            Action::Fail(e) => Deed::Fail(e@),
        }
    }
}

/// The error that the user has to authorize.
pub open spec fn unauthorized(name: Seq<char>, challenge: Option<Seq<char>>) -> Fault {
    let hint = match challenge {
        Some(header) => " ("@ + header + ")"@,
        None => seq![],
    };
    plain(name + " requires authorization"@ + hint + ". Run: mcp "@ + name + " auth"@)
}

/// How the opening of a session begins.
pub open spec fn opening(name: Seq<char>, grant: Grant, now: u64) -> Deed {
    if grant.access_token is Some && grant.expired_at(now) {
        Deed::Refresh(Opening { name, grant, phase: Phase::Early })
    } else {
        Deed::Open(Opening { name, grant, phase: Phase::First }, false)
    }
}

impl Opening {
    /// Whether the credentials are to be refreshed.
    pub open spec fn refreshes(self) -> bool {
        self.phase is Early || self.phase is Retry
    }

    /// What follows a refresh, which may have given new credentials.
    pub open spec fn refreshed(self, renewed: Option<Grant>) -> Deed {
        match self.phase {
            Phase::Retry(challenge) => match renewed {
                Some(grant) => Deed::Open(
                    Opening { grant, phase: Phase::Second(challenge), ..self },
                    true,
                ),
                None => Deed::Fail(unauthorized(self.name, challenge)),
            },
            _ => match renewed {
                Some(grant) => Deed::Open(Opening { grant, phase: Phase::First, ..self }, true),
                None => Deed::Open(Opening { phase: Phase::First, ..self }, false),
            },
        }
    }

    /// What follows the attempt to open the session.
    pub open spec fn opened(self, outcome: Result<(), CallError>) -> Deed {
        match outcome {
            Ok(_) => Deed::Done,
            Err(e) => match self.phase {
                Phase::Second(challenge) => Deed::Fail(unauthorized(self.name, challenge)),
                _ => match e {
                    CallError::Other(e) => Deed::Fail(e@),
                    CallError::Unauthorized(u) => Deed::Refresh(
                        Opening { phase: Phase::Retry(opt_view(u.www_authenticate)), ..self },
                    ),
                },
            },
        }
    }

    /// How many more steps there can be at the most.
    pub open spec fn steps_left(self) -> nat {
        match self.phase {
            Phase::Early => 4,
            Phase::First => 3,
            Phase::Retry(_) => 2,
            Phase::Second(_) => 1,
        }
    }
}

fn must_authorize(name: &str, challenge: &Option<String>) -> (r: Error)
    ensures
        r@ == unauthorized(name@, opt_view(*challenge)),
{
    let hint: String = match challenge {
        Some(header) => concat3(" (", header.as_str(), ")"),
        None => String::new(),
    };
    let mut headline = concat3(name, " requires authorization", hint.as_str());
    headline.append(". Run: mcp ");
    headline.append(name);
    headline.append(" auth");
    Error::plain(headline)
}

/// Begins to open a session with the stored credentials.
pub fn connect(name: String, credentials: Credentials, now: u64) -> (r: Action)
    ensures
        r@ == opening(name@, credentials@, now),
{
    if credentials.access_token.is_some() && credentials.is_expired_at(now) {
        Action::Refresh(Connect { name, credentials, stage: Stage::Early })
    } else {
        Action::Open(Connect { name, credentials, stage: Stage::First }, false)
    }
}

impl Connect {
    /// Goes on after a refresh, which may have given new credentials.
    pub fn refreshed(self, renewed: Option<Credentials>) -> (r: Action)
        requires
            self@.refreshes(),
        ensures
            r@ == self@.refreshed(
                match renewed {
                    Some(c) => Some(c@),
                    None => None,
                },
            ),
    {
        let Connect { name, credentials, stage } = self;
        match stage {
            Stage::Retry(challenge) => match renewed {
                Some(credentials) => Action::Open(
                    Connect { name, credentials, stage: Stage::Second(challenge) },
                    true,
                ),
                None => Action::Fail(must_authorize(name.as_str(), &challenge)),
            },
            _ => match renewed {
                Some(credentials) => Action::Open(
                    Connect { name, credentials, stage: Stage::First },
                    true,
                ),
                None => Action::Open(Connect { name, credentials, stage: Stage::First }, false),
            },
        }
    }

    /// Goes on after the attempt to open the session.
    pub fn opened(self, outcome: Result<(), CallError>) -> (r: Action)
        requires
            !self@.refreshes(),
        ensures
            r@ == self@.opened(outcome),
    {
        let e = match outcome {
            Ok(_) => return Action::Done,
            Err(e) => e,
        };
        let Connect { name, credentials, stage } = self;
        match stage {
            Stage::Second(challenge) => Action::Fail(must_authorize(name.as_str(), &challenge)),
            _ => match e {
                CallError::Other(e) => Action::Fail(e),
                CallError::Unauthorized(u) => Action::Refresh(
                    Connect { name, credentials, stage: Stage::Retry(u.www_authenticate) },
                ),
            },
        }
    }
}

// ---------------------------------------------------------------------------
// Laws
// ---------------------------------------------------------------------------

/// Every step brings the opening of a session nearer to its end: there are at most
/// two refreshes and two attempts.
pub proof fn opening_ends(o: Opening, renewed: Option<Grant>, outcome: Result<(), CallError>)
    ensures
        o.refreshes() ==> (o.refreshed(renewed) matches Deed::Open(next, _) ==> !next.refreshes()
            && next.steps_left() < o.steps_left()),
        o.refreshes() ==> !(o.refreshed(renewed) is Refresh),
        !o.refreshes() ==> (o.opened(outcome) matches Deed::Refresh(next) ==> next.refreshes()
            && next.steps_left() < o.steps_left()),
        !o.refreshes() ==> !(o.opened(outcome) is Open),
{
}

/// A token that has not expired is used as it is.
pub proof fn a_live_token_is_not_refreshed(name: Seq<char>, grant: Grant, now: u64)
    requires
        !grant.expired_at(now),
    ensures
        opening(name, grant, now) == Deed::Open(
            Opening { name, grant, phase: Phase::First },
            false,
        ),
{
}

/// Only new credentials are saved, and they are the ones with which the session is
/// then opened.
pub proof fn new_credentials_are_saved(o: Opening, renewed: Option<Grant>)
    ensures
        o.refreshed(renewed) matches Deed::Open(next, save) ==> save == (renewed is Some)
            && next.grant == match renewed {
            Some(grant) => grant,
            None => o.grant,
        },
{
}

/// Where access stays refused the user is told how to authorize.
pub proof fn a_refusal_names_the_way_out(
    name: Seq<char>,
    grant: Grant,
    challenge: Unauthorized,
    again: CallError,
    renewed: Grant,
)
    ensures
        ({
            let first = Opening { name, grant, phase: Phase::First };
            let header = opt_view(challenge.www_authenticate);
            let retry = Opening { name, grant, phase: Phase::Retry(header) };
            let second = Opening { name, grant: renewed, phase: Phase::Second(header) };
            &&& first.opened(Err(CallError::Unauthorized(challenge))) == Deed::Refresh(retry)
            &&& retry.refreshed(None) == Deed::Fail(unauthorized(name, header))
            &&& retry.refreshed(Some(renewed)) == Deed::Open(second, true)
            &&& second.opened(Err(again)) == Deed::Fail(unauthorized(name, header))
        }),
{
}

/// A token is refreshed before anything is sent exactly if there is one and it has
/// expired, up to a minute early; else the session is opened with what is in hand.
pub proof fn expired_tokens_are_refreshed_first(name: Seq<char>, grant: Grant, now: u64)
    ensures
        grant.access_token is Some && (grant.expires_at matches Some(exp) && now + 60 >= exp) ==> opening(
            name,
            grant,
            now,
        ) == Deed::Refresh(Opening { name, grant, phase: Phase::Early }),
        grant.access_token is None || grant.expires_at is None || (grant.expires_at matches Some(exp)
            && now + 60 < exp) ==> opening(name, grant, now) == Deed::Open(
            Opening { name, grant, phase: Phase::First },
            false,
        ),
{
}

/// After an early refresh the session is opened, with the new credentials if there are
/// any and with the old ones otherwise.
pub proof fn an_early_refresh_leads_to_the_server(name: Seq<char>, grant: Grant, new: Grant)
    ensures
        ({
            let early = Opening { name, grant, phase: Phase::Early };
            &&& early.refreshed(Some(new)) == Deed::Open(
                Opening { name, grant: new, phase: Phase::First },
                true,
            )
            &&& early.refreshed(None) == Deed::Open(
                Opening { name, grant, phase: Phase::First },
                false,
            )
        }),
{
}

/// A session that is opened is done with, at the first try and at the second; an error
/// other than a refusal is reported as it is at the first.
pub proof fn an_open_session_is_done(name: Seq<char>, grant: Grant, challenge: Option<Seq<char>>, e: Error)
    ensures
        (Opening { name, grant, phase: Phase::First }).opened(Ok(())) == Deed::Done,
        (Opening { name, grant, phase: Phase::Second(challenge) }).opened(Ok(())) == Deed::Done,
        (Opening { name, grant, phase: Phase::First }).opened(Err(CallError::Other(e))) == Deed::Fail(e@),
{
}

/// A refusal is reported with the name of the server, the challenge if there is one, and
/// the command that authorizes.
pub proof fn refusals_name_the_command(name: Seq<char>, header: Seq<char>)
    ensures
        unauthorized(name, None) == plain(
            name + " requires authorization. Run: mcp "@ + name + " auth"@,
        ),
        unauthorized(name, Some(header)) == plain(
            name + " requires authorization ("@ + header + "). Run: mcp "@ + name + " auth"@,
        ),
{
    reveal_strlit(" requires authorization");
    reveal_strlit(" requires authorization (");
    reveal_strlit(" requires authorization. Run: mcp ");
    reveal_strlit(" (");
    reveal_strlit(")");
    reveal_strlit("). Run: mcp ");
    reveal_strlit(". Run: mcp ");
    assert(" requires authorization"@ + ". Run: mcp "@ =~= " requires authorization. Run: mcp "@);
    assert(" requires authorization"@ + " ("@ =~= " requires authorization ("@);
    assert(")"@ + ". Run: mcp "@ =~= "). Run: mcp "@);
    let end = name + " auth"@;
    assert(name + " requires authorization"@ + Seq::<char>::empty() + ". Run: mcp "@ + name + " auth"@
        =~= name + (" requires authorization"@ + ". Run: mcp "@) + name + " auth"@);
    assert(name + " requires authorization"@ + (" ("@ + header + ")"@) + ". Run: mcp "@ + name
        + " auth"@ =~= name + (" requires authorization"@ + " ("@) + header + (")"@ + ". Run: mcp "@)
        + name + " auth"@);
}

/// The opening of a session and what is to be done for it are seen as they are.
pub proof fn openings_are_seen_as_they_are(c: Connect, challenge: Option<String>, save: bool, e: Error)
    ensures
        c@.name == c.name@ && c@.grant == c.credentials@ && c@.phase == c.stage@,
        Stage::Early@ == Phase::Early && Stage::First@ == Phase::First,
        Stage::Retry(challenge)@ == Phase::Retry(opt_view(challenge)),
        Stage::Second(challenge)@ == Phase::Second(opt_view(challenge)),
        Action::Refresh(c)@ == Deed::Refresh(c@) && Action::Open(c, save)@ == Deed::Open(c@, save),
        Action::Done@ == Deed::Done && Action::Fail(e)@ == Deed::Fail(e@),
{
}

} // verus!
