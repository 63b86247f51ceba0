//! The connection handler: one connection from the bytes that came in to the
//! response that goes out. Between its steps the caller does what needs the
//! outside world: it reads the bytes, decodes the body, loads and saves the
//! store, and sends the response.
//!
//! A connection is accepted, then reads a request, then handles it, then
//! writes the response, and is closed. A request that cannot be framed
//! closes the connection at once, and a closed connection writes nothing.

use crate::clock::{text_of, utc_now, Timestamp};
use crate::cookies::{
    cookie_line, cookies_of, expiration_after, expiry_text, parse_cookies, set_cookie,
    slice_text_of, unexpired, unexpired_cookies,
};
use crate::request::{parse, parse_request, Fault, Request, RequestError, RequestModel};
use crate::response::{response_text, texts, write_response};
use crate::router::{dispatch, handled, wanted, wanted_by, Payload, Reply, Wanted};
use crate::store::EntryStore;
use crate::text_map::TextMap;
use vstd::prelude::*;
use vstd::string::*;

verus! {

/// Where a connection stands.
#[derive(Clone, Copy, Debug, PartialEq, Eq, Structural)]
pub enum Stage {
    /// Nothing was read yet.
    Accepted,
    /// A request was framed and waits for its handler.
    Routing,
    /// The handler has answered and the response waits to be written.
    Writing,
    /// Nothing more happens.
    Closed,
}

enum State {
    Accepted,
    Routing(Request),
    Writing(&'static str, Vec<String>),
    Closed,
}

/// One connection.
pub struct Connection {
    state: State,
}

/// What a `Connection` stands for in contracts: its stage, with the request
/// while it waits for its handler, and with the status line and the
/// `Set-Cookie` values while the response waits to be written.
pub enum ConnectionModel {
    Accepted,
    Routing(RequestModel),
    Writing(Seq<char>, Seq<Seq<char>>),
    Closed,
}

/// Why a connection did not take a step.
#[derive(Debug)]
pub enum Refusal {
    /// The request could not be framed.
    Fault(RequestError),
    /// The step is not the one that the connection waits for.
    OutOfTurn,
}

/// What a handler has come to.
pub struct Handling {
    /// The reply of the handler.
    pub reply: Reply,
    /// The cookies of the request that have not expired.
    pub cookies: TextMap,
}

/// The `Set-Cookie` values that every response carries, for a response
/// made in the second `now_secs`.
pub open spec fn session_cookies(now_secs: i64) -> Seq<Seq<char>> {
    seq![
        cookie_line("old_cookie"@, "won't_be_set"@, expiry_text(now_secs, 0)),
        cookie_line("new_cookie"@, "will_be_set_but_won't_last_long"@, expiry_text(now_secs, 30)),
    ]
}

/// The text of a date that may be absent.
fn date_of(date: &Option<String>) -> (text: Option<&str>)
    ensures
        slice_text_of(text) == text_of(*date),
{
    match date {
        Some(text) => Some(text.as_str()),
        None => None,
    }
}

/// The `Set-Cookie` values that every response carries.
pub fn session_cookies_at(now: Timestamp) -> (cookies: Vec<String>)
    ensures
        texts(cookies@) == session_cookies(now.secs),
{
    let mut cookies: Vec<String> = Vec::new();
    let old_date = expiration_after(now, 0);
    let new_date = expiration_after(now, 30);
    set_cookie(&mut cookies, "old_cookie", "won't_be_set", date_of(&old_date));
    set_cookie(&mut cookies, "new_cookie", "will_be_set_but_won't_last_long", date_of(&new_date));
    assert(texts(cookies@) =~= session_cookies(now.secs));
    cookies
}

impl View for Connection {
    type V = ConnectionModel;

    closed spec fn view(&self) -> ConnectionModel {
        match self.state {
            State::Accepted => ConnectionModel::Accepted,
            State::Routing(request) => ConnectionModel::Routing(request@),
            State::Writing(status_line, cookies) => ConnectionModel::Writing(
                status_line@,
                texts(cookies@),
            ),
            State::Closed => ConnectionModel::Closed,
        }
    }
}

impl Connection {
    /// Whether the connection is well formed: a request that it holds has
    /// well-formed headers.
    pub closed spec fn wf(&self) -> bool {
        match self.state {
            State::Routing(request) => request.headers.wf(),
            _ => true,
        }
    }

    /// A connection that was just accepted.
    pub fn accept() -> (connection: Connection)
        ensures
            connection.wf(),
            connection@ == ConnectionModel::Accepted,
    {
        Connection { state: State::Accepted }
    }

    /// Where the connection stands.
    pub fn stage(&self) -> (stage: Stage)
        ensures
            stage == match self@ {
                ConnectionModel::Accepted => Stage::Accepted,
                ConnectionModel::Routing(_) => Stage::Routing,
                ConnectionModel::Writing(_, _) => Stage::Writing,
                ConnectionModel::Closed => Stage::Closed,
            },
    {
        match &self.state {
            State::Accepted => Stage::Accepted,
            State::Routing(_) => Stage::Routing,
            State::Writing(_, _) => Stage::Writing,
            State::Closed => Stage::Closed,
        }
    }

    /// The request that waits for its handler.
    pub fn request(&self) -> (request: Option<&Request>)
        requires
            self.wf(),
        ensures
            match request {
                Some(held) => self@ == ConnectionModel::Routing(held@) && held.headers.wf(),
                None => !(self@ is Routing),
            },
    {
        match &self.state {
            State::Routing(request) => Some(request),
            _ => None,
        }
    }

    /// Frames the request that `input` holds. On success the connection
    /// waits for the handler, and the result says what the handler needs.
    /// A request that cannot be framed closes the connection.
    pub fn read(&mut self, input: &[u8]) -> (step: Result<Wanted, Refusal>)
        requires
            old(self).wf(),
        ensures
            final(self).wf(),
            match step {
                Ok(need) => old(self)@ is Accepted && parse(input@) is Ok && final(self)@
                    == ConnectionModel::Routing(parse(input@)->Ok_0) && need == wanted_by(
                    parse(input@)->Ok_0.method,
                    parse(input@)->Ok_0.uri,
                ),
                Err(Refusal::Fault(error)) => old(self)@ is Accepted && parse(input@) == Err::<
                    RequestModel,
                    Fault,
                >(error@) && final(self)@ is Closed,
                Err(Refusal::OutOfTurn) => !(old(self)@ is Accepted) && final(self)@ is Closed,
            },
    {
        let mut state = State::Closed;
        std::mem::swap(&mut self.state, &mut state);
        match state {
            State::Accepted => match parse_request(input) {
                Ok(request) => {
                    let need = wanted(request.method.as_str(), request.uri.as_str());
                    self.state = State::Routing(request);
                    Ok(need)
                },
                Err(error) => Err(Refusal::Fault(error)),
            },
            _ => Err(Refusal::OutOfTurn),
        }
    }

    /// Hands the request to its handler, at the time `now`. On success the
    /// response waits to be written. A connection that does not wait for
    /// the handler is closed, and the store stays as it is.
    pub fn handle_at(&mut self, payload: Payload, store: &mut EntryStore, now: Timestamp) -> (done:
        Option<Handling>)
        requires
            old(self).wf(),
        ensures
            final(self).wf(),
            match done {
                Some(handling) => old(self)@ matches ConnectionModel::Routing(request)
                    && handling.reply@ == handled(
                    request.method,
                    request.uri,
                    payload@,
                    old(store)@,
                ).reply && final(store)@ == handled(
                    request.method,
                    request.uri,
                    payload@,
                    old(store)@,
                ).records && handling.cookies.wf() && handling.cookies@ == unexpired(
                    cookies_of(request.headers),
                    now,
                ) && final(self)@ == ConnectionModel::Writing(
                    handling.reply@.status_line,
                    session_cookies(now.secs),
                ),
                None => !(old(self)@ is Routing) && final(self)@ is Closed && final(store)@ == old(
                    store,
                )@,
            },
    {
        let mut state = State::Closed;
        std::mem::swap(&mut self.state, &mut state);
        match state {
            State::Routing(request) => {
                let cookies = unexpired_cookies(&parse_cookies(&request.headers), now);
                let set_cookies = session_cookies_at(now);
                let reply = dispatch(request.method.as_str(), request.uri.as_str(), payload, store);
                self.state = State::Writing(reply.status_line, set_cookies);
                Some(Handling { reply, cookies })
            },
            _ => None,
        }
    }

    /// Hands the request to its handler, at the current time, which is
    /// some time that is not before 1970.
    pub fn handle(&mut self, payload: Payload, store: &mut EntryStore) -> (done: Option<Handling>)
        requires
            old(self).wf(),
        ensures
            final(self).wf(),
            match done {
                Some(handling) => old(self)@ matches ConnectionModel::Routing(request)
                    && handling.reply@ == handled(
                    request.method,
                    request.uri,
                    payload@,
                    old(store)@,
                ).reply && final(store)@ == handled(
                    request.method,
                    request.uri,
                    payload@,
                    old(store)@,
                ).records && handling.cookies.wf() && exists|now: Timestamp|
                    now.secs >= 0 && handling.cookies@ == #[trigger] unexpired(
                        cookies_of(request.headers),
                        now,
                    ) && final(self)@ == ConnectionModel::Writing(
                        handling.reply@.status_line,
                        session_cookies(now.secs),
                    ),
                None => !(old(self)@ is Routing) && final(self)@ is Closed && final(store)@ == old(
                    store,
                )@,
            },
    {
        let now = utc_now();
        let done = self.handle_at(payload, store, now);
        proof {
            if done is Some {
                let request = old(self)@->Routing_0;
                assert(done->0.cookies@ == unexpired(cookies_of(request.headers), now));
            }
        }
        done
    }

    /// Writes the response with the body `body` out and closes the
    /// connection. A connection whose response does not wait to be written
    /// gives no response.
    pub fn write(&mut self, body: &str) -> (response: Option<String>)
        requires
            old(self).wf(),
        ensures
            final(self).wf(),
            final(self)@ is Closed,
            match response {
                Some(text) => old(self)@ matches ConnectionModel::Writing(status_line, cookies)
                    && text@ == response_text(status_line, body@, cookies),
                None => !(old(self)@ is Writing),
            },
    {
        let mut state = State::Closed;
        std::mem::swap(&mut self.state, &mut state);
        match state {
            State::Writing(status_line, cookies) => Some(
                write_response(status_line, body, &cookies),
            ),
            _ => None,
        }
    }
}

} // verus!
