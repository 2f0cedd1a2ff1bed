use vstd::prelude::*;

verus! {

use crate::error::AuthenticationError;
use crate::error::Error;
use crate::error::ErrorV;
use crate::json::Fields;
use crate::json::Scalar;
use crate::json::ScalarV;
use crate::json::fields_view;
use crate::json::lookup;
use crate::json::chars_eq;
use crate::json::p_object;
use crate::json::p_str_body;
use crate::json::p_ws;
use crate::json::sp_lookup;
use crate::json::sp_object;
use crate::json::sp_str_body;
use crate::json::sp_ws;
use crate::text::chars_of;
use crate::text::string_from_chars;
use vstd::string::StringExecFns;

/// The mathematical value of an [`Authenticator`].
#[verifier::ext_equal]
pub struct AuthenticatorV {
    pub username: Seq<char>,
    pub clientkey: Seq<char>,
}

/// Represents an authenticated device/app interacting with the bridge.
/// The bridge physically authenticates devices using a button press.
///
/// The two tokens are secrets: they are only ever built from a successful
/// bridge response, and this type deliberately has no `Debug` form, so that
/// they cannot leak through diagnostic formatting.
#[derive(Clone)]
pub struct Authenticator {
    username: String,
    clientkey: String,
}

impl View for Authenticator {
    type V = AuthenticatorV;

    closed spec fn view(&self) -> AuthenticatorV {
        AuthenticatorV { username: self.username@, clientkey: self.clientkey@ }
    }
}

impl Authenticator {
    /// The `username` used to authenticate with the [`crate::Bridge`].
    pub fn username(&self) -> (r: &String)
        ensures
            r@ == self@.username,
    {
        &self.username
    }

    /// The `clientkey` used to authenticate with the [`crate::Bridge`].
    pub fn clientkey(&self) -> (r: &String)
        ensures
            r@ == self@.clientkey,
    {
        &self.clientkey
    }
}

/// One parsed reply of the bridge to an authentication request.
pub enum Response {
    /// The link button was pressed and the bridge granted these tokens.
    Success { username: String, clientkey: String },
    /// The bridge answered with a numeric error code.
    Error { code: u16 },
}

/// The mathematical value of a [`Response`].
pub enum ResponseV {
    Success { username: Seq<char>, clientkey: Seq<char> },
    Error { code: u16 },
}

impl View for Response {
    type V = ResponseV;

    open spec fn view(&self) -> ResponseV {
        match self {
            Response::Success { username, clientkey } => ResponseV::Success {
                username: username@,
                clientkey: clientkey@,
            },
            Response::Error { code } => ResponseV::Error { code: *code },
        }
    }
}

/// What the poll loop observed in one round: the bridge replied with a body,
/// the HTTP call itself failed, or the caller's deadline elapsed.
pub enum AuthEvent {
    /// The bridge answered; the string is the raw response body.
    Reply(String),
    /// The HTTP call failed; the string describes the failure.
    TransportFailed(String),
    /// The deadline timer won the race.
    DeadlineElapsed,
}

/// The mathematical value of an [`AuthEvent`].
pub enum AuthEventV {
    Reply(Seq<char>),
    TransportFailed(Seq<char>),
    DeadlineElapsed,
}

impl View for AuthEvent {
    type V = AuthEventV;

    open spec fn view(&self) -> AuthEventV {
        match self {
            AuthEvent::Reply(b) => AuthEventV::Reply(b@),
            AuthEvent::TransportFailed(m) => AuthEventV::TransportFailed(m@),
            AuthEvent::DeadlineElapsed => AuthEventV::DeadlineElapsed,
        }
    }
}

/// The interpretation of one parsed wrapper object of a bridge reply: the
/// wrapper key decides between the success and the error record.
pub open spec fn sp_interp(key: Seq<char>, fields: Seq<(Seq<char>, ScalarV)>) -> Option<ResponseV> {
    if key == "success"@ {
        match (sp_lookup(fields, "username"@), sp_lookup(fields, "clientkey"@)) {
            (Some(ScalarV::Text(u)), Some(ScalarV::Text(k))) => Some(
                ResponseV::Success { username: u, clientkey: k },
            ),
            _ => None,
        }
    } else if key == "error"@ {
        match sp_lookup(fields, "type"@) {
            Some(ScalarV::UInt(n)) => if n <= u16::MAX {
                Some(ResponseV::Error { code: n as u16 })
            } else {
                None
            },
            _ => None,
        }
    } else {
        None
    }
}

/// The reply of the bridge to an authentication request, as a whole body:
/// a single-element array wrapping one `{"success": ...}` or `{"error": ...}`
/// object. This wrapping is the bridge's actual wire shape and is preserved
/// exactly; anything else is malformed.
pub open spec fn sp_response(s: Seq<char>) -> Option<ResponseV> {
    let i0 = sp_ws(s, 0);
    if i0 < s.len() && s[i0] == '[' {
        let i1 = sp_ws(s, i0 + 1);
        if i1 < s.len() && s[i1] == '{' {
            let i2 = sp_ws(s, i1 + 1);
            if i2 < s.len() && s[i2] == '"' {
                match sp_str_body(s, i2 + 1) {
                    Some((key, j1)) => {
                        let j2 = sp_ws(s, j1);
                        if j2 < s.len() && s[j2] == ':' {
                            let j3 = sp_ws(s, j2 + 1);
                            match sp_object(s, j3) {
                                Some((fields, j4)) => {
                                    let j5 = sp_ws(s, j4);
                                    if j5 < s.len() && s[j5] == '}' {
                                        let j6 = sp_ws(s, j5 + 1);
                                        if j6 < s.len() && s[j6] == ']' {
                                            if sp_ws(s, j6 + 1) == s.len() {
                                                sp_interp(key, fields)
                                            } else {
                                                None
                                            }
                                        } else {
                                            None
                                        }
                                    } else {
                                        None
                                    }
                                },
                                None => None,
                            }
                        } else {
                            None
                        }
                    },
                    None => None,
                }
            } else {
                None
            }
        } else {
            None
        }
    } else {
        None
    }
}

fn interp(key: &Vec<char>, fields: &Fields) -> (r: Option<Response>)
    ensures
        match r {
            Some(resp) => sp_interp(key@, fields_view(*fields)) == Some(resp@),
            None => sp_interp(key@, fields_view(*fields)) is None,
        },
{
    if chars_eq(key, &chars_of("success")) {
        let u = lookup(fields, &chars_of("username"));
        let k = lookup(fields, &chars_of("clientkey"));
        match (u, k) {
            (Some(Scalar::Text(ut)), Some(Scalar::Text(kt))) => {
                let resp = Response::Success {
                    username: string_from_chars(&ut),
                    clientkey: string_from_chars(&kt),
                };
                proof {
                    assert(sp_interp(key@, fields_view(*fields)) == Some(resp@));
                }
                Some(resp)
            },
            _ => None,
        }
    } else if chars_eq(key, &chars_of("error")) {
        match lookup(fields, &chars_of("type")) {
            Some(Scalar::UInt(n)) => if n <= u16::MAX as u64 {
                Some(Response::Error { code: n as u16 })
            } else {
                None
            },
            _ => None,
        }
    } else {
        None
    }
}

fn p_response(s: &Vec<char>) -> (r: Option<Response>)
    ensures
        match r {
            Some(resp) => sp_response(s@) == Some(resp@),
            None => sp_response(s@) is None,
        },
{
    let i0 = p_ws(s, 0);
    if i0 < s.len() && s[i0] == '[' {
        let i1 = p_ws(s, i0 + 1);
        if i1 < s.len() && s[i1] == '{' {
            let i2 = p_ws(s, i1 + 1);
            if i2 < s.len() && s[i2] == '"' {
                match p_str_body(s, i2 + 1) {
                    Some((key, j1)) => {
                        let j2 = p_ws(s, j1);
                        if j2 < s.len() && s[j2] == ':' {
                            let j3 = p_ws(s, j2 + 1);
                            match p_object(s, j3) {
                                Some((fields, j4)) => {
                                    let j5 = p_ws(s, j4);
                                    if j5 < s.len() && s[j5] == '}' {
                                        let j6 = p_ws(s, j5 + 1);
                                        if j6 < s.len() && s[j6] == ']' {
                                            if p_ws(s, j6 + 1) == s.len() {
                                                interp(&key, &fields)
                                            } else {
                                                None
                                            }
                                        } else {
                                            None
                                        }
                                    } else {
                                        None
                                    }
                                },
                                None => None,
                            }
                        } else {
                            None
                        }
                    },
                    None => None,
                }
            } else {
                None
            }
        } else {
            None
        }
    } else {
        None
    }
}

/// Parses one response body of the bridge's authentication endpoint.
///
/// A body is a single-element array wrapping either a success record
/// `{"username": ..., "clientkey": ...}` or an error record carrying a numeric
/// `type` code; anything else yields `None`.
pub fn parse_response(body: &str) -> (r: Option<Response>)
    ensures
        match r {
            Some(resp) => sp_response(body@) == Some(resp@),
            None => sp_response(body@) is None,
        },
{
    let s = chars_of(body);
    p_response(&s)
}

/// What the poll loop does after one event: ask again after the poll interval,
/// or finish with the given result.
pub enum AuthStep {
    /// Error code 101, "link button not pressed": wait one poll interval, then
    /// send the next request.
    Retry,
    /// Any other event ends the whole operation with this result.
    Done(Result<Authenticator, Error>),
}

/// The mathematical value of an [`AuthStep`].
#[verifier::ext_equal]
pub enum StepV {
    Retry,
    Done(Result<AuthenticatorV, ErrorV>),
}

/// The mathematical value of a `Result<Authenticator, Error>`.
pub open spec fn result_view(r: Result<Authenticator, Error>) -> Result<AuthenticatorV, ErrorV> {
    match r {
        Ok(a) => Ok(a@),
        Err(e) => Err(e@),
    }
}

impl View for AuthStep {
    type V = StepV;

    open spec fn view(&self) -> StepV {
        match self {
            AuthStep::Retry => StepV::Retry,
            AuthStep::Done(r) => StepV::Done(result_view(*r)),
        }
    }
}

/// The note carried by the transport error for a body that the response
/// grammar refuses.
pub open spec fn malformed_note() -> Seq<char> {
    "malformed bridge response"@
}

/// The decision the authentication protocol takes on one event: success
/// returns the credentials, code 101 polls again, any other code is terminal,
/// a transport failure is terminal, and an elapsed deadline times the whole
/// operation out.
pub open spec fn step_spec(e: AuthEventV) -> StepV {
    match e {
        AuthEventV::Reply(body) => match sp_response(body) {
            Some(ResponseV::Success { username, clientkey }) => StepV::Done(
                Ok(AuthenticatorV { username, clientkey }),
            ),
            Some(ResponseV::Error { code }) => if code == 101 {
                StepV::Retry
            } else {
                StepV::Done(Err(ErrorV::Authentication(AuthenticationError::Other(code))))
            },
            None => StepV::Done(Err(ErrorV::Http(malformed_note()))),
        },
        AuthEventV::TransportFailed(m) => StepV::Done(Err(ErrorV::Http(m))),
        AuthEventV::DeadlineElapsed => StepV::Done(
            Err(ErrorV::Authentication(AuthenticationError::TimedOut)),
        ),
    }
}

/// How many POSTs the attempt behind one event took: an elapsed deadline
/// interrupts a wait, every other event answers one POST.
pub open spec fn sp_posts_of(e: AuthEventV) -> nat {
    match e {
        AuthEventV::DeadlineElapsed => 0,
        _ => 1,
    }
}

/// The outcome of a whole poll run over the events it observed, together with
/// the number of POSTs sent and the number of poll-interval waits, or `None`
/// when the events end before any terminal step.
pub open spec fn run_spec(events: Seq<AuthEventV>) -> Option<
    (Result<AuthenticatorV, ErrorV>, nat, nat),
>
    decreases events.len(),
{
    if events.len() == 0 {
        None
    } else {
        match step_spec(events[0]) {
            StepV::Done(res) => Some((res, sp_posts_of(events[0]), 0)),
            StepV::Retry => match run_spec(events.drop_first()) {
                Some((res, p, w)) => Some((res, p + 1, w + 1)),
                None => None,
            },
        }
    }
}

impl Authenticator {
    /// Decides what the poll loop does after one observed event.
    pub fn step(event: &AuthEvent) -> (r: AuthStep)
        ensures
            r@ == step_spec(event@),
    {
        match event {
            AuthEvent::Reply(body) => match parse_response(body.as_str()) {
                Some(Response::Success { username, clientkey }) => {
                    let r = AuthStep::Done(Ok(Authenticator { username, clientkey }));
                    proof {
                        assert(r@ =~= step_spec(event@));
                    }
                    r
                },
                Some(Response::Error { code }) => {
                    if code == 101 {
                        AuthStep::Retry
                    } else {
                        AuthStep::Done(
                            Err(Error::Authentication(AuthenticationError::Other(code))),
                        )
                    }
                },
                None => {
                    let r = AuthStep::Done(
                        Err(Error::Http(String::from_str("malformed bridge response"))),
                    );
                    proof {
                        assert(r@ =~= step_spec(event@));
                    }
                    r
                },
            },
            AuthEvent::TransportFailed(m) => AuthStep::Done(Err(Error::Http(m.clone()))),
            AuthEvent::DeadlineElapsed => AuthStep::Done(
                Err(Error::Authentication(AuthenticationError::TimedOut)),
            ),
        }
    }

    /// Replays the poll loop over the events of one run, in order, and returns
    /// the result together with how many POSTs it sent and how many
    /// poll-interval waits it made; `None` when the events end before a
    /// terminal step.
    pub fn request(events: &Vec<AuthEvent>) -> (r: Option<
        (Result<Authenticator, Error>, usize, usize),
    >)
        ensures
            match r {
                Some((res, p, w)) => run_spec(events@.map_values(|e: AuthEvent| e@)) == Some(
                    (result_view(res), p as nat, w as nat),
                ),
                None => run_spec(events@.map_values(|e: AuthEvent| e@)) is None,
            },
    {
        proof {
            assert(events@.map_values(|e: AuthEvent| e@).skip(0) =~= events@.map_values(
                |e: AuthEvent| e@,
            ));
        }
        Self::run_from(events, 0)
    }

    fn run_from(events: &Vec<AuthEvent>, k: usize) -> (r: Option<
        (Result<Authenticator, Error>, usize, usize),
    >)
        requires
            k <= events@.len(),
        ensures
            match r {
                Some((res, p, w)) => run_spec(events@.map_values(|e: AuthEvent| e@).skip(k as int))
                    == Some((result_view(res), p as nat, w as nat)) && p <= events@.len() - k && w
                    < events@.len() - k,
                None => run_spec(events@.map_values(|e: AuthEvent| e@).skip(k as int)) is None,
            },
        decreases events@.len() - k,
    {
        let ghost evs = events@.map_values(|e: AuthEvent| e@);
        if k == events.len() {
            proof {
                assert(evs.skip(k as int) =~= Seq::<AuthEventV>::empty());
            }
            None
        } else {
            proof {
                assert(evs.skip(k as int)[0] == evs[k as int]);
            }
            match Self::step(&events[k]) {
                AuthStep::Done(res) => {
                    let posts: usize = match &events[k] {
                        AuthEvent::DeadlineElapsed => 0,
                        _ => 1,
                    };
                    Some((res, posts, 0))
                },
                AuthStep::Retry => {
                    proof {
                        assert(evs.skip(k as int).drop_first() =~= evs.skip(k + 1 as int));
                    }
                    match Self::run_from(events, k + 1) {
                        Some((res, p, w)) => Some((res, p + 1, w + 1)),
                        None => None,
                    }
                },
            }
        }
    }
}

/// Whether an event is the expected pending reply: the bridge answered with
/// error code 101, "link button not pressed".
pub open spec fn is_pending_reply(e: AuthEventV) -> bool {
    e matches AuthEventV::Reply(b) && sp_response(b) == Some(
        ResponseV::Error { code: 101 as u16 },
    )
}

/// If the bridge keeps answering "link button not pressed" on every attempt
/// until the deadline elapses, the run returns the timed-out error: the poll
/// loop itself never gives up.
pub proof fn lemma_timeout_when_button_never_pressed(events: Seq<AuthEventV>)
    requires
        events.len() >= 1,
        forall|i: int| 0 <= i < events.len() - 1 ==> is_pending_reply(#[trigger] events[i]),
        events.last() == AuthEventV::DeadlineElapsed,
    ensures
        run_spec(events) == Some(
            (
                Err::<AuthenticatorV, ErrorV>(ErrorV::Authentication(AuthenticationError::TimedOut)),
                (events.len() - 1) as nat,
                (events.len() - 1) as nat,
            ),
        ),
    decreases events.len(),
{
    if events.len() == 1 {
        assert(events[0] == AuthEventV::DeadlineElapsed);
    } else {
        assert(is_pending_reply(events[0]));
        let rest = events.drop_first();
        assert(rest.last() == events.last());
        assert(forall|i: int| 0 <= i < rest.len() - 1 ==> rest[i] == events[i + 1]
            && is_pending_reply(#[trigger] rest[i]));
        lemma_timeout_when_button_never_pressed(rest);
    }
}

/// If the bridge answers "link button not pressed" on every attempt before the
/// last and grants credentials on the last, the run returns exactly those
/// credentials, with one POST per attempt and one poll-interval wait between
/// consecutive attempts: none before the first and none after the last.
pub proof fn lemma_success_returns_exact_credentials(
    events: Seq<AuthEventV>,
    u: Seq<char>,
    k: Seq<char>,
)
    requires
        events.len() >= 1,
        forall|i: int| 0 <= i < events.len() - 1 ==> is_pending_reply(#[trigger] events[i]),
        events.last() matches AuthEventV::Reply(b) && sp_response(b) == Some(
            ResponseV::Success { username: u, clientkey: k },
        ),
    ensures
        run_spec(events) == Some(
            (
                Ok::<AuthenticatorV, ErrorV>(AuthenticatorV { username: u, clientkey: k }),
                events.len(),
                (events.len() - 1) as nat,
            ),
        ),
    decreases events.len(),
{
    if events.len() == 1 {
        assert(events[0] == events.last());
    } else {
        assert(is_pending_reply(events[0]));
        let rest = events.drop_first();
        assert(rest.last() == events.last());
        assert(forall|i: int| 0 <= i < rest.len() - 1 ==> rest[i] == events[i + 1]
            && is_pending_reply(#[trigger] rest[i]));
        lemma_success_returns_exact_credentials(rest, u, k);
    }
}

/// If the bridge answers a terminal error code (anything but 101) on the first
/// attempt, the run fails with exactly that code at once: one POST, no retry
/// and no wait, whatever would have come later.
pub proof fn lemma_terminal_error_is_immediate(events: Seq<AuthEventV>, c: u16)
    requires
        events.len() >= 1,
        c != 101,
        events[0] matches AuthEventV::Reply(b) && sp_response(b) == Some(
            ResponseV::Error { code: c },
        ),
    ensures
        run_spec(events) == Some(
            (
                Err::<AuthenticatorV, ErrorV>(ErrorV::Authentication(AuthenticationError::Other(c))),
                1nat,
                0nat,
            ),
        ),
{
}

/// The characters that stand for `c` inside a JSON string literal.
pub open spec fn esc_char(c: char) -> Seq<char> {
    if c == '"' {
        seq!['\\', '"']
    } else if c == '\\' {
        seq!['\\', '\\']
    } else if c == '\n' {
        seq!['\\', 'n']
    } else if c == '\r' {
        seq!['\\', 'r']
    } else if c == '\t' {
        seq!['\\', 't']
    } else if c == '\u{8}' {
        seq!['\\', 'b']
    } else if c == '\u{c}' {
        seq!['\\', 'f']
    } else if (c as u32) < 32 {
        seq!['\\', 'u', '0', '0', hex_char((c as u32) / 16), hex_char((c as u32) % 16)]
    } else {
        seq![c]
    }
}

/// The lower-case hexadecimal digit for `n < 16`.
pub open spec fn hex_char(n: u32) -> char {
    if n == 0 {
        '0'
    } else if n == 1 {
        '1'
    } else if n == 2 {
        '2'
    } else if n == 3 {
        '3'
    } else if n == 4 {
        '4'
    } else if n == 5 {
        '5'
    } else if n == 6 {
        '6'
    } else if n == 7 {
        '7'
    } else if n == 8 {
        '8'
    } else if n == 9 {
        '9'
    } else if n == 10 {
        'a'
    } else if n == 11 {
        'b'
    } else if n == 12 {
        'c'
    } else if n == 13 {
        'd'
    } else if n == 14 {
        'e'
    } else {
        'f'
    }
}

/// The JSON escaping of a whole text.
pub open spec fn json_escaped(s: Seq<char>) -> Seq<char>
    decreases s.len(),
{
    if s.len() == 0 {
        Seq::empty()
    } else {
        esc_char(s[0]) + json_escaped(s.drop_first())
    }
}

proof fn lemma_escaped_snoc(s: Seq<char>, c: char)
    ensures
        json_escaped(s.push(c)) == json_escaped(s) + esc_char(c),
    decreases s.len(),
{
    if s.len() == 0 {
        assert(s.push(c)[0] == c);
        assert(s.push(c).drop_first() =~= Seq::<char>::empty());
        assert(json_escaped(s.push(c)) == esc_char(c) + json_escaped(Seq::<char>::empty()));
        assert(json_escaped(s.push(c)) =~= json_escaped(s) + esc_char(c));
    } else {
        assert(s.push(c)[0] == s[0]);
        assert(s.push(c).drop_first() =~= s.drop_first().push(c));
        lemma_escaped_snoc(s.drop_first(), c);
        assert(json_escaped(s.push(c)) == esc_char(s[0]) + json_escaped(s.drop_first().push(c)));
        assert(json_escaped(s.push(c)) =~= json_escaped(s) + esc_char(c));
    }
}

fn hex_digit(n: u32) -> (c: char)
    requires
        n < 16,
    ensures
        c == hex_char(n),
{
    if n == 0 {
        '0'
    } else if n == 1 {
        '1'
    } else if n == 2 {
        '2'
    } else if n == 3 {
        '3'
    } else if n == 4 {
        '4'
    } else if n == 5 {
        '5'
    } else if n == 6 {
        '6'
    } else if n == 7 {
        '7'
    } else if n == 8 {
        '8'
    } else if n == 9 {
        '9'
    } else if n == 10 {
        'a'
    } else if n == 11 {
        'b'
    } else if n == 12 {
        'c'
    } else if n == 13 {
        'd'
    } else if n == 14 {
        'e'
    } else {
        'f'
    }
}

fn push_escaped(out: &mut Vec<char>, c: char)
    ensures
        final(out)@ == old(out)@ + esc_char(c),
{
    if c == '"' {
        out.push('\\');
        out.push('"');
    } else if c == '\\' {
        out.push('\\');
        out.push('\\');
    } else if c == '\n' {
        out.push('\\');
        out.push('n');
    } else if c == '\r' {
        out.push('\\');
        out.push('r');
    } else if c == '\t' {
        out.push('\\');
        out.push('t');
    } else if c == '\u{8}' {
        out.push('\\');
        out.push('b');
    } else if c == '\u{c}' {
        out.push('\\');
        out.push('f');
    } else if (c as u32) < 32 {
        out.push('\\');
        out.push('u');
        out.push('0');
        out.push('0');
        out.push(hex_digit((c as u32) / 16));
        out.push(hex_digit((c as u32) % 16));
    } else {
        out.push(c);
    }
    proof {
        assert(out@ =~= old(out)@ + esc_char(c));
    }
}

fn escape_text(v: &Vec<char>) -> (r: Vec<char>)
    ensures
        r@ == json_escaped(v@),
{
    let mut out: Vec<char> = Vec::new();
    let mut i: usize = 0;
    proof {
        assert(v@.subrange(0, 0) =~= Seq::<char>::empty());
    }
    while i < v.len()
        invariant
            i <= v@.len(),
            out@ == json_escaped(v@.subrange(0, i as int)),
        decreases v@.len() - i,
    {
        proof {
            assert(v@.subrange(0, i + 1 as int) =~= v@.subrange(0, i as int).push(v@[i as int]));
            lemma_escaped_snoc(v@.subrange(0, i as int), v@[i as int]);
        }
        push_escaped(&mut out, v[i]);
        i = i + 1;
    }
    proof {
        assert(v@.subrange(0, v@.len() as int) =~= v@);
    }
    out
}

/// The JSON payload that one authentication attempt POSTs to the bridge.
pub open spec fn payload_spec(device_type: Seq<char>) -> Seq<char> {
    "{\"devicetype\":\""@ + json_escaped(device_type) + "\",\"generateclientkey\":true}"@
}

/// Builds the JSON payload `{"devicetype": ..., "generateclientkey": true}`
/// that every authentication attempt POSTs to the bridge.
pub fn auth_payload(device_type: &str) -> (r: String)
    ensures
        r@ == payload_spec(device_type@),
{
    let chars = chars_of(device_type);
    let escaped = escape_text(&chars);
    let escaped_str = string_from_chars(&escaped);
    let mut out = String::from_str("{\"devicetype\":\"");
    out.append(escaped_str.as_str());
    out.append("\",\"generateclientkey\":true}");
    out
}

/// The URL that authentication attempts POST to. The legacy `/api` endpoint,
/// not the versioned REST base, is used because button-press authentication
/// has no equivalent in the newer API surface.
pub open spec fn auth_url_spec(host: Seq<char>) -> Seq<char> {
    "https://"@ + host + "/api"@
}

/// Builds `https://{host}/api`, the authentication endpoint of the bridge.
pub fn auth_url(host: &str) -> (r: String)
    ensures
        r@ == auth_url_spec(host@),
{
    let mut out = String::from_str("https://");
    out.append(host);
    out.append("/api");
    out
}

} // verus!
