//! The control interface of the backend: requests over HTTP on this machine, one per connection.
use vstd::prelude::*;

use crate::text;

verus! {

/// How long each step of a request takes at most.
pub const TIMEOUT_MS: u64 = 5_000;

/// An instance of the scheduler, and how it stands.
#[derive(Debug, PartialEq, Eq)]
pub struct InstanceState {
    pub name: String,
    pub state: u8,
}

/// What is asked of the scheduler.
#[derive(Clone, Copy, Debug, PartialEq, Eq, Structural)]
pub enum SchedulerAction {
    Start,
    Stop,
}

/// Why a request did not succeed.
#[derive(Debug, PartialEq, Eq)]
pub enum ApiError {
    /// The interface is locked by a password or a certificate.
    Locked,
    /// Another answer than success.
    Http(u16),
    /// The connection failed.
    Io(String),
    /// The answer could not be understood.
    Protocol(String),
}

/// Why a request did not succeed.
pub enum ApiErrorView {
    Locked,
    Http(u16),
    Io(Seq<char>),
    Protocol(Seq<char>),
}

impl View for ApiError {
    type V = ApiErrorView;

    open spec fn view(&self) -> ApiErrorView {
        match self {
            ApiError::Locked => ApiErrorView::Locked,
            ApiError::Http(code) => ApiErrorView::Http(*code),
            ApiError::Io(m) => ApiErrorView::Io(m@),
            ApiError::Protocol(m) => ApiErrorView::Protocol(m@),
        }
    }
}

/// The message for an error.
pub open spec fn api_error_text(e: ApiErrorView) -> Seq<char> {
    match e {
        ApiErrorView::Locked => "control API locked (password/SSL)"@,
        ApiErrorView::Http(code) => "control API HTTP "@ + text::decimal_of(code as nat),
        ApiErrorView::Io(m) => "control API io: "@ + m,
        ApiErrorView::Protocol(m) => "control API protocol: "@ + m,
    }
}

impl ApiError {
    /// The message for this error.
    pub fn to_string(&self) -> (r: String)
        ensures
            r@ == api_error_text(self@),
    {
        match self {
            ApiError::Locked => String::from_str("control API locked (password/SSL)"),
            ApiError::Http(code) => {
                let n = text::decimal(*code as u64);
                String::from_str("control API HTTP ").concat(n.as_str())
            },
            ApiError::Io(m) => String::from_str("control API io: ").concat(m.as_str()),
            ApiError::Protocol(m) => String::from_str("control API protocol: ").concat(m.as_str()),
        }
    }
}

/// A request, as it is sent.
pub open spec fn request_text(port: u16, method: Seq<char>, path: Seq<char>) -> Seq<char> {
    method + " "@ + path + " HTTP/1.1\r\nHost: 127.0.0.1:"@ + text::decimal_of(port as nat)
        + "\r\nConnection: close\r\n\r\n"@
}

/// A request, as it is sent.
pub fn request(port: u16, method: &str, path: &str) -> (r: String)
    ensures
        r@ == request_text(port, method@, path@),
{
    let p = text::decimal(port as u64);
    let mut r = String::from_str(method);
    r.append(" ");
    r.append(path);
    r.append(" HTTP/1.1\r\nHost: 127.0.0.1:");
    r.append(p.as_str());
    r.append("\r\nConnection: close\r\n\r\n");
    r
}

/// The request for the instances of the scheduler.
pub fn api_instances(port: u16) -> (r: String)
    ensures
        r@ == request_text(port, "GET"@, "/api/alas/instances"@),
{
    request(port, "GET", "/api/alas/instances")
}

/// The request that starts the instance `name` of the scheduler.
pub fn api_scheduler_start(port: u16, name: &str) -> (r: String)
    ensures
        r@ == request_text(port, "POST"@, "/api/alas/"@ + name@ + "/scheduler/start"@),
{
    let mut path = String::from_str("/api/alas/");
    path.append(name);
    path.append("/scheduler/start");
    request(port, "POST", path.as_str())
}

/// The request that stops the instance `name` of the scheduler.
pub fn api_scheduler_stop(port: u16, name: &str) -> (r: String)
    ensures
        r@ == request_text(port, "POST"@, "/api/alas/"@ + name@ + "/scheduler/stop"@),
{
    let mut path = String::from_str("/api/alas/");
    path.append(name);
    path.append("/scheduler/stop");
    request(port, "POST", path.as_str())
}

/// The number that an answer begins with: the second word of its head.
pub open spec fn status_of(head: Seq<char>) -> Option<nat> {
    let words = text::words_of(head);
    if words.len() > 1 {
        text::parsed_up_to(words[1], 0xffff)
    } else {
        None
    }
}

/// What an answer says: its body if it reports success, else why it does not.
pub open spec fn answer(reply: Seq<char>) -> Result<Seq<char>, ApiErrorView> {
    let gap = "\r\n\r\n"@;
    match text::position(reply, gap) {
        None => Err(ApiErrorView::Protocol("no header/body separator"@)),
        Some(p) => match status_of(reply.take(p)) {
            None => Err(ApiErrorView::Protocol("malformed status line"@)),
            Some(code) => if code == 200 {
                Ok(reply.skip(p + gap.len()))
            } else if code == 401 {
                Err(ApiErrorView::Locked)
            } else {
                Err(ApiErrorView::Http(code as u16))
            },
        },
    }
}

/// Reads an answer: its body if it reports success, else why it does not.
pub fn read_answer(reply: &str) -> (r: Result<String, ApiError>)
    ensures
        match r {
            Ok(body) => answer(reply@) == Ok::<Seq<char>, ApiErrorView>(body@),
            Err(e) => answer(reply@) == Err::<Seq<char>, ApiErrorView>(e@),
        },
{
    let gap = "\r\n\r\n";
    let p: usize = match text::find(reply, gap) {
        Some(p) => p,
        None => {
            return Err(ApiError::Protocol(String::from_str("no header/body separator")));
        },
    };
    let head = text::slice(reply, 0, p);
    assert(head@ =~= reply@.take(p as int));
    let words = text::words(head.as_str());
    assert(text::texts(words@).len() == words@.len());
    let code = if words.len() > 1 {
        assert(text::texts(words@)[1] == words@[1]@);
        text::parse_up_to(words[1].as_str(), 0xffff)
    } else {
        None
    };
    match code {
        None => Err(ApiError::Protocol(String::from_str("malformed status line"))),
        Some(c) => {
            if c == 200 {
                let n: usize = reply.unicode_len();
                let body = text::slice(reply, p + gap.unicode_len(), n);
                assert(body@ =~= reply@.skip(p + gap@.len()));
                Ok(body)
            } else if c == 401 {
                Err(ApiError::Locked)
            } else {
                Err(ApiError::Http(c as u16))
            }
        },
    }
}

/// How the first instance with the name `name` stands.
pub open spec fn state_of(list: Seq<InstanceState>, name: Seq<char>) -> Option<u8>
    decreases list.len(),
{
    if list.len() == 0 {
        None
    } else if list[0].name@ == name {
        Some(list[0].state)
    } else {
        state_of(list.skip(1), name)
    }
}

/// How the instance `name` stands.
pub fn instance_state(list: &[InstanceState], name: &str) -> (r: Option<u8>)
    ensures
        r == state_of(list@, name@),
{
    let mut i: usize = 0;
    assert(list@.skip(0) =~= list@);
    while i < list.len()
        invariant
            i <= list@.len(),
            state_of(list@, name@) == state_of(list@.skip(i as int), name@),
        decreases list@.len() - i,
    {
        assert(list@.skip(i as int)[0] == list@[i as int]);
        assert(list@.skip(i as int).skip(1) =~= list@.skip(i + 1));
        if text::same(list[i].name.as_str(), name) {
            return Some(list[i].state);
        }
        i = i + 1;
    }
    None
}

/// An answer is cut at its first empty line. What is before it decides: the second word of it is the
/// number of the answer, of which 200 means success, and the body is what stands behind; 401 means
/// that the interface is locked; every other number is reported.
pub proof fn how_an_answer_is_read(reply: Seq<char>, head: Seq<char>, body: Seq<char>)
    requires
        !text::has_text((head + "\r\n\r\n"@).drop_last(), "\r\n\r\n"@),
    ensures
        reply == head + "\r\n\r\n"@ + body ==> {
            let words = text::words_of(head);
            let code = text::parsed_up_to(words[1], 65535);
            let a = answer(reply);
            &&& words.len() < 2 || code is None ==> a == Err::<Seq<char>, ApiErrorView>(
                ApiErrorView::Protocol("malformed status line"@),
            )
            &&& words.len() >= 2 && code is Some ==> {
                &&& a == Ok::<Seq<char>, ApiErrorView>(body) <==> code->0 == 200
                &&& a is Ok <==> code->0 == 200
                &&& a == Err::<Seq<char>, ApiErrorView>(ApiErrorView::Locked) <==> code->0 == 401
                &&& code->0 != 200 && code->0 != 401 ==> a == Err::<Seq<char>, ApiErrorView>(
                    ApiErrorView::Http(code->0 as u16),
                )
            }
        },
        !text::has_text(reply, "\r\n\r\n"@) ==> answer(reply) == Err::<Seq<char>, ApiErrorView>(
            ApiErrorView::Protocol("no header/body separator"@),
        ),
{
    reveal_strlit("\r\n\r\n");
    let gap = "\r\n\r\n"@;
    text::position_from_is_least(reply, gap, 0);
    if reply == head + gap + body {
        let p = head.len() as int;
        assert(reply.subrange(p, p + gap.len()) =~= gap);
        assert(text::occurs_at(reply, gap, p));
        match text::position(reply, gap) {
            Some(q) => {
                if q < p {
                    let front = (head + gap).drop_last();
                    assert(reply.subrange(q, q + gap.len()) =~= front.subrange(q, q + gap.len()));
                    assert(text::occurs_at(front, gap, q));
                }
                assert(q == p);
            },
            None => {},
        }
        assert(reply.take(p) =~= head);
        assert(reply.skip(p + gap.len()) =~= body);
    }
    if !text::has_text(reply, gap) {
        match text::position(reply, gap) {
            Some(q) => {
                assert(text::occurs_at(reply, gap, q));
            },
            None => {},
        }
    }
}

/// The state of an instance is that of the first entry with its name.
pub proof fn the_first_entry_counts(
    before: Seq<InstanceState>,
    entry: InstanceState,
    after: Seq<InstanceState>,
    name: Seq<char>,
)
    requires
        forall|i: int| 0 <= i < before.len() ==> (#[trigger] before[i]).name@ != name,
    ensures
        state_of(before, name) is None,
        entry.name@ == name ==> state_of(before + seq![entry] + after, name) == Some(entry.state),
    decreases before.len(),
{
    let whole = before + seq![entry] + after;
    if before.len() == 0 {
        assert(whole[0] == entry);
    } else {
        assert(whole[0] == before[0]);
        assert(whole.skip(1) =~= before.skip(1) + seq![entry] + after);
        assert forall|i: int| 0 <= i < before.skip(1).len() implies (#[trigger] before.skip(
            1,
        )[i]).name@ != name by {
            assert(before.skip(1)[i] == before[i + 1]);
        }
        the_first_entry_counts(before.skip(1), entry, after, name);
    }
}

/// A request is a line with what is asked for, one for the host and one that the connection is closed
/// behind the answer; an empty line ends it.
pub proof fn how_a_request_is_written(port: u16, method: Seq<char>, path: Seq<char>)
    ensures
        request_text(port, method, path) == text::joined(
            seq![
                method + " "@ + path + " HTTP/1.1"@,
                "Host: 127.0.0.1:"@ + text::decimal_of(port as nat),
                "Connection: close"@,
                ""@,
                ""@,
            ],
            "\r\n"@,
        ),
{
    reveal_strlit("\r\n");
    reveal_strlit("");
    reveal_strlit(" HTTP/1.1");
    reveal_strlit("Host: 127.0.0.1:");
    reveal_strlit("Connection: close");
    reveal_strlit(" HTTP/1.1\r\nHost: 127.0.0.1:");
    reveal_strlit("\r\nConnection: close\r\n\r\n");
    let a = method + " "@ + path + " HTTP/1.1"@;
    let b = "Host: 127.0.0.1:"@ + text::decimal_of(port as nat);
    let c = "Connection: close"@;
    let all = seq![a, b, c, ""@, ""@];
    assert(all.drop_last() =~= seq![a, b, c, ""@]);
    assert(seq![a, b, c, ""@].drop_last() =~= seq![a, b, c]);
    assert(seq![a, b, c].drop_last() =~= seq![a, b]);
    assert(seq![a, b].drop_last() =~= seq![a]);
    reveal_with_fuel(text::joined, 6);
    assert(request_text(port, method, path) =~= text::joined(all, "\r\n"@));
}

/// The message of an error tells its kind and gives what is known of it.
pub proof fn what_an_error_says(code: u16, reason: Seq<char>)
    ensures
        api_error_text(ApiErrorView::Locked) == "control API locked (password/SSL)"@,
        api_error_text(ApiErrorView::Http(code)) == "control API HTTP "@ + text::decimal_of(
            code as nat,
        ),
        api_error_text(ApiErrorView::Io(reason)) == "control API io: "@ + reason,
        api_error_text(ApiErrorView::Protocol(reason)) == "control API protocol: "@ + reason,
{
}

} // verus!
