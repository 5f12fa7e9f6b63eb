//! The decisions of the two tools of the agent that asks a recommendation
//! backend: after each thing the backend does (fails to answer, answers with a
//! status, sends a body), whether to read on or what to reply.

use vstd::prelude::*;
use vstd::string::StringExecFns;

use crate::replies::{found_header, no_match_text, tags_text};
use crate::sessions::{first_with_id, requested_max, Session, SessionCatalog, DEFAULT_MAX_RESULTS};
use crate::text::{
    decimal, ends_with, joined, push_decimal, push_joined, push_part, push_text, string_views,
};

verus! {

/// How a request to the backend failed before any answer came.
#[derive(Debug, Clone, Copy, PartialEq, Eq, Structural)]
pub enum RequestFailure {
    /// The connection was refused.
    Connect,
    /// No answer in time.
    Timeout,
    /// Anything else.
    Other,
}

/// What a tool answers: a text, marked as an error or not.
#[derive(Debug)]
pub struct ToolReply {
    pub is_error: bool,
    pub text: String,
}

/// What a tool does next.
#[derive(Debug)]
pub enum ToolAction {
    /// Read the body of the backend's answer.
    ReadBody,
    /// Reply, and stop.
    Reply(ToolReply),
}

/// What happened on the way to the backend's list of recommendations.
#[derive(Debug)]
pub enum RecommendEvent {
    /// The request failed.
    SendFailed(RequestFailure),
    /// The backend answered with this status code; `status` is how the
    /// status displays (code and reason).
    Answered { code: u16, status: String },
    /// The body was read: the sessions it lists, or `None` where it could not
    /// be read as such a list.
    BodyRead(Option<Vec<Session>>),
}

/// What happened on the way to the backend's details of one session.
#[derive(Debug)]
pub enum DetailsEvent {
    /// The request failed.
    SendFailed(RequestFailure),
    /// The backend answered with this status code; `status` is how the
    /// status displays (code and reason).
    Answered { code: u16, status: String },
    /// The body was read: the session it describes, or `None` where it could
    /// not be read as such.
    BodyRead(Option<Session>),
}

/// What the agent asks the backend for recommendations: a POST to `url` with
/// the topic and the maximum as its JSON body.
#[derive(Debug)]
pub struct BackendQuery {
    pub url: String,
    pub topic: String,
    pub max_results: usize,
}

/// The request for recommendations on `topic` to the backend at
/// `backend_url`: at most `max_results`, or `DEFAULT_MAX_RESULTS` where the
/// tool call names no maximum.
pub fn recommend_query(backend_url: &str, topic: &str, max_results: Option<usize>) -> (q: BackendQuery)
    ensures
        q.url@ == backend_url@ + "/recommend"@,
        q.topic@ == topic@,
        q.max_results as nat == requested_max(max_results),
{
    let mut url = String::from_str(backend_url);
    push_text(&mut url, "/recommend");
    let max_results: usize = match max_results {
        Some(m) => m,
        None => DEFAULT_MAX_RESULTS,
    };
    BackendQuery { url, topic: String::from_str(topic), max_results }
}

/// The address the agent GETs for the details of the session `session_id`
/// from the backend at `backend_url`.
pub fn details_url(backend_url: &str, session_id: &str) -> (u: String)
    ensures
        u@ == backend_url@ + "/session/"@ + session_id@,
{
    let mut url = String::from_str(backend_url);
    push_text(&mut url, "/session/");
    push_text(&mut url, session_id);
    url
}

/// A status code of the success class.
pub open spec fn is_success(code: u16) -> bool {
    200 <= code <= 299
}

/// `action` replies `text`, as an error or not.
pub open spec fn replies(action: ToolAction, is_error: bool, text: Seq<char>) -> bool {
    action matches ToolAction::Reply(r) && r.is_error == is_error && r.text@ == text
}

/// The reply when the backend refused the connection.
pub open spec fn unavailable_text() -> Seq<char> {
    "Recommendation backend is unavailable (connection refused). The backend pod may have been OOM-killed. Try again shortly."@
}

/// The reply when the request failed in any other way.
pub open spec fn unexpected_failure_text() -> Seq<char> {
    "Recommendation backend request failed unexpectedly."@
}

/// The recommendation tool's reply when the backend did not answer in time.
pub open spec fn recommend_timeout_text() -> Seq<char> {
    "Recommendation backend timed out. The backend pod may be under memory pressure or OOM-killed. Try again shortly."@
}

/// The details tool's reply when the backend did not answer in time.
pub open spec fn details_timeout_text() -> Seq<char> {
    "Recommendation backend timed out. Try again shortly."@
}

/// The recommendation tool's reply to a status outside the success class.
pub open spec fn recommend_status_text(status: Seq<char>) -> Seq<char> {
    "Recommendation backend returned HTTP "@ + status
        + ". The backend may be unhealthy or restarting."@
}

/// The details tool's reply to a status outside the success class.
pub open spec fn details_status_text(status: Seq<char>) -> Seq<char> {
    "Recommendation backend returned HTTP "@ + status + "."@
}

/// The recommendation tool's reply to a body it cannot read.
pub open spec fn recommend_unreadable_text() -> Seq<char> {
    "Failed to parse response from recommendation backend. The backend may have been killed mid-response."@
}

/// The details tool's reply to a body it cannot read.
pub open spec fn details_unreadable_text() -> Seq<char> {
    "Failed to parse response from recommendation backend."@
}

/// The details tool's reply when the backend knows no session `id`.
pub open spec fn not_found_text(id: Seq<char>) -> Seq<char> {
    "No session found with ID '"@ + id + "'. Use recommend_sessions to search by topic first."@
}

/// The entry of the backend's list for one session: id, title, speaker,
/// schedule, abstract and tags.
pub open spec fn summary_entry(s: Session) -> Seq<char> {
    "ID: "@ + s.id@ + "\n Title: **"@ + s.title@ + "**\n Speaker: "@ + s.speaker@
        + "\n Track: "@ + s.track@ + " | "@ + s.day@ + " @ "@ + s.time@ + " | Room: "@ + s.room@
        + "\n "@ + s.abstract_text@ + "\n Tags: "@ + tags_text(s) + "\n\n"@
}

/// The entries of `ss`, in order.
pub open spec fn summary_entries(ss: Seq<Session>) -> Seq<char>
    decreases ss.len(),
{
    if ss.len() == 0 {
        seq![]
    } else {
        summary_entries(ss.drop_last()) + summary_entry(ss.last())
    }
}

/// The reply listing the backend's recommendations `ss` for `topic`.
pub open spec fn summary_text(topic: Seq<char>, ss: Seq<Session>) -> Seq<char> {
    if ss.len() == 0 {
        no_match_text(topic)
    } else {
        found_header(ss.len(), topic) + summary_entries(ss)
    }
}

/// The full description of one session.
pub open spec fn details_text(s: Session) -> Seq<char> {
    "ID: "@ + s.id@ + "\nTitle: "@ + s.title@ + "\nSpeaker: "@ + s.speaker@ + "\nTrack: "@
        + s.track@ + "\nSchedule: "@ + s.day@ + " @ "@ + s.time@ + " | Room: "@ + s.room@
        + "\nTags: "@ + tags_text(s) + "\n\nAbstract:\n"@ + s.abstract_text@
}

/// The message of the backend for a session id that the catalog lacks.
pub open spec fn missing_session_text(id: Seq<char>) -> Seq<char> {
    "Session '"@ + id + "' not found"@
}

/// An error reply with the text `text`.
fn error_reply(text: &str) -> (a: ToolAction)
    ensures
        replies(a, true, text@),
{
    ToolAction::Reply(ToolReply { is_error: true, text: String::from_str(text) })
}

/// Appends the entry of `s` in the backend's list.
fn push_summary_entry(out: &mut String, s: &Session)
    ensures
        final(out)@ == old(out)@ + summary_entry(*s),
{
    let ghost start = out@;
    push_text(out, "ID: ");
    let ghost acc = "ID: "@;
    assert(out@ == start + acc);
    push_part(out, s.id.as_str(), Ghost(start), Ghost(acc));
    let ghost acc = acc + s.id@;
    push_part(out, "\n Title: **", Ghost(start), Ghost(acc));
    let ghost acc = acc + "\n Title: **"@;
    push_part(out, s.title.as_str(), Ghost(start), Ghost(acc));
    let ghost acc = acc + s.title@;
    push_part(out, "**\n Speaker: ", Ghost(start), Ghost(acc));
    let ghost acc = acc + "**\n Speaker: "@;
    push_part(out, s.speaker.as_str(), Ghost(start), Ghost(acc));
    let ghost acc = acc + s.speaker@;
    push_part(out, "\n Track: ", Ghost(start), Ghost(acc));
    let ghost acc = acc + "\n Track: "@;
    push_part(out, s.track.as_str(), Ghost(start), Ghost(acc));
    let ghost acc = acc + s.track@;
    push_part(out, " | ", Ghost(start), Ghost(acc));
    let ghost acc = acc + " | "@;
    push_part(out, s.day.as_str(), Ghost(start), Ghost(acc));
    let ghost acc = acc + s.day@;
    push_part(out, " @ ", Ghost(start), Ghost(acc));
    let ghost acc = acc + " @ "@;
    push_part(out, s.time.as_str(), Ghost(start), Ghost(acc));
    let ghost acc = acc + s.time@;
    push_part(out, " | Room: ", Ghost(start), Ghost(acc));
    let ghost acc = acc + " | Room: "@;
    push_part(out, s.room.as_str(), Ghost(start), Ghost(acc));
    let ghost acc = acc + s.room@;
    push_part(out, "\n ", Ghost(start), Ghost(acc));
    let ghost acc = acc + "\n "@;
    push_part(out, s.abstract_text.as_str(), Ghost(start), Ghost(acc));
    let ghost acc = acc + s.abstract_text@;
    push_part(out, "\n Tags: ", Ghost(start), Ghost(acc));
    let ghost acc = acc + "\n Tags: "@;
    push_joined(out, &s.tags, ", ");
    assert(out@ =~= start + (acc + tags_text(*s)));
    let ghost acc = acc + tags_text(*s);
    push_part(out, "\n\n", Ghost(start), Ghost(acc));
}

/// The reply listing the backend's recommendations `ss` for `topic`.
pub fn render_summaries(topic: &str, ss: &Vec<Session>) -> (text: String)
    ensures
        text@ == summary_text(topic@, ss@),
{
    let mut out = String::new();
    let ghost start = Seq::<char>::empty();
    if ss.len() == 0 {
        push_text(&mut out, "No sessions found matching '");
        let ghost acc = "No sessions found matching '"@;
        assert(out@ == start + acc);
        push_part(&mut out, topic, Ghost(start), Ghost(acc));
        push_part(
            &mut out,
            "'. Try broader keywords like 'AI', 'Kubernetes', 'security', or 'edge'.",
            Ghost(start),
            Ghost(acc + topic@),
        );
        return out;
    }
    push_text(&mut out, "Found ");
    let ghost acc = "Found "@;
    assert(out@ == start + acc);
    push_decimal(&mut out, ss.len() as u64);
    assert(out@ =~= start + (acc + decimal(ss@.len())));
    let ghost acc = acc + decimal(ss@.len());
    push_part(&mut out, " SUSECon session(s) matching '", Ghost(start), Ghost(acc));
    let ghost acc = acc + " SUSECon session(s) matching '"@;
    push_part(&mut out, topic, Ghost(start), Ghost(acc));
    let ghost acc = acc + topic@;
    push_part(&mut out, "':\n\n", Ghost(start), Ghost(acc));
    let ghost header = out@;
    assert(header =~= found_header(ss@.len(), topic@));
    for k in 0..ss.len()
        invariant
            out@ == header + summary_entries(ss@.take(k as int)),
    {
        push_summary_entry(&mut out, &ss[k]);
        assert(ss@.take(k + 1).drop_last() =~= ss@.take(k as int));
        assert(out@ =~= header + summary_entries(ss@.take(k + 1)));
    }
    assert(ss@.take(ss@.len() as int) =~= ss@);
    out
}

/// The full description of the session `s`.
pub fn render_details(s: &Session) -> (text: String)
    ensures
        text@ == details_text(*s),
{
    let mut out = String::new();
    let ghost start = Seq::<char>::empty();
    push_text(&mut out, "ID: ");
    let ghost acc = "ID: "@;
    assert(out@ == start + acc);
    push_part(&mut out, s.id.as_str(), Ghost(start), Ghost(acc));
    let ghost acc = acc + s.id@;
    push_part(&mut out, "\nTitle: ", Ghost(start), Ghost(acc));
    let ghost acc = acc + "\nTitle: "@;
    push_part(&mut out, s.title.as_str(), Ghost(start), Ghost(acc));
    let ghost acc = acc + s.title@;
    push_part(&mut out, "\nSpeaker: ", Ghost(start), Ghost(acc));
    let ghost acc = acc + "\nSpeaker: "@;
    push_part(&mut out, s.speaker.as_str(), Ghost(start), Ghost(acc));
    let ghost acc = acc + s.speaker@;
    push_part(&mut out, "\nTrack: ", Ghost(start), Ghost(acc));
    let ghost acc = acc + "\nTrack: "@;
    push_part(&mut out, s.track.as_str(), Ghost(start), Ghost(acc));
    let ghost acc = acc + s.track@;
    push_part(&mut out, "\nSchedule: ", Ghost(start), Ghost(acc));
    let ghost acc = acc + "\nSchedule: "@;
    push_part(&mut out, s.day.as_str(), Ghost(start), Ghost(acc));
    let ghost acc = acc + s.day@;
    push_part(&mut out, " @ ", Ghost(start), Ghost(acc));
    let ghost acc = acc + " @ "@;
    push_part(&mut out, s.time.as_str(), Ghost(start), Ghost(acc));
    let ghost acc = acc + s.time@;
    push_part(&mut out, " | Room: ", Ghost(start), Ghost(acc));
    let ghost acc = acc + " | Room: "@;
    push_part(&mut out, s.room.as_str(), Ghost(start), Ghost(acc));
    let ghost acc = acc + s.room@;
    push_part(&mut out, "\nTags: ", Ghost(start), Ghost(acc));
    let ghost acc = acc + "\nTags: "@;
    push_joined(&mut out, &s.tags, ", ");
    assert(out@ =~= start + (acc + tags_text(*s)));
    let ghost acc = acc + tags_text(*s);
    push_part(&mut out, "\n\nAbstract:\n", Ghost(start), Ghost(acc));
    let ghost acc = acc + "\n\nAbstract:\n"@;
    push_part(&mut out, s.abstract_text.as_str(), Ghost(start), Ghost(acc));
    out
}

/// The next step of the tool that recommends sessions on `topic` through the
/// backend, after `event`.
pub fn recommend_step(topic: &str, event: &RecommendEvent) -> (a: ToolAction)
    ensures
        match event {
            RecommendEvent::SendFailed(RequestFailure::Connect) => replies(
                a,
                true,
                unavailable_text(),
            ),
            RecommendEvent::SendFailed(RequestFailure::Timeout) => replies(
                a,
                true,
                recommend_timeout_text(),
            ),
            RecommendEvent::SendFailed(RequestFailure::Other) => replies(
                a,
                true,
                unexpected_failure_text(),
            ),
            RecommendEvent::Answered { code, status } => if is_success(*code) {
                a is ReadBody
            } else {
                replies(a, true, recommend_status_text(status@))
            },
            RecommendEvent::BodyRead(None) => replies(a, true, recommend_unreadable_text()),
            RecommendEvent::BodyRead(Some(ss)) => replies(a, false, summary_text(topic@, ss@)),
        },
{
    match event {
        RecommendEvent::SendFailed(RequestFailure::Connect) => error_reply(
            "Recommendation backend is unavailable (connection refused). The backend pod may have been OOM-killed. Try again shortly.",
        ),
        RecommendEvent::SendFailed(RequestFailure::Timeout) => error_reply(
            "Recommendation backend timed out. The backend pod may be under memory pressure or OOM-killed. Try again shortly.",
        ),
        RecommendEvent::SendFailed(RequestFailure::Other) => error_reply(
            "Recommendation backend request failed unexpectedly.",
        ),
        RecommendEvent::Answered { code, status } => {
            if 200 <= *code && *code <= 299 {
                ToolAction::ReadBody
            } else {
                let mut text = String::from_str("Recommendation backend returned HTTP ");
                push_text(&mut text, status.as_str());
                push_text(&mut text, ". The backend may be unhealthy or restarting.");
                ToolAction::Reply(ToolReply { is_error: true, text })
            }
        },
        RecommendEvent::BodyRead(None) => error_reply(
            "Failed to parse response from recommendation backend. The backend may have been killed mid-response.",
        ),
        RecommendEvent::BodyRead(Some(ss)) => ToolAction::Reply(
            ToolReply { is_error: false, text: render_summaries(topic, ss) },
        ),
    }
}

/// The next step of the tool that describes the session `session_id`
/// through the backend, after `event`.
pub fn details_step(session_id: &str, event: &DetailsEvent) -> (a: ToolAction)
    ensures
        match event {
            DetailsEvent::SendFailed(RequestFailure::Connect) => replies(
                a,
                true,
                unavailable_text(),
            ),
            DetailsEvent::SendFailed(RequestFailure::Timeout) => replies(
                a,
                true,
                details_timeout_text(),
            ),
            DetailsEvent::SendFailed(RequestFailure::Other) => replies(
                a,
                true,
                unexpected_failure_text(),
            ),
            DetailsEvent::Answered { code, status } => if *code == 404 {
                replies(a, false, not_found_text(session_id@))
            } else if is_success(*code) {
                a is ReadBody
            } else {
                replies(a, true, details_status_text(status@))
            },
            DetailsEvent::BodyRead(None) => replies(a, true, details_unreadable_text()),
            DetailsEvent::BodyRead(Some(s)) => replies(a, false, details_text(*s)),
        },
{
    match event {
        DetailsEvent::SendFailed(RequestFailure::Connect) => error_reply(
            "Recommendation backend is unavailable (connection refused). The backend pod may have been OOM-killed. Try again shortly.",
        ),
        DetailsEvent::SendFailed(RequestFailure::Timeout) => error_reply(
            "Recommendation backend timed out. Try again shortly.",
        ),
        DetailsEvent::SendFailed(RequestFailure::Other) => error_reply(
            "Recommendation backend request failed unexpectedly.",
        ),
        DetailsEvent::Answered { code, status } => {
            if *code == 404 {
                let mut text = String::from_str("No session found with ID '");
                push_text(&mut text, session_id);
                push_text(&mut text, "'. Use recommend_sessions to search by topic first.");
                ToolAction::Reply(ToolReply { is_error: false, text })
            } else if 200 <= *code && *code <= 299 {
                ToolAction::ReadBody
            } else {
                let mut text = String::from_str("Recommendation backend returned HTTP ");
                push_text(&mut text, status.as_str());
                push_text(&mut text, ".");
                ToolAction::Reply(ToolReply { is_error: true, text })
            }
        },
        DetailsEvent::BodyRead(None) => error_reply(
            "Failed to parse response from recommendation backend.",
        ),
        DetailsEvent::BodyRead(Some(s)) => ToolAction::Reply(
            ToolReply { is_error: false, text: render_details(s) },
        ),
    }
}

impl SessionCatalog {
    /// The backend's answer to a request for the session `id`: the first
    /// session with that id, or the message that it was not found.
    pub fn session_detail(&self, id: &str) -> (r: Result<&Session, String>)
        ensures
            match r {
                Ok(s) => exists|k: int|
                    first_with_id(self.sessions@, id@, k) && *s == self.sessions@[k],
                Err(msg) => msg@ == missing_session_text(id@) && forall|k: int|
                    0 <= k < self.sessions@.len() ==> (#[trigger] self.sessions@[k]).id@ != id@,
            },
    {
        match self.find_by_id(id) {
            Some(s) => Ok(s),
            None => {
                let mut msg = String::from_str("Session '");
                push_text(&mut msg, id);
                push_text(&mut msg, "' not found");
                Err(msg)
            },
        }
    }
}

/// Each entry of the agent's list starts with the session's id and ends with
/// the whole abstract and then all of the session's tags joined by commas.
pub proof fn law_summary_entry_parts(s: Session)
    ensures
        ends_with(
            summary_entry(s),
            "\n "@ + s.abstract_text@ + "\n Tags: "@ + joined(string_views(s.tags@), ", "@)
                + "\n\n"@,
        ),
        summary_entry(s).take(("ID: "@ + s.id@).len() as int) == "ID: "@ + s.id@,
{
    let tail = "\n "@ + s.abstract_text@ + "\n Tags: "@ + joined(string_views(s.tags@), ", "@)
        + "\n\n"@;
    let head = "ID: "@ + s.id@;
    let mid = "\n Title: **"@ + s.title@ + "**\n Speaker: "@ + s.speaker@ + "\n Track: "@
        + s.track@ + " | "@ + s.day@ + " @ "@ + s.time@ + " | Room: "@ + s.room@;
    let e = summary_entry(s);
    assert(e =~= head + mid + tail);
    assert(e.subrange(e.len() - tail.len(), e.len() as int) =~= tail);
    assert(e.take(head.len() as int) =~= head);
}

/// The description of a session starts with its id and ends with its whole
/// abstract after an `Abstract:` line, whatever its length.
pub proof fn law_details_end_with_abstract(s: Session)
    ensures
        ends_with(details_text(s), "\n\nAbstract:\n"@ + s.abstract_text@),
        ends_with(details_text(s), s.abstract_text@),
        details_text(s).take(("ID: "@ + s.id@).len() as int) == "ID: "@ + s.id@,
{
    let d = details_text(s);
    let tail = "\n\nAbstract:\n"@ + s.abstract_text@;
    let head = "ID: "@ + s.id@;
    let mid = "\nTitle: "@ + s.title@ + "\nSpeaker: "@ + s.speaker@ + "\nTrack: "@ + s.track@
        + "\nSchedule: "@ + s.day@ + " @ "@ + s.time@ + " | Room: "@ + s.room@ + "\nTags: "@
        + tags_text(s);
    assert(d =~= head + mid + tail);
    assert(d.subrange(d.len() - tail.len(), d.len() as int) =~= tail);
    assert(d.subrange(d.len() - s.abstract_text@.len(), d.len() as int) =~= s.abstract_text@);
    assert(d.take(head.len() as int) =~= head);
}

} // verus!
