//! The texts that the recommendation tools answer with.

use vstd::prelude::*;

use crate::sessions::{recommended, Session, SessionCatalog, DEFAULT_MAX_RESULTS};
use crate::text::{
    decimal, ends_with, joined, push_decimal, push_joined, push_part, push_text, string_views,
};

verus! {

/// The answer to a request for which no session is relevant.
pub open spec fn no_match_text(topic: Seq<char>) -> Seq<char> {
    "No sessions found matching '"@ + topic
        + "'. Try broader keywords like 'AI', 'Kubernetes', 'security', or 'edge'."@
}

/// The first line of a list of `n` recommendations, and a blank line.
pub open spec fn found_header(n: nat, topic: Seq<char>) -> Seq<char> {
    "Found "@ + decimal(n) + " SUSECon session(s) matching '"@ + topic + "':\n\n"@
}

/// The tags of a session, separated by commas.
pub open spec fn tags_text(s: Session) -> Seq<char> {
    joined(string_views(s.tags@), ", "@)
}

/// The entry of a recommendation list for the session at position `pos`
/// (counted from 1), with its abstract.
pub open spec fn numbered_entry(pos: nat, s: Session) -> Seq<char> {
    decimal(pos) + ". **"@ + s.title@ + "**\n   Speaker: "@ + s.speaker@ + "\n   Track: "@
        + s.track@ + " | "@ + s.day@ + " @ "@ + s.time@ + " | Room: "@ + s.room@ + "\n   "@
        + s.abstract_text@ + "\n   Tags: "@ + tags_text(s) + "\n\n"@
}

/// The numbered entries of `ss`, in order.
pub open spec fn numbered_entries(ss: Seq<Session>) -> Seq<char>
    decreases ss.len(),
{
    if ss.len() == 0 {
        seq![]
    } else {
        numbered_entries(ss.drop_last()) + numbered_entry(ss.len(), ss.last())
    }
}

/// The text that answers a request for recommendations on `topic` with the
/// sessions `ss`.
pub open spec fn recommendation_text(topic: Seq<char>, ss: Seq<Session>) -> Seq<char> {
    if ss.len() == 0 {
        no_match_text(topic)
    } else {
        found_header(ss.len(), topic) + numbered_entries(ss)
    }
}

/// The sessions that a list of references points to.
pub open spec fn pointed(rs: Seq<&Session>) -> Seq<Session> {
    rs.map_values(|r: &Session| *r)
}

/// Appends the entry of `s` at position `pos`.
fn push_numbered_entry(out: &mut String, pos: u64, s: &Session)
    ensures
        final(out)@ == old(out)@ + numbered_entry(pos as nat, *s),
{
    let ghost start = out@;
    push_decimal(out, pos);
    let ghost acc = decimal(pos as nat);
    push_part(out, ". **", Ghost(start), Ghost(acc));
    let ghost acc = acc + ". **"@;
    push_part(out, s.title.as_str(), Ghost(start), Ghost(acc));
    let ghost acc = acc + s.title@;
    push_part(out, "**\n   Speaker: ", Ghost(start), Ghost(acc));
    let ghost acc = acc + "**\n   Speaker: "@;
    push_part(out, s.speaker.as_str(), Ghost(start), Ghost(acc));
    let ghost acc = acc + s.speaker@;
    push_part(out, "\n   Track: ", Ghost(start), Ghost(acc));
    let ghost acc = acc + "\n   Track: "@;
    push_part(out, s.track.as_str(), Ghost(start), Ghost(acc));
    let ghost acc = acc + s.track@;
    push_part(out, " | ", Ghost(start), Ghost(acc));
    let ghost acc = acc + " | "@;
    push_part(out, s.day.as_str(), Ghost(start), Ghost(acc));
    let ghost acc = acc + s.day@;
    push_part(out, " @ ", Ghost(start), Ghost(acc));
    let ghost acc = acc + " @ "@;
    push_part(out, s.time.as_str(), Ghost(start), Ghost(acc));
    let ghost acc = acc + s.time@;
    push_part(out, " | Room: ", Ghost(start), Ghost(acc));
    let ghost acc = acc + " | Room: "@;
    push_part(out, s.room.as_str(), Ghost(start), Ghost(acc));
    let ghost acc = acc + s.room@;
    push_part(out, "\n   ", Ghost(start), Ghost(acc));
    let ghost acc = acc + "\n   "@;
    push_part(out, s.abstract_text.as_str(), Ghost(start), Ghost(acc));
    let ghost acc = acc + s.abstract_text@;
    push_part(out, "\n   Tags: ", Ghost(start), Ghost(acc));
    let ghost acc = acc + "\n   Tags: "@;
    push_joined(out, &s.tags, ", ");
    assert(out@ =~= start + (acc + tags_text(*s)));
    let ghost acc = acc + tags_text(*s);
    push_part(out, "\n\n", Ghost(start), Ghost(acc));
}

/// The text that answers a request for recommendations on `topic` with the
/// sessions `results`: a numbered list with title, speaker, schedule, room,
/// abstract and tags of each, or a hint to try broader keywords where there
/// is none.
pub fn render_recommendations(topic: &str, results: &Vec<&Session>) -> (text: String)
    ensures
        text@ == recommendation_text(topic@, pointed(results@)),
{
    let ghost ss = pointed(results@);
    let mut out = String::new();
    if results.len() == 0 {
        push_text(&mut out, "No sessions found matching '");
        let ghost start = Seq::<char>::empty();
        let ghost acc = "No sessions found matching '"@;
        assert(out@ == start + acc);
        push_part(&mut out, topic, Ghost(start), Ghost(acc));
        push_part(
            &mut out,
            "'. Try broader keywords like 'AI', 'Kubernetes', 'security', or 'edge'.",
            Ghost(start),
            Ghost(acc + topic@),
        );
        return out;
    }
    push_text(&mut out, "Found ");
    let ghost start = Seq::<char>::empty();
    let ghost acc = "Found "@;
    assert(out@ == start + acc);
    push_decimal(&mut out, results.len() as u64);
    assert(out@ =~= start + (acc + decimal(results@.len())));
    let ghost acc = acc + decimal(results@.len());
    push_part(&mut out, " SUSECon session(s) matching '", Ghost(start), Ghost(acc));
    let ghost acc = acc + " SUSECon session(s) matching '"@;
    push_part(&mut out, topic, Ghost(start), Ghost(acc));
    let ghost acc = acc + topic@;
    push_part(&mut out, "':\n\n", Ghost(start), Ghost(acc));
    let ghost header = out@;
    assert(header =~= found_header(ss.len(), topic@));
    for k in 0..results.len()
        invariant
            ss == pointed(results@),
            out@ == header + numbered_entries(ss.take(k as int)),
    {
        push_numbered_entry(&mut out, (k + 1) as u64, results[k]);
        assert(ss.take(k + 1).drop_last() =~= ss.take(k as int));
        assert(out@ =~= header + numbered_entries(ss.take(k + 1)));
    }
    assert(ss.take(results@.len() as int) =~= ss);
    out
}

impl SessionCatalog {
    /// The text that answers a request for recommendations on `topic`, at
    /// most `max_results` of them (`DEFAULT_MAX_RESULTS` where the request
    /// names no maximum).
    pub fn recommendation_reply(&self, topic: &str, max_results: Option<u32>) -> (text: String)
        ensures
            text@ == recommendation_text(
                topic@,
                recommended(
                    self.sessions@,
                    topic@,
                    match max_results {
                        Some(m) => m as nat,
                        None => DEFAULT_MAX_RESULTS as nat,
                    },
                ),
            ),
    {
        let max: usize = match max_results {
            Some(m) => m as usize,
            None => DEFAULT_MAX_RESULTS,
        };
        let results = self.recommend(topic, max);
        assert(pointed(results@) =~= recommended(self.sessions@, topic@, max as nat));
        render_recommendations(topic, &results)
    }
}

/// Each numbered entry starts with its position and the title, and ends with
/// the whole abstract and then all of the session's tags joined by commas.
pub proof fn law_numbered_entry_parts(pos: nat, s: Session)
    ensures
        ends_with(
            numbered_entry(pos, s),
            "\n   "@ + s.abstract_text@ + "\n   Tags: "@ + joined(string_views(s.tags@), ", "@)
                + "\n\n"@,
        ),
        numbered_entry(pos, s).take((decimal(pos) + ". **"@ + s.title@).len() as int) == decimal(pos)
            + ". **"@ + s.title@,
{
    let tail = "\n   "@ + s.abstract_text@ + "\n   Tags: "@ + joined(string_views(s.tags@), ", "@)
        + "\n\n"@;
    let head = decimal(pos) + ". **"@ + s.title@;
    let mid = "**\n   Speaker: "@ + s.speaker@ + "\n   Track: "@ + s.track@ + " | "@ + s.day@
        + " @ "@ + s.time@ + " | Room: "@ + s.room@;
    let e = numbered_entry(pos, s);
    assert(e =~= head + mid + tail);
    assert(e.subrange(e.len() - tail.len(), e.len() as int) =~= tail);
    assert(e.take(head.len() as int) =~= head);
}

/// A reply with recommendations starts with how many there are and the
/// topic; one without is the hint naming the topic.
pub proof fn law_reply_header(topic: Seq<char>, ss: Seq<Session>)
    ensures
        ss.len() == 0 ==> recommendation_text(topic, ss) == "No sessions found matching '"@ + topic
            + "'. Try broader keywords like 'AI', 'Kubernetes', 'security', or 'edge'."@,
        ss.len() > 0 ==> recommendation_text(topic, ss).take(
            ("Found "@ + decimal(ss.len()) + " SUSECon session(s) matching '"@ + topic + "':\n\n"@).len() as int,
        ) == "Found "@ + decimal(ss.len()) + " SUSECon session(s) matching '"@ + topic + "':\n\n"@,
{
    if ss.len() > 0 {
        let h = "Found "@ + decimal(ss.len()) + " SUSECon session(s) matching '"@ + topic + "':\n\n"@;
        assert(recommendation_text(topic, ss).take(h.len() as int) =~= h);
    }
}

/// The entries of a reply come one per session, in order, numbered from 1:
/// the entries of all sessions are the entries of all but the last followed
/// by the last one's entry at position `ss.len()`.
pub proof fn law_entries_numbered_in_order(ss: Seq<Session>, s: Session)
    ensures
        numbered_entries(ss.push(s)) == numbered_entries(ss) + numbered_entry(ss.len() + 1, s),
        numbered_entries(seq![s]) == numbered_entry(1, s),
{
    assert(ss.push(s).drop_last() =~= ss);
    assert(seq![s].drop_last() =~= Seq::<Session>::empty());
    assert(seq![s].last() == s);
    assert(numbered_entries(seq![s].drop_last()) =~= Seq::<char>::empty());
    assert(numbered_entries(seq![s]) =~= numbered_entry(1, s));
}

} // verus!
