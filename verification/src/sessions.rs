//! The session catalog: keyword scoring of sessions against a topic, the
//! ranked recommendations, and lookup by id.

use vstd::prelude::*;
use vstd::string::StringExecFns;

use crate::ranking::{
    as_ints, count_positive, is_ranking, lemma_ranking, rank, ranking, ranks_before, score_seq,
};
use crate::text::{
    contains_chars, contains_text, lowercase, lowercase_chars, split_words, string_views, views, words,
};

verus! {

/// How many recommendations a request gets when it names no maximum.
pub const DEFAULT_MAX_RESULTS: usize = 5;

/// One conference session.
#[derive(Debug, Clone)]
pub struct Session {
    pub id: String,
    pub title: String,
    pub speaker: String,
    /// The session's abstract.
    pub abstract_text: String,
    pub track: String,
    pub day: String,
    pub time: String,
    pub room: String,
    pub tags: Vec<String>,
}

/// The sessions on offer, in catalog order.
#[derive(Debug, Clone)]
pub struct SessionCatalog {
    pub sessions: Vec<Session>,
}

/// The keywords of a topic: the words of its lower-case form.
pub open spec fn topic_keywords(topic: Seq<char>) -> Seq<Seq<char>> {
    words(lowercase(topic))
}

/// The searchable text of a session, in lower case.
pub struct SearchText {
    pub title: Seq<char>,
    pub track: Seq<char>,
    pub tags: Seq<Seq<char>>,
    pub abstract_text: Seq<char>,
}

/// The lower-case forms of the title, track, tags and abstract of `s`.
pub open spec fn search_text(s: Session) -> SearchText {
    SearchText {
        title: lowercase(s.title@),
        track: lowercase(s.track@),
        tags: string_views(s.tags@).map_values(|t: Seq<char>| lowercase(t)),
        abstract_text: lowercase(s.abstract_text@),
    }
}

/// Some tag holds the keyword.
pub open spec fn tag_matches(tags: Seq<Seq<char>>, kw: Seq<char>) -> bool {
    exists|j: int| 0 <= j < tags.len() && contains_text(#[trigger] tags[j], kw)
}

/// What one keyword adds to the relevance of a session with search text `t`:
/// 3 when it occurs in the title, 2 when in the track, 2 when in some tag, 1
/// when in the abstract.
pub open spec fn keyword_score(t: SearchText, kw: Seq<char>) -> nat {
    (if contains_text(t.title, kw) {
        3nat
    } else {
        0nat
    }) + (if contains_text(t.track, kw) {
        2nat
    } else {
        0nat
    }) + (if tag_matches(t.tags, kw) {
        2nat
    } else {
        0nat
    }) + (if contains_text(t.abstract_text, kw) {
        1nat
    } else {
        0nat
    })
}

/// The relevance of a search text to a list of keywords: the sum of what
/// each keyword adds, a keyword named twice counting twice.
pub open spec fn text_relevance(t: SearchText, kws: Seq<Seq<char>>) -> nat
    decreases kws.len(),
{
    if kws.len() == 0 {
        0
    } else {
        text_relevance(t, kws.drop_last()) + keyword_score(t, kws.last())
    }
}

/// The relevance of a session to a list of keywords, case aside.
pub open spec fn relevance(s: Session, kws: Seq<Seq<char>>) -> nat {
    text_relevance(search_text(s), kws)
}

/// The relevance of each session of the catalog to a topic.
pub open spec fn relevances(sessions: Seq<Session>, topic: Seq<char>) -> Seq<nat> {
    Seq::new(sessions.len(), |i: int| relevance(sessions[i], topic_keywords(topic)))
}

/// The recommendations for a topic: the sessions of positive relevance, most
/// relevant first, sessions of equal relevance in catalog order, at most
/// `max` of them.
pub open spec fn recommended(sessions: Seq<Session>, topic: Seq<char>, max: nat) -> Seq<Session> {
    let order = ranking(relevances(sessions, topic));
    let n = if max < order.len() {
        max
    } else {
        order.len()
    };
    Seq::new(n as nat, |k: int| sessions[order[k]])
}

/// How many sessions have a positive relevance to a topic.
pub open spec fn relevant_count(sessions: Seq<Session>, topic: Seq<char>) -> nat {
    count_positive(relevances(sessions, topic))
}

/// The maximum a request asks for: the one it names, or `DEFAULT_MAX_RESULTS`.
pub open spec fn requested_max(max_results: Option<usize>) -> nat {
    match max_results {
        Some(m) => m as nat,
        None => DEFAULT_MAX_RESULTS as nat,
    }
}

/// `k` is the position of the first session whose id is `id`.
pub open spec fn first_with_id(sessions: Seq<Session>, id: Seq<char>, k: int) -> bool {
    &&& 0 <= k < sessions.len()
    &&& sessions[k].id@ == id
    &&& forall|j: int| 0 <= j < k ==> (#[trigger] sessions[j]).id@ != id
}

/// The lower-case forms of the searchable fields of a session.
pub struct LoweredSession {
    pub title: Vec<char>,
    pub track: Vec<char>,
    pub tags: Vec<Vec<char>>,
    pub abstract_text: Vec<char>,
}

impl View for LoweredSession {
    type V = SearchText;

    open spec fn view(&self) -> SearchText {
        SearchText {
            title: self.title@,
            track: self.track@,
            tags: views(self.tags@),
            abstract_text: self.abstract_text@,
        }
    }
}

impl LoweredSession {
    /// The lower-case search text of `s`.
    pub fn of(s: &Session) -> (l: LoweredSession)
        ensures
            l@ == search_text(*s),
    {
        let mut tags: Vec<Vec<char>> = Vec::new();
        for j in 0..s.tags.len()
            invariant
                tags@.len() == j,
                forall|t: int| 0 <= t < j ==> #[trigger] tags@[t]@ == lowercase(s.tags@[t]@),
        {
            tags.push(lowercase_chars(s.tags[j].as_str()));
        }
        let l = LoweredSession {
            title: lowercase_chars(s.title.as_str()),
            track: lowercase_chars(s.track.as_str()),
            tags,
            abstract_text: lowercase_chars(s.abstract_text.as_str()),
        };
        assert(views(l.tags@) =~= string_views(s.tags@).map_values(|t: Seq<char>| lowercase(t)));
        l
    }

    /// Whether some tag holds `kw`.
    pub fn tag_matches(&self, kw: &Vec<char>) -> (b: bool)
        ensures
            b == tag_matches(self@.tags, kw@),
    {
        for j in 0..self.tags.len()
            invariant
                forall|t: int| 0 <= t < j ==> !contains_text(#[trigger] self@.tags[t], kw@),
        {
            if contains_chars(&self.tags[j], kw) {
                assert(contains_text(self@.tags[j as int], kw@));
                return true;
            }
        }
        false
    }

    /// What `kw` adds to the relevance of this search text.
    pub fn keyword_score(&self, kw: &Vec<char>) -> (r: u64)
        ensures
            r == keyword_score(self@, kw@),
            r <= 8,
    {
        let mut r: u64 = 0;
        if contains_chars(&self.title, kw) {
            r = r + 3;
        }
        if contains_chars(&self.track, kw) {
            r = r + 2;
        }
        if self.tag_matches(kw) {
            r = r + 2;
        }
        if contains_chars(&self.abstract_text, kw) {
            r = r + 1;
        }
        r
    }

    /// The relevance of this search text to the keywords `kws`.
    pub fn relevance(&self, kws: &Vec<Vec<char>>) -> (r: u128)
        ensures
            r == text_relevance(self@, views(kws@)),
    {
        let mut r: u128 = 0;
        for k in 0..kws.len()
            invariant
                r == text_relevance(self@, views(kws@).take(k as int)),
                r <= 8 * k,
        {
            let add: u64 = self.keyword_score(&kws[k]);
            assert(views(kws@).take(k + 1).drop_last() =~= views(kws@).take(k as int));
            r = r + add as u128;
        }
        assert(views(kws@).take(kws@.len() as int) =~= views(kws@));
        r
    }
}

impl SessionCatalog {
    /// Recommends at most `max_results` sessions for `topic`: the sessions
    /// whose title, track, tags or abstract hold a keyword of the topic, case
    /// aside, the most relevant first and sessions of equal relevance in
    /// catalog order.
    pub fn recommend(&self, topic: &str, max_results: usize) -> (r: Vec<&Session>)
        ensures
            r@.len() == recommended(self.sessions@, topic@, max_results as nat).len(),
            forall|k: int|
                0 <= k < r@.len() ==> *r@[k] == #[trigger] recommended(
                    self.sessions@,
                    topic@,
                    max_results as nat,
                )[k],
    {
        let lowered_topic = lowercase_chars(topic);
        let keywords = split_words(&lowered_topic);
        let ghost rel = relevances(self.sessions@, topic@);
        let n: usize = self.sessions.len();
        let mut scores: Vec<u128> = Vec::new();
        for i in 0..n
            invariant
                n == self.sessions@.len(),
                rel == relevances(self.sessions@, topic@),
                views(keywords@) == topic_keywords(topic@),
                scores@.len() == i,
                forall|j: int| 0 <= j < i ==> #[trigger] scores@[j] == rel[j],
        {
            let lowered = LoweredSession::of(&self.sessions[i]);
            scores.push(lowered.relevance(&keywords));
        }
        assert(score_seq(scores@) =~= rel);
        let order = rank(&scores);
        proof {
            lemma_ranking(rel);
        }
        let count: usize = if max_results < order.len() {
            max_results
        } else {
            order.len()
        };
        let mut out: Vec<&Session> = Vec::new();
        for k in 0..count
            invariant
                count <= order@.len(),
                as_ints(order@) == ranking(rel),
                is_ranking(ranking(rel), rel),
                rel == relevances(self.sessions@, topic@),
                count == recommended(self.sessions@, topic@, max_results as nat).len(),
                out@.len() == k,
                forall|j: int|
                    0 <= j < k ==> *out@[j] == #[trigger] recommended(
                        self.sessions@,
                        topic@,
                        max_results as nat,
                    )[j],
        {
            assert(as_ints(order@)[k as int] == order@[k as int] as int);
            out.push(&self.sessions[order[k]]);
        }
        out
    }

    /// The recommendations for `topic`, at most `max_results` of them, or
    /// at most `DEFAULT_MAX_RESULTS` where the request names no maximum.
    pub fn recommend_or_default(&self, topic: &str, max_results: Option<usize>) -> (r: Vec<
        &Session,
    >)
        ensures
            r@.len() == recommended(self.sessions@, topic@, requested_max(max_results)).len(),
            forall|k: int|
                0 <= k < r@.len() ==> *r@[k] == #[trigger] recommended(
                    self.sessions@,
                    topic@,
                    requested_max(max_results),
                )[k],
    {
        let max: usize = match max_results {
            Some(m) => m,
            None => DEFAULT_MAX_RESULTS,
        };
        self.recommend(topic, max)
    }

    /// The first session whose id is `id`, if any.
    pub fn find_by_id(&self, id: &str) -> (r: Option<&Session>)
        ensures
            match r {
                Some(s) => exists|k: int|
                    first_with_id(self.sessions@, id@, k) && *s == self.sessions@[k],
                None => forall|k: int|
                    0 <= k < self.sessions@.len() ==> (#[trigger] self.sessions@[k]).id@ != id@,
            },
    {
        let target = String::from_str(id);
        for k in 0..self.sessions.len()
            invariant
                target@ == id@,
                forall|j: int| 0 <= j < k ==> (#[trigger] self.sessions@[j]).id@ != id@,
        {
            if self.sessions[k].id == target {
                assert(first_with_id(self.sessions@, id@, k as int));
                return Some(&self.sessions[k]);
            }
        }
        None
    }
}

/// What one keyword adds to a session's relevance, in terms of the session's
/// own fields: 3 when the lower-cased title holds it, 2 when the lower-cased
/// track does, 2 when some lower-cased tag does, 1 when the lower-cased
/// abstract does.
pub proof fn law_keyword_weights(s: Session, kw: Seq<char>)
    ensures
        relevance(s, seq![kw]) == (if contains_text(lowercase(s.title@), kw) {
            3int
        } else {
            0int
        }) + (if contains_text(lowercase(s.track@), kw) {
            2int
        } else {
            0int
        }) + (if exists|j: int|
            0 <= j < s.tags@.len() && contains_text(lowercase(#[trigger] s.tags@[j]@), kw) {
            2int
        } else {
            0int
        }) + (if contains_text(lowercase(s.abstract_text@), kw) {
            1int
        } else {
            0int
        }),
{
    let t = search_text(s);
    assert(seq![kw].drop_last() =~= Seq::<Seq<char>>::empty());
    assert(t.tags.len() == s.tags@.len());
    assert forall|j: int| 0 <= j < s.tags@.len() implies #[trigger] t.tags[j] == lowercase(
        s.tags@[j]@,
    ) by {}
    if exists|j: int| 0 <= j < s.tags@.len() && contains_text(lowercase(#[trigger] s.tags@[j]@), kw) {
        let j = choose|j: int|
            0 <= j < s.tags@.len() && contains_text(lowercase(#[trigger] s.tags@[j]@), kw);
        assert(contains_text(t.tags[j], kw));
    }
    if tag_matches(t.tags, kw) {
        let j = choose|j: int| 0 <= j < t.tags.len() && contains_text(#[trigger] t.tags[j], kw);
        assert(contains_text(lowercase(s.tags@[j]@), kw));
    }
    assert(seq![kw].last() == kw);
    assert(text_relevance(t, seq![kw].drop_last()) == 0);
    assert(relevance(s, seq![kw]) == keyword_score(t, kw));
}

/// The case of a session's tags does not matter: two sessions alike in
/// title, track and abstract whose tags agree once lower-cased are equally
/// relevant to every list of keywords.
pub proof fn law_tag_case_irrelevant(s1: Session, s2: Session, kws: Seq<Seq<char>>)
    requires
        s1.title@ == s2.title@,
        s1.track@ == s2.track@,
        s1.abstract_text@ == s2.abstract_text@,
        s1.tags@.len() == s2.tags@.len(),
        forall|j: int|
            0 <= j < s1.tags@.len() ==> lowercase(#[trigger] s1.tags@[j]@) == lowercase(
                s2.tags@[j]@,
            ),
    ensures
        relevance(s1, kws) == relevance(s2, kws),
{
    assert(search_text(s1).tags =~= search_text(s2).tags);
    assert(search_text(s1) == search_text(s2));
}

/// The catalog position of the `k`-th ranked session for a topic.
pub open spec fn ranked_position(sessions: Seq<Session>, topic: Seq<char>, k: int) -> int {
    ranking(relevances(sessions, topic))[k]
}

/// The ranked sessions for a topic: each at most once and each a catalog
/// position; a higher relevance comes first, and sessions of equal relevance
/// keep their catalog order; the `k`-th recommendation is the `k`-th ranked
/// session.
pub proof fn law_ranking_order(sessions: Seq<Session>, topic: Seq<char>, max: nat)
    ensures
        forall|k: int|
            0 <= k < ranking(relevances(sessions, topic)).len() ==> 0 <= #[trigger] ranked_position(
                sessions,
                topic,
                k,
            ) < sessions.len(),
        forall|a: int, b: int|
            0 <= a < b < ranking(relevances(sessions, topic)).len() ==> relevance(
                sessions[#[trigger] ranked_position(sessions, topic, a)],
                topic_keywords(topic),
            ) > relevance(sessions[#[trigger] ranked_position(sessions, topic, b)], topic_keywords(topic))
                || (relevance(sessions[ranked_position(sessions, topic, a)], topic_keywords(topic))
                == relevance(sessions[ranked_position(sessions, topic, b)], topic_keywords(topic))
                && ranked_position(sessions, topic, a) < ranked_position(sessions, topic, b)),
        forall|k: int|
            0 <= k < recommended(sessions, topic, max).len() ==> #[trigger] recommended(
                sessions,
                topic,
                max,
            )[k] == sessions[ranked_position(sessions, topic, k)],
{
    let rel = relevances(sessions, topic);
    lemma_ranking(rel);
    let order = ranking(rel);
    assert forall|a: int, b: int| 0 <= a < b < order.len() implies relevance(
        sessions[#[trigger] ranked_position(sessions, topic, a)],
        topic_keywords(topic),
    ) > relevance(sessions[#[trigger] ranked_position(sessions, topic, b)], topic_keywords(topic))
        || (relevance(sessions[ranked_position(sessions, topic, a)], topic_keywords(topic))
        == relevance(sessions[ranked_position(sessions, topic, b)], topic_keywords(topic))
        && ranked_position(sessions, topic, a) < ranked_position(sessions, topic, b)) by {
        assert(ranks_before(rel, order[a], order[b]));
    }
}

/// The session `find_by_id` picks is the one at the least position whose id
/// matches: no position before it has that id.
pub proof fn law_first_with_id_is_least(sessions: Seq<Session>, id: Seq<char>, k: int, m: int)
    requires
        first_with_id(sessions, id, k),
        0 <= m < sessions.len(),
        sessions[m].id@ == id,
    ensures
        k <= m,
        sessions[k].id@ == id,
        first_with_id(sessions, id, m) ==> m == k,
{
    if m < k {
        assert(sessions[m].id@ != id);
    }
}

/// Relevance adds up over keywords: the relevance to two keyword lists one
/// after the other is the sum of the relevances to each.
pub proof fn law_relevance_additive(s: Session, k1: Seq<Seq<char>>, k2: Seq<Seq<char>>)
    ensures
        relevance(s, k1 + k2) == relevance(s, k1) + relevance(s, k2),
    decreases k2.len(),
{
    if k2.len() == 0 {
        assert(k1 + k2 =~= k1);
    } else {
        law_relevance_additive(s, k1, k2.drop_last());
        assert((k1 + k2).drop_last() =~= k1 + k2.drop_last());
        assert((k1 + k2).last() == k2.last());
    }
}

/// Recommendations do not depend on the case of the topic: two topics with
/// the same lower-case form get the same recommendations.
pub proof fn law_topic_case_insensitive(
    sessions: Seq<Session>,
    t1: Seq<char>,
    t2: Seq<char>,
    max: nat,
)
    requires
        lowercase(t1) == lowercase(t2),
    ensures
        recommended(sessions, t1, max) == recommended(sessions, t2, max),
{
    assert(relevances(sessions, t1) =~= relevances(sessions, t2));
}

/// There are at most `max` recommendations, and each is a session of the
/// catalog with a positive relevance to the topic.
pub proof fn law_recommendations_relevant(sessions: Seq<Session>, topic: Seq<char>, max: nat)
    ensures
        recommended(sessions, topic, max).len() <= max,
        forall|k: int|
            0 <= k < recommended(sessions, topic, max).len() ==> {
                &&& sessions.contains(#[trigger] recommended(sessions, topic, max)[k])
                &&& relevance(recommended(sessions, topic, max)[k], topic_keywords(topic)) > 0
            },
{
    let rel = relevances(sessions, topic);
    lemma_ranking(rel);
    let order = ranking(rel);
    let r = recommended(sessions, topic, max);
    assert forall|k: int| 0 <= k < r.len() implies {
        &&& sessions.contains(#[trigger] r[k])
        &&& relevance(r[k], topic_keywords(topic)) > 0
    } by {
        assert(0 <= order[k] < sessions.len() && rel[order[k]] > 0);
        assert(r[k] == sessions[order[k]]);
    }
}

/// The most relevant recommendations come first.
pub proof fn law_recommendations_ordered(sessions: Seq<Session>, topic: Seq<char>, max: nat)
    ensures
        forall|a: int, b: int|
            0 <= a < b < recommended(sessions, topic, max).len() ==> relevance(
                #[trigger] recommended(sessions, topic, max)[a],
                topic_keywords(topic),
            ) >= relevance(#[trigger] recommended(sessions, topic, max)[b], topic_keywords(topic)),
{
    let rel = relevances(sessions, topic);
    lemma_ranking(rel);
    let order = ranking(rel);
    let r = recommended(sessions, topic, max);
    assert forall|a: int, b: int| 0 <= a < b < r.len() implies relevance(
        #[trigger] r[a],
        topic_keywords(topic),
    ) >= relevance(#[trigger] r[b], topic_keywords(topic)) by {
        assert(ranks_before(rel, order[a], order[b]));
    }
}

/// Every session of positive relevance is recommended unless the
/// recommendations are already `max` long.
pub proof fn law_recommendations_complete(sessions: Seq<Session>, topic: Seq<char>, max: nat)
    ensures
        forall|i: int|
            0 <= i < sessions.len() && relevance(#[trigger] sessions[i], topic_keywords(topic)) > 0
                ==> recommended(sessions, topic, max).contains(sessions[i])
                || recommended(sessions, topic, max).len() == max,
{
    let rel = relevances(sessions, topic);
    lemma_ranking(rel);
    let order = ranking(rel);
    let r = recommended(sessions, topic, max);
    assert forall|i: int|
        0 <= i < sessions.len() && relevance(#[trigger] sessions[i], topic_keywords(topic)) > 0
            implies r.contains(sessions[i]) || r.len() == max by {
        assert(rel[i] > 0);
        assert(order.contains(i));
        let k = choose|k: int| 0 <= k < order.len() && order[k] == i;
        if k < r.len() {
            assert(r[k] == sessions[i]);
        }
    }
}

/// There are as many recommendations as the smaller of `max` and the number
/// of sessions of positive relevance; none where `max` is 0.
pub proof fn law_recommendation_count(sessions: Seq<Session>, topic: Seq<char>, max: nat)
    ensures
        recommended(sessions, topic, max).len() == if max < relevant_count(sessions, topic) {
            max
        } else {
            relevant_count(sessions, topic)
        },
        max == 0 ==> recommended(sessions, topic, max).len() == 0,
{
    lemma_ranking(relevances(sessions, topic));
}

/// A smaller maximum gives a prefix of the recommendations for a larger one.
pub proof fn law_recommendations_prefix(
    sessions: Seq<Session>,
    topic: Seq<char>,
    m1: nat,
    m2: nat,
)
    requires
        m1 <= m2,
    ensures
        recommended(sessions, topic, m1) == recommended(sessions, topic, m2).take(
            recommended(sessions, topic, m1).len() as int,
        ),
{
    assert(recommended(sessions, topic, m1) =~= recommended(sessions, topic, m2).take(
        recommended(sessions, topic, m1).len() as int,
    ));
}

/// A topic without keywords (empty, or only white space) gets no
/// recommendations.
pub proof fn law_no_keywords_no_recommendations(
    sessions: Seq<Session>,
    topic: Seq<char>,
    max: nat,
)
    requires
        topic_keywords(topic).len() == 0,
    ensures
        recommended(sessions, topic, max).len() == 0,
{
    let rel = relevances(sessions, topic);
    lemma_ranking(rel);
    let order = ranking(rel);
    if order.len() > 0 {
        assert(rel[order[0]] > 0);
    }
}

} // verus!
