use susecon_agent::replies::render_recommendations;
use susecon_agent::sessions::{Session, SessionCatalog};
use susecon_agent::tools::{
    details_url, recommend_query, details_step, recommend_step, render_details, DetailsEvent, RecommendEvent, RequestFailure, ToolAction,
};

fn session(id: &str, title: &str, abstract_text: &str, track: &str, tags: &[&str]) -> Session {
    Session {
        id: id.to_string(),
        title: title.to_string(),
        speaker: "Alice".to_string(),
        abstract_text: abstract_text.to_string(),
        track: track.to_string(),
        day: "Tuesday".to_string(),
        time: "09:00".to_string(),
        room: "A1".to_string(),
        tags: tags.iter().map(|t| t.to_string()).collect(),
    }
}

fn test_catalog() -> SessionCatalog {
    SessionCatalog {
        sessions: vec![
            session("T-1", "AI on Kubernetes", "Deploy agents on k8s.", "AI/ML", &["ai", "kubernetes"]),
            session("T-2", "Zero-Trust Security", "Network policies and NeuVector.", "Security", &["security", "neuvector"]),
        ],
    }
}

fn reply(a: ToolAction) -> (bool, String) {
    match a {
        ToolAction::Reply(r) => (r.is_error, r.text),
        ToolAction::ReadBody => panic!("expected a reply"),
    }
}

#[test]
fn recommend_sessions_returns_matching_results() {
    let text = test_catalog().recommendation_reply("AI", Some(5));
    assert_eq!(
        text,
        "Found 1 SUSECon session(s) matching 'AI':\n\n\
         1. **AI on Kubernetes**\n   Speaker: Alice\n   Track: AI/ML | Tuesday @ 09:00 | Room: A1\n   Deploy agents on k8s.\n   Tags: ai, kubernetes\n\n"
    );
    assert!(text.contains("AI on Kubernetes"));
}

#[test]
fn recommend_sessions_default_max_results() {
    let text = test_catalog().recommendation_reply("ai", None);
    assert!(text.starts_with("Found 1 SUSECon session(s) matching 'ai'"));
}

#[test]
fn recommend_sessions_no_match() {
    let text = test_catalog().recommendation_reply("nonexistent_topic_xyz", Some(5));
    assert_eq!(
        text,
        "No sessions found matching 'nonexistent_topic_xyz'. Try broader keywords like 'AI', 'Kubernetes', 'security', or 'edge'."
    );
    assert!(text.contains("No sessions found"));
}

#[test]
fn recommend_sessions_respects_max_results() {
    let text = test_catalog().recommendation_reply("ai kubernetes security", Some(1));
    assert!(text.contains("1."));
    assert!(!text.contains("2."));
    let all = test_catalog().recommendation_reply("ai kubernetes security", None);
    assert!(all.starts_with("Found 2 SUSECon session(s) matching 'ai kubernetes security':\n\n1. **AI on Kubernetes**"));
    assert!(all.contains("\n\n2. **Zero-Trust Security**\n"));
}

#[test]
fn render_numbers_entries_from_one() {
    let catalog = test_catalog();
    let refs: Vec<&Session> = catalog.sessions.iter().rev().collect();
    let text = render_recommendations("x", &refs);
    let expected = format!(
        "Found 2 SUSECon session(s) matching 'x':\n\n{}{}",
        "1. **Zero-Trust Security**\n   Speaker: Alice\n   Track: Security | Tuesday @ 09:00 | Room: A1\n   Network policies and NeuVector.\n   Tags: security, neuvector\n\n",
        "2. **AI on Kubernetes**\n   Speaker: Alice\n   Track: AI/ML | Tuesday @ 09:00 | Room: A1\n   Deploy agents on k8s.\n   Tags: ai, kubernetes\n\n",
    );
    assert_eq!(text, expected);
}

#[test]
fn recommend_tool_failures() {
    let (err, text) = reply(recommend_step("ai", &RecommendEvent::SendFailed(RequestFailure::Connect)));
    assert!(err);
    assert_eq!(text, "Recommendation backend is unavailable (connection refused). The backend pod may have been OOM-killed. Try again shortly.");
    let (err, text) = reply(recommend_step("ai", &RecommendEvent::SendFailed(RequestFailure::Timeout)));
    assert!(err);
    assert_eq!(text, "Recommendation backend timed out. The backend pod may be under memory pressure or OOM-killed. Try again shortly.");
    let (err, text) = reply(recommend_step("ai", &RecommendEvent::SendFailed(RequestFailure::Other)));
    assert!(err);
    assert_eq!(text, "Recommendation backend request failed unexpectedly.");
    let (err, text) = reply(recommend_step(
        "ai",
        &RecommendEvent::Answered { code: 503, status: "503 Service Unavailable".to_string() },
    ));
    assert!(err);
    assert_eq!(text, "Recommendation backend returned HTTP 503 Service Unavailable. The backend may be unhealthy or restarting.");
    assert!(matches!(
        recommend_step("ai", &RecommendEvent::Answered { code: 200, status: "200 OK".to_string() }),
        ToolAction::ReadBody
    ));
    let (err, text) = reply(recommend_step("ai", &RecommendEvent::BodyRead(None)));
    assert!(err);
    assert_eq!(text, "Failed to parse response from recommendation backend. The backend may have been killed mid-response.");
}

#[test]
fn recommend_tool_lists_backend_sessions() {
    let (err, text) = reply(recommend_step("edge", &RecommendEvent::BodyRead(Some(vec![]))));
    assert!(!err);
    assert!(text.starts_with("No sessions found matching 'edge'."));
    let sessions = test_catalog().sessions;
    let (err, text) = reply(recommend_step("AI", &RecommendEvent::BodyRead(Some(sessions))));
    assert!(!err);
    assert_eq!(
        text,
        "Found 2 SUSECon session(s) matching 'AI':\n\n\
         ID: T-1\n Title: **AI on Kubernetes**\n Speaker: Alice\n Track: AI/ML | Tuesday @ 09:00 | Room: A1\n Deploy agents on k8s.\n Tags: ai, kubernetes\n\n\
         ID: T-2\n Title: **Zero-Trust Security**\n Speaker: Alice\n Track: Security | Tuesday @ 09:00 | Room: A1\n Network policies and NeuVector.\n Tags: security, neuvector\n\n"
    );
}

#[test]
fn details_tool_steps() {
    let (err, text) = reply(details_step("T-9", &DetailsEvent::SendFailed(RequestFailure::Timeout)));
    assert!(err);
    assert_eq!(text, "Recommendation backend timed out. Try again shortly.");
    let (err, text) = reply(details_step("T-9", &DetailsEvent::SendFailed(RequestFailure::Connect)));
    assert!(err);
    assert!(text.starts_with("Recommendation backend is unavailable"));
    let (err, text) = reply(details_step(
        "T-9",
        &DetailsEvent::Answered { code: 404, status: "404 Not Found".to_string() },
    ));
    assert!(!err);
    assert_eq!(text, "No session found with ID 'T-9'. Use recommend_sessions to search by topic first.");
    let (err, text) = reply(details_step(
        "T-9",
        &DetailsEvent::Answered { code: 500, status: "500 Internal Server Error".to_string() },
    ));
    assert!(err);
    assert_eq!(text, "Recommendation backend returned HTTP 500 Internal Server Error.");
    assert!(matches!(
        details_step("T-1", &DetailsEvent::Answered { code: 204, status: "204 No Content".to_string() }),
        ToolAction::ReadBody
    ));
    let (err, text) = reply(details_step("T-1", &DetailsEvent::BodyRead(None)));
    assert!(err);
    assert_eq!(text, "Failed to parse response from recommendation backend.");
    let s = test_catalog().sessions[0].clone();
    let (err, text) = reply(details_step("T-1", &DetailsEvent::BodyRead(Some(s.clone()))));
    assert!(!err);
    assert_eq!(text, render_details(&s));
    assert_eq!(
        text,
        "ID: T-1\nTitle: AI on Kubernetes\nSpeaker: Alice\nTrack: AI/ML\nSchedule: Tuesday @ 09:00 | Room: A1\nTags: ai, kubernetes\n\nAbstract:\nDeploy agents on k8s."
    );
}

#[test]
fn backend_session_detail() {
    let catalog = test_catalog();
    assert_eq!(catalog.session_detail("T-2").map(|s| s.title.as_str()), Ok("Zero-Trust Security"));
    assert_eq!(catalog.session_detail("T-3").map(|s| s.title.as_str()), Err("Session 'T-3' not found".to_string()));
}

#[test]
fn agent_requests() {
    let q = recommend_query("http://localhost:8081", "AI", None);
    assert_eq!(q.url, "http://localhost:8081/recommend");
    assert_eq!(q.topic, "AI");
    assert_eq!(q.max_results, 5);
    assert_eq!(recommend_query("http://b", "edge", Some(2)).max_results, 2);
    assert_eq!(details_url("http://localhost:8081", "TUTORIAL-1137"), "http://localhost:8081/session/TUTORIAL-1137");
}
