use susecon_agent::ranking::rank;
use susecon_agent::sessions::{LoweredSession, Session, SessionCatalog};

fn session(id: &str, title: &str, speaker: &str, abstract_text: &str, track: &str, day: &str, time: &str, room: &str, tags: &[&str]) -> Session {
    Session {
        id: id.to_string(),
        title: title.to_string(),
        speaker: speaker.to_string(),
        abstract_text: abstract_text.to_string(),
        track: track.to_string(),
        day: day.to_string(),
        time: time.to_string(),
        room: room.to_string(),
        tags: tags.iter().map(|t| t.to_string()).collect(),
    }
}

fn sample_sessions() -> SessionCatalog {
    SessionCatalog {
        sessions: vec![
            session(
                "SC-101",
                "Agentic AI on Kubernetes",
                "Dr. Elena Vasquez",
                "Deploy autonomous AI agents on Kubernetes using MCP.",
                "AI/ML",
                "Tuesday",
                "09:00",
                "Hall A1",
                &["ai", "kubernetes", "mcp"],
            ),
            session(
                "SC-102",
                "LLM Inference at the Edge",
                "Marcus Chen",
                "Deploy quantized language models on edge nodes.",
                "AI/ML",
                "Tuesday",
                "11:00",
                "Hall A2",
                &["ai", "edge", "llm"],
            ),
            session(
                "SC-103",
                "Kubernetes Memory Management",
                "Priya Sharma",
                "Kubernetes swap support and memory QoS for AI workloads.",
                "Kubernetes",
                "Tuesday",
                "14:00",
                "Hall B1",
                &["kubernetes", "swap", "memory"],
            ),
            session(
                "SC-104",
                "Security Best Practices for Cloud Native",
                "Alex Johnson",
                "Learn container security, network policies, and supply chain safety.",
                "Security",
                "Wednesday",
                "10:00",
                "Hall C1",
                &["security", "containers"],
            ),
        ],
    }
}

#[test]
fn test_recommend_by_title() {
    let catalog = sample_sessions();
    let results = catalog.recommend("kubernetes", 5);

    assert!(!results.is_empty());
    assert!(results.iter().any(|s| s.id == "SC-101"));
    assert!(results.iter().any(|s| s.id == "SC-103"));
}

#[test]
fn test_recommend_by_tag() {
    let catalog = sample_sessions();
    let results = catalog.recommend("edge", 5);

    assert_eq!(results.len(), 1);
    assert_eq!(results[0].id, "SC-102");
}

#[test]
fn test_recommend_by_track() {
    let catalog = sample_sessions();
    let results = catalog.recommend("security", 5);

    assert!(!results.is_empty());
    assert!(results.iter().any(|s| s.track == "Security"));
}

#[test]
fn test_recommend_by_abstract() {
    let catalog = sample_sessions();
    let results = catalog.recommend("swap", 5);

    assert!(!results.is_empty());
    assert!(results.iter().any(|s| s.id == "SC-103"));
}

#[test]
fn test_recommend_case_insensitive() {
    let catalog = sample_sessions();

    let lower = catalog.recommend("ai", 5);
    let upper = catalog.recommend("AI", 5);
    let mixed = catalog.recommend("Ai", 5);

    assert_eq!(lower.len(), upper.len());
    assert_eq!(lower.len(), mixed.len());
}

#[test]
fn test_recommend_no_results() {
    let catalog = sample_sessions();
    let results = catalog.recommend("nonexistent topic xyz", 5);

    assert!(results.is_empty());
}

#[test]
fn test_recommend_max_results() {
    let catalog = sample_sessions();
    let results = catalog.recommend("ai", 2);

    assert!(results.len() <= 2);
}

#[test]
fn test_recommend_multiple_keywords() {
    let catalog = sample_sessions();
    let results = catalog.recommend("ai kubernetes", 5);

    assert!(!results.is_empty());
    assert_eq!(results[0].id, "SC-101");
}

#[test]
fn test_recommend_sorted_by_relevance() {
    let catalog = sample_sessions();
    let results = catalog.recommend("kubernetes", 5);

    assert!(results.len() >= 2);
    let first_ids: Vec<_> = results.iter().take(2).map(|s| s.id.as_str()).collect();
    assert!(first_ids.contains(&"SC-101") || first_ids.contains(&"SC-103"));
}

#[test]
fn test_empty_catalog() {
    let catalog = SessionCatalog { sessions: vec![] };
    let results = catalog.recommend("anything", 5);
    assert!(results.is_empty());
}

fn ids(results: &[&Session]) -> Vec<String> {
    results.iter().map(|s| s.id.clone()).collect()
}

#[test]
fn recommend_orders_by_score_then_catalog_order() {
    let catalog = sample_sessions();
    // kubernetes: SC-101 title 3 + tag 2 + abstract 1 = 6; SC-103 title 3 + track 2 + tag 2 + abstract 1 = 8.
    assert_eq!(ids(&catalog.recommend("kubernetes", 5)), vec!["SC-103", "SC-101"]);
    // ai: SC-101 title 3 + track 2 + tag 2 + abstract 1 = 8; SC-102 track 2 + tag 2 = 4;
    // SC-104: "ai" occurs in the tag "containers", 2, and in "chain" of the abstract, 1;
    // SC-103: abstract 1.
    assert_eq!(ids(&catalog.recommend("ai", 5)), vec!["SC-101", "SC-102", "SC-104", "SC-103"]);
    // security: SC-104 title 3 + track 2 + tag 2 + abstract 1; nothing else.
    assert_eq!(ids(&catalog.recommend("security", 5)), vec!["SC-104"]);
    // "deploy": SC-101 and SC-102 tie at 1 and keep catalog order.
    assert_eq!(ids(&catalog.recommend("Deploy", 5)), vec!["SC-101", "SC-102"]);
}

#[test]
fn recommend_truncates_to_the_best() {
    let catalog = sample_sessions();
    assert_eq!(ids(&catalog.recommend("ai", 2)), vec!["SC-101", "SC-102"]);
    assert_eq!(ids(&catalog.recommend("ai", 3)), vec!["SC-101", "SC-102", "SC-104"]);
    assert!(catalog.recommend("ai", 0).is_empty());
}

#[test]
fn recommend_counts_repeated_keywords_and_whitespace() {
    let catalog = sample_sessions();
    // "edge" twice doubles SC-102's score but changes nothing else.
    assert_eq!(ids(&catalog.recommend("  edge\tEDGE\n", 5)), vec!["SC-102"]);
    // a topic of white space only has no keywords
    assert!(catalog.recommend(" \t\u{3000} ", 5).is_empty());
    assert!(catalog.recommend("", 5).is_empty());
}

#[test]
fn recommend_lowercases_fields_and_topic() {
    let catalog = SessionCatalog {
        sessions: vec![session("X", "ÉTÉ Überblick", "S", "", "", "", "", "", &[])],
    };
    assert_eq!(ids(&catalog.recommend("été", 5)), vec!["X"]);
    assert_eq!(ids(&catalog.recommend("ÜBER", 5)), vec!["X"]);
}

#[test]
fn recommend_or_default_takes_five() {
    let sessions: Vec<Session> = (0..8)
        .map(|i| session(&format!("S{}", i), "rust", "", "", "", "", "", "", &[]))
        .collect();
    let catalog = SessionCatalog { sessions };
    assert_eq!(catalog.recommend_or_default("Rust", None).len(), 5);
    assert_eq!(catalog.recommend_or_default("Rust", Some(7)).len(), 7);
    assert_eq!(ids(&catalog.recommend_or_default("Rust", Some(3))), vec!["S0", "S1", "S2"]);
}

#[test]
fn find_by_id_returns_the_first_match() {
    let mut catalog = sample_sessions();
    catalog.sessions.push(session("SC-102", "Duplicate", "", "", "", "", "", "", &[]));
    assert_eq!(catalog.find_by_id("SC-102").map(|s| s.title.as_str()), Some("LLM Inference at the Edge"));
    assert!(catalog.find_by_id("SC-999").is_none());
    assert!(catalog.find_by_id("sc-101").is_none());
}

fn chars(s: &str) -> Vec<char> {
    s.chars().collect()
}

#[test]
fn rank_puts_best_first_and_keeps_ties_in_order() {
    assert_eq!(rank(&vec![3, 0, 8, 3]), vec![2, 0, 3]);
    assert_eq!(rank(&vec![1, 1, 1]), vec![0, 1, 2]);
    assert!(rank(&vec![0, 0]).is_empty());
    assert!(rank(&vec![]).is_empty());
}

#[test]
fn lowered_session_scores_keywords() {
    let l = LoweredSession {
        title: chars("agentic ai on kubernetes"),
        track: chars("ai/ml"),
        tags: vec![chars("ai"), chars("kubernetes")],
        abstract_text: chars("deploy agents"),
    };
    assert_eq!(l.keyword_score(&chars("ai")), 7);
    assert_eq!(l.keyword_score(&chars("deploy")), 1);
    assert_eq!(l.keyword_score(&chars("kube")), 5);
    assert!(l.tag_matches(&chars("kube")));
    assert!(!l.tag_matches(&chars("ml")));
    assert_eq!(l.relevance(&vec![chars("ai"), chars("deploy"), chars("ai")]), 15);
    assert_eq!(l.relevance(&vec![]), 0);
    let from_session = LoweredSession::of(&sample_sessions().sessions[0]);
    assert_eq!(from_session.title, chars("agentic ai on kubernetes"));
    assert_eq!(from_session.tags, vec![chars("ai"), chars("kubernetes"), chars("mcp")]);
}
