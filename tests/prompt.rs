use rag_agent::context::{
    assemble_context, augment, SearchHit, MAX_CONTEXT_LEN, RELEVANCE_CUTOFF,
};
use rag_agent::conversation::{
    command_of_trimmed, parse_command, Command, Conversation, RagMiddleware, Role,
};

fn hit(distance: i64, name: &str, content: &str) -> SearchHit {
    SearchHit { distance, source_name: String::from(name), content: String::from(content) }
}

#[test]
fn empty_results_pass_the_query_through() {
    assert_eq!(augment("What is a pair?", &Vec::new()), "What is a pair?");
    assert_eq!(assemble_context("q", &Vec::new(), 0, 0), "q");
}

#[test]
fn prompt_cites_sources_in_order() {
    let hits = vec![hit(100, "a.md", "alpha"), hit(200, "b.sol", "beta")];
    assert_eq!(
        augment("Explain", &hits),
        "You have access to the following relevant documentation: \n\n\
         Source: a.md\nContent: alpha\n\n---\n\n\
         Source: b.sol\nContent: beta\n\n --- \n\nUser: Explain"
    );
}

#[test]
fn admission_stops_at_first_overflow() {
    let hits = vec![
        hit(1, "a", &"x".repeat(20000)),
        hit(2, "b", &"y".repeat(15000)),
        hit(3, "c", &"z".repeat(100)),
    ];
    let r = assemble_context("q", &hits, RELEVANCE_CUTOFF, 30000);
    let expected = format!(
        "You have access to the following relevant documentation: \n\nSource: a\nContent: {}\n\n --- \n\nUser: q",
        "x".repeat(20000)
    );
    assert_eq!(r, expected);
    assert!(!r.contains('z'));
    assert_eq!(augment("q", &hits), expected);
    assert_eq!(MAX_CONTEXT_LEN, 30000);
}

#[test]
fn budget_is_counted_in_characters() {
    let hits = vec![hit(1, "a", "ééé"), hit(2, "b", "üü")];
    let r = assemble_context("q", &hits, RELEVANCE_CUTOFF, 5);
    assert!(r.contains("Content: ééé"));
    assert!(r.contains("Content: üü"));
    let r = assemble_context("q", &hits, RELEVANCE_CUTOFF, 4);
    assert!(r.contains("Content: ééé"));
    assert!(!r.contains("üü"));
}

#[test]
fn threshold_excludes_exact_cutoff() {
    let hits = vec![hit(900_000_000, "far.md", "at the cutoff"), hit(899_000_000, "near.md", "just inside")];
    let r = augment("q", &hits);
    assert!(!r.contains("at the cutoff"));
    assert!(!r.contains("far.md"));
    assert!(r.contains("Source: near.md\nContent: just inside"));
    assert_eq!(RELEVANCE_CUTOFF, 900_000_000);
}

#[test]
fn irrelevant_results_give_empty_context() {
    let hits = vec![hit(950_000_000, "far.md", "far away")];
    assert_eq!(
        augment("q", &hits),
        "You have access to the following relevant documentation: \n\n\n\n --- \n\nUser: q"
    );
}

#[test]
fn same_results_give_same_prompt() {
    let hits = vec![hit(5, "a.md", "alpha"), hit(7, "b.md", "beta")];
    assert_eq!(augment("q", &hits), augment("q", &hits));
}

#[test]
fn retrieval_clears_history() {
    let mut conv = Conversation::new();
    conv.record_turn("hello", Some("hi"));
    assert_eq!(conv.history().len(), 2);
    let same = conv.query_rag("plain", &Vec::new());
    assert_eq!(same, "plain");
    assert_eq!(conv.history().len(), 2);
    let r = conv.query_rag("docs?", &vec![hit(1, "a.md", "alpha")]);
    assert!(r.ends_with("User: docs?"));
    assert!(conv.history().is_empty());
}

#[test]
fn failed_completion_keeps_the_message() {
    let mut conv = Conversation::new();
    conv.record_turn("first", Some("one"));
    conv.record_turn("second", None);
    let h = conv.history();
    assert_eq!(h.len(), 3);
    assert_eq!(h[0].role, Role::User);
    assert_eq!(h[0].content, "first");
    assert_eq!(h[1].role, Role::Assistant);
    assert_eq!(h[1].content, "one");
    assert_eq!(h[2].role, Role::User);
    assert_eq!(h[2].content, "second");
    conv.record_turn("third", Some("three"));
    assert_eq!(conv.history().len(), 5);
    assert_eq!(conv.history()[4].content, "three");
}

#[test]
fn clear_forgets_turns() {
    let mut conv = Conversation::new();
    conv.record_turn("a", Some("b"));
    conv.clear();
    assert!(conv.history().is_empty());
}

#[test]
fn quit_ends_the_session() {
    assert_eq!(parse_command("quit"), Command::Quit);
    assert_eq!(parse_command("  quit \n"), Command::Quit);
    assert_eq!(parse_command("quit now"), Command::Ask);
    assert_eq!(parse_command("Quit"), Command::Ask);
    assert_eq!(parse_command(""), Command::Ask);
    assert_eq!(command_of_trimmed("quit"), Command::Quit);
    assert_eq!(command_of_trimmed(" quit"), Command::Ask);
}
