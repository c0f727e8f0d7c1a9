use loco::expand::{expand_query, looks_deictic};

#[test]
fn long_query_unchanged() {
    let q = "Tell me about the history of the Tokyo subway system in detail";
    assert_eq!(expand_query(q, Some("prior")), q);
}

#[test]
fn short_query_gets_prior() {
    let out = expand_query("なぜ？", Some("地下鉄の話"));
    assert!(out.contains("地下鉄"));
    assert!(out.contains("なぜ"));
}

#[test]
fn deictic_expands() {
    let out = expand_query("それについて詳しく", Some("Gemma 4 E4B"));
    assert!(out.starts_with("Gemma"));
}

#[test]
fn expand_exact_join_and_trims() {
    assert_eq!(expand_query("  why?  ", Some("  subway  ")), "subway\nwhy?");
    assert_eq!(expand_query("   ", Some("prior")), "");
    assert_eq!(expand_query("why?", None), "why?");
    assert_eq!(expand_query("why?", Some("   ")), "why?");
}

#[test]
fn long_deictic_query_still_expands() {
    let q = "What about that long question regarding the subway fares?";
    assert_eq!(
        expand_query(q, Some("subway")),
        format!("subway\n{q}")
    );
    assert!(looks_deictic("THIS one"));
    assert!(!looks_deictic("plain words"));
}
