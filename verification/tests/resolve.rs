use loco::resolve::{
    parses_as_usize,
    build_clarification, format_clarify_question, match_clarification,
    resolve_unspecified_return, Clarification, ClarifyAction, ClarifyCandidate, ResolveOutcome,
};
use loco::topic::{topic_from_s2, S2Decision, TopicDecision};

fn labels(v: &[&str]) -> Vec<String> {
    v.iter().map(|s| s.to_string()).collect()
}

#[test]
fn match_clarification_by_number_and_label() {
    let c = Clarification {
        question: "q".into(),
        candidates: vec![
            ClarifyCandidate {
                label: "今の話題のまま".into(),
                action: ClarifyAction::ContinueCurrent,
            },
            ClarifyCandidate {
                label: "地下鉄について一言".into(),
                action: ClarifyAction::ReturnTo { chunk_index: 0 },
            },
        ],
    };
    assert_eq!(
        match_clarification("2", &c),
        Some(ClarifyAction::ReturnTo { chunk_index: 0 })
    );
    assert_eq!(
        match_clarification("地下鉄", &c),
        Some(ClarifyAction::ReturnTo { chunk_index: 0 })
    );
    assert_eq!(
        match_clarification("1", &c),
        Some(ClarifyAction::ContinueCurrent)
    );
}

#[test]
fn match_clarification_edge_cases() {
    let c = Clarification {
        question: "q".into(),
        candidates: vec![
            ClarifyCandidate {
                label: "Subway Tickets".into(),
                action: ClarifyAction::ReturnTo { chunk_index: 3 },
            },
            ClarifyCandidate {
                label: "cooking".into(),
                action: ClarifyAction::ReturnTo { chunk_index: 1 },
            },
        ],
    };
    assert_eq!(match_clarification("   ", &c), None);
    // Out-of-range number falls through to label matching, which fails here.
    assert_eq!(match_clarification("7", &c), None);
    assert_eq!(
        match_clarification("+2", &c),
        Some(ClarifyAction::ReturnTo { chunk_index: 1 })
    );
    // Case-insensitive label containment.
    assert_eq!(
        match_clarification("SUBWAY TICKETS please", &c),
        Some(ClarifyAction::ReturnTo { chunk_index: 3 })
    );
    // Six-character key of the label.
    assert_eq!(
        match_clarification("more about subway", &c),
        Some(ClarifyAction::ReturnTo { chunk_index: 3 })
    );
    assert_eq!(match_clarification("weather", &c), None);
}

#[test]
fn clarification_question_text() {
    let c = build_clarification(&[1, 0, 1], &labels(&["subway", ""]), true);
    assert_eq!(c.candidates.len(), 3);
    assert_eq!(c.candidates[0].action, ClarifyAction::ContinueCurrent);
    assert_eq!(c.candidates[1].label, "topic #1");
    assert_eq!(c.candidates[1].action, ClarifyAction::ReturnTo { chunk_index: 1 });
    assert_eq!(c.candidates[2].label, "subway");
    assert_eq!(
        c.question,
        "どの話に戻りますか？\n1. 今の話題のまま\n2. topic #1\n3. subway\n番号か話題のキーワードで答えてください。"
    );
    assert_eq!(format_clarify_question(&c.candidates), c.question);
}

#[test]
fn unspecified_return_rules() {
    let l = labels(&["subway", "cooking", "now"]);
    assert_eq!(
        resolve_unspecified_return(Some(0), &[0, 1], true, &l),
        ResolveOutcome::Return { chunk_index: 0 }
    );
    assert_eq!(resolve_unspecified_return(None, &[], true, &l), ResolveOutcome::Continue);
    assert_eq!(resolve_unspecified_return(None, &[], false, &l), ResolveOutcome::New);
    assert_eq!(
        resolve_unspecified_return(None, &[1], true, &l),
        ResolveOutcome::Return { chunk_index: 1 }
    );
    match resolve_unspecified_return(None, &[0, 1], true, &l) {
        ResolveOutcome::NeedsClarification(c) => {
            assert!(c.question.contains("どの話"));
            assert!(c.candidates.len() >= 3);
        }
        other => panic!("expected clarify, got {other:?}"),
    }
}

#[test]
fn s2_decisions_map_to_topics() {
    assert_eq!(topic_from_s2(&S2Decision::Continue), Some(TopicDecision::Continue));
    assert_eq!(topic_from_s2(&S2Decision::New), Some(TopicDecision::New));
    assert_eq!(
        topic_from_s2(&S2Decision::Return { chunk_index: 2 }),
        Some(TopicDecision::Return { chunk_index: 2 })
    );
    assert_eq!(topic_from_s2(&S2Decision::ClarifyPast), None);
}

#[test]
fn usize_parsing_follows_std() {
    for text in ["0", "7", "+3", "0012", "18446744073709551615", "", "+", "-1", "1a", " 1", "18446744073709551616"] {
        assert_eq!(parses_as_usize(text), text.parse::<usize>().is_ok(), "{text:?}");
    }
}
