use loco::eval::{
    case_result, eval_clarify_case, eval_deixis_case, eval_expand_case, match_outcome,
    ActionExpect, ClarifyCandidateSpec, DeixisKindExpect, OutcomeExpect, SuiteReport,
};
use loco::resolve::{build_clarification, ClarifyAction, ResolveOutcome};

#[test]
fn deixis_case_passes_and_fails() {
    assert!(eval_deixis_case("さっきの話", DeixisKindExpect::ReturnUnspecified).is_ok());
    assert_eq!(
        eval_deixis_case("さっきの話", DeixisKindExpect::Plain).unwrap_err(),
        "deixis got ReturnUnspecified, expect Plain"
    );
}

#[test]
fn expand_case_messages() {
    assert!(eval_expand_case("なぜ？", Some("地下鉄"), None, Some("地下鉄"), false).is_ok());
    assert_eq!(
        eval_expand_case("なぜ？", Some("地下鉄"), None, None, true).unwrap_err(),
        "expected unchanged `なぜ？`, got `地下鉄\nなぜ？`"
    );
    assert_eq!(
        eval_expand_case("why", None, Some("how"), None, false).unwrap_err(),
        "expanded got `why`, expect `how`"
    );
}

#[test]
fn clarify_case_messages() {
    let cands = vec![
        ClarifyCandidateSpec { label: "subway".into(), action: ActionExpect::ReturnTo { chunk_index: 0 } },
        ClarifyCandidateSpec { label: "stay".into(), action: ActionExpect::ContinueCurrent },
    ];
    assert!(eval_clarify_case("1", &cands, Some(ActionExpect::ReturnTo { chunk_index: 0 }), false).is_ok());
    assert_eq!(
        eval_clarify_case("2", &cands, Some(ActionExpect::ReturnTo { chunk_index: 0 }), false).unwrap_err(),
        "action got ContinueCurrent, expect ReturnTo { chunk_index: 0 }"
    );
    assert_eq!(
        eval_clarify_case("zzz", &cands, Some(ActionExpect::ContinueCurrent), false).unwrap_err(),
        "no match for `zzz`, expect ContinueCurrent"
    );
    assert!(eval_clarify_case("zzz", &cands, None, true).is_ok());
    assert_eq!(
        eval_clarify_case("subway", &cands, None, true).unwrap_err(),
        "expected no match for `subway`, got ReturnTo { chunk_index: 0 }"
    );
    assert!(eval_clarify_case("stay", &cands, None, false).is_ok());
    assert_eq!(eval_clarify_case("zzz", &cands, None, false).unwrap_err(), "no match for `zzz`");
    assert_eq!(
        ActionExpect::from_action(ClarifyAction::ReturnTo { chunk_index: 4 }),
        ActionExpect::ReturnTo { chunk_index: 4 }
    );
}

#[test]
fn outcome_expectations() {
    assert!(match_outcome(&ResolveOutcome::New, &OutcomeExpect::New).is_ok());
    assert!(match_outcome(
        &ResolveOutcome::Return { chunk_index: 1 },
        &OutcomeExpect::Return { chunk_index: 1 }
    )
    .is_ok());
    assert!(match_outcome(&ResolveOutcome::Continue, &OutcomeExpect::New)
        .unwrap_err()
        .starts_with("outcome got Continue"));
    let c = build_clarification(&[0, 1], &[], true);
    assert_eq!(
        match_outcome(
            &ResolveOutcome::NeedsClarification(c),
            &OutcomeExpect::NeedsClarification { min_candidates: Some(5), question_contains: None }
        )
        .unwrap_err(),
        "clarify candidates 3 < min 5"
    );
}

#[test]
fn outcome_mismatch_text() {
    assert_eq!(
        match_outcome(&ResolveOutcome::Return { chunk_index: 2 }, &OutcomeExpect::Return { chunk_index: 1 })
            .unwrap_err(),
        "outcome got Return { chunk_index: 2 }, expect Return { chunk_index: 1 }"
    );
    let c = build_clarification(&[0, 1], &["say \"hi\"".to_string(), "b".to_string()], false);
    let got = ResolveOutcome::NeedsClarification(c);
    let expect = OutcomeExpect::NeedsClarification { min_candidates: Some(2), question_contains: None };
    let msg = match_outcome(&got, &OutcomeExpect::Continue).unwrap_err();
    assert_eq!(msg, format!("outcome got {got:?}, expect Continue"));
    let msg = match_outcome(&ResolveOutcome::New, &expect).unwrap_err();
    assert_eq!(msg, format!("outcome got New, expect {expect:?}"));
    let with_text =
        OutcomeExpect::NeedsClarification { min_candidates: None, question_contains: Some("x\ny".into()) };
    let msg = match_outcome(&ResolveOutcome::Continue, &with_text).unwrap_err();
    assert_eq!(msg, format!("outcome got Continue, expect {with_text:?}"));
}

#[test]
fn report_counts_and_text() {
    let results = vec![
        case_result("a", Ok(())),
        case_result("b", Err("boom".into())),
    ];
    let report = SuiteReport::from_results(String::new(), results);
    assert_eq!(report.passed, 1);
    assert_eq!(report.failed, 1);
    assert!(!report.all_passed());
    assert_eq!(
        report.render(),
        "suite `(unnamed)`: 1/2 passed\n  PASS a\n  FAIL b: boom\n"
    );
}

#[test]
fn parses_and_runs_inline_deixis() {
    let outcome = eval_deixis_case("さっきの話", DeixisKindExpect::ReturnUnspecified);
    let report = SuiteReport::from_results("smoke".to_string(), vec![case_result("u1", outcome)]);
    assert!(report.all_passed(), "{}", report.render());
    assert_eq!(report.passed, 1);
}
