use ellen_rust_backend::parser::{
    parse_llm_response, validate_expression, validate_motion, DEFAULT_EXPRESSION, DEFAULT_MOTION,
};

#[test]
fn test_parse_basic() {
    let raw = "[motion:idle][exp:lazy] おはよう、ご主人様。";
    let parsed = parse_llm_response(raw);
    assert_eq!(parsed.motion_id, "idle");
    assert_eq!(parsed.expression_id, "lazy");
    assert_eq!(parsed.clean_text.trim(), "おはよう、ご主人様。");
    assert_eq!(parsed.raw_text, raw);
}

#[test]
fn test_parse_invalid_defaults() {
    let raw = "[motion:invalid][exp:invalid] はぁ…何か用？";
    let parsed = parse_llm_response(raw);
    assert_eq!(parsed.motion_id, DEFAULT_MOTION);
    assert_eq!(parsed.expression_id, DEFAULT_EXPRESSION);
    assert_eq!(parsed.clean_text.trim(), "はぁ…何か用？");
}

#[test]
fn test_parse_no_tags() {
    let raw = "plain text without tags";
    let parsed = parse_llm_response(raw);
    assert_eq!(parsed.motion_id, DEFAULT_MOTION);
    assert_eq!(parsed.expression_id, DEFAULT_EXPRESSION);
    assert_eq!(parsed.clean_text, "plain text without tags");
    assert_eq!(parsed.raw_text, raw);
}

#[test]
fn test_parse_only_exp() {
    let raw = "[exp:maid] はい、承知しました。";
    let parsed = parse_llm_response(raw);
    assert_eq!(parsed.motion_id, DEFAULT_MOTION);
    assert_eq!(parsed.expression_id, "maid");
    assert_eq!(parsed.clean_text.trim(), "はい、承知しました。");
}

#[test]
fn test_parse_diverse_motion_exp() {
    let cases = [
        ("[motion:idle2][exp:happy] Hehe...", "idle2", "happy"),
        ("[motion:alert][exp:predator] ...噛んでもいい？", "alert", "predator"),
        ("[motion:shy_fidget][exp:shy] べ、別に…", "shy_fidget", "shy"),
        ("[motion:hangry_sway][exp:hangry] 飴をよこしなさい…", "hangry_sway", "hangry"),
        ("[motion:lazy_stretch][exp:lazy] はぁ…眠い…", "lazy_stretch", "lazy"),
        ("[motion:alert][exp:surprised] えっ…！？", "alert", "surprised"),
    ];

    for (raw, expected_motion, expected_exp) in cases {
        let parsed = parse_llm_response(raw);
        assert_eq!(parsed.motion_id, expected_motion, "motion mismatch for: {raw}");
        assert_eq!(parsed.expression_id, expected_exp, "expression mismatch for: {raw}");
        assert!(!parsed.clean_text.contains('['), "clean_text still contains tags: {raw}");
    }
}

#[test]
fn test_parse_multiple_tags_uses_first() {
    let raw = "[motion:idle][exp:lazy][motion:alert] テキスト";
    let parsed = parse_llm_response(raw);
    assert_eq!(parsed.motion_id, "idle");
    assert_eq!(parsed.expression_id, "lazy");
    assert!(!parsed.clean_text.contains("[motion:"));
    assert!(!parsed.clean_text.contains("[exp:"));
}

#[test]
fn test_parse_empty_string() {
    let parsed = parse_llm_response("");
    assert_eq!(parsed.motion_id, DEFAULT_MOTION);
    assert_eq!(parsed.expression_id, DEFAULT_EXPRESSION);
    assert_eq!(parsed.clean_text, "");
    assert_eq!(parsed.raw_text, "");
}

#[test]
fn test_parse_whitespace_only() {
    let parsed = parse_llm_response("   ");
    assert_eq!(parsed.motion_id, DEFAULT_MOTION);
    assert_eq!(parsed.expression_id, DEFAULT_EXPRESSION);
    assert_eq!(parsed.clean_text, "   ");
}

#[test]
fn test_parse_with_numbers_and_underscores() {
    let raw = "[motion:idle2][exp:maid2] テスト";
    let parsed = parse_llm_response(raw);
    assert_eq!(parsed.motion_id, "idle2");
    assert_eq!(parsed.expression_id, DEFAULT_EXPRESSION);
}

#[test]
fn parse_first_tag_wins_even_when_invalid() {
    // The first motion tag decides, even when it is not whitelisted.
    let parsed = parse_llm_response("[motion:dance][motion:alert] x");
    assert_eq!(parsed.motion_id, "idle");
    assert_eq!(parsed.clean_text, " x");
}

#[test]
fn parse_malformed_tags_are_kept() {
    // Empty identifiers and foreign characters do not form tags.
    let raw = "[motion:][exp:a-b][motion:idle]";
    let parsed = parse_llm_response(raw);
    assert_eq!(parsed.motion_id, "idle");
    assert_eq!(parsed.expression_id, "lazy");
    assert_eq!(parsed.clean_text, "[motion:][exp:a-b]");
}

#[test]
fn parse_tags_inside_text_are_removed() {
    let parsed = parse_llm_response("a[exp:shy]b[motion:alert]c");
    assert_eq!(parsed.motion_id, "alert");
    assert_eq!(parsed.expression_id, "shy");
    assert_eq!(parsed.clean_text, "abc");
}

#[test]
fn parse_untagged_text_is_kept_exactly() {
    let raw = "はぁ…残業代出るの？ (no tags) {x}";
    let parsed = parse_llm_response(raw);
    assert_eq!(parsed.clean_text, raw);
    assert_eq!(parsed.motion_id, DEFAULT_MOTION);
    assert_eq!(parsed.expression_id, DEFAULT_EXPRESSION);
}

#[test]
fn parse_leading_pair_then_rest() {
    let parsed = parse_llm_response("[motion:shy_fidget][exp:shy]…[exp:maid]尻尾");
    assert_eq!(parsed.motion_id, "shy_fidget");
    assert_eq!(parsed.expression_id, "shy");
    assert_eq!(parsed.clean_text, "…尻尾");
}

#[test]
fn parse_stripping_can_join_fragments() {
    // Removing an inner tag may bring the pieces of another tag together;
    // the removal is a single left-to-right pass.
    let parsed = parse_llm_response("[mo[exp:happy]tion:alert]");
    assert_eq!(parsed.clean_text, "[motion:alert]");
    assert_eq!(parsed.motion_id, "idle");
    assert_eq!(parsed.expression_id, "happy");
}

#[test]
fn validate_whitelists() {
    for m in ["idle", "idle2", "lazy_stretch", "alert", "shy_fidget", "hangry_sway"] {
        assert_eq!(validate_motion(m), m);
    }
    assert_eq!(validate_motion("Idle"), "idle");
    assert_eq!(validate_motion(""), "idle");
    for e in ["lazy", "maid", "predator", "hangry", "shy", "surprised", "happy"] {
        assert_eq!(validate_expression(e), e);
    }
    assert_eq!(validate_expression("angry"), "lazy");
}
