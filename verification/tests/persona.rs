use ellen_rust_backend::persona::{Persona, SYSTEM_PROMPT};
use ellen_rust_backend::parser::parse_llm_response;

#[test]
fn test_persona_new() {
    let p = Persona::new();
    let prompt = p.system_prompt();
    assert!(!prompt.is_empty());
    assert!(prompt.contains("エレン・ジョー"));
    assert!(prompt.contains("[motion:"));
    assert!(prompt.contains("[exp:"));
}

#[test]
fn test_character_info() {
    let p = Persona::new();
    let info = p.character_info();
    assert_eq!(info.name, "Ellen Joe");
    assert_eq!(info.name_jp, "エレン・ジョー");
    assert_eq!(info.cv, "Shion Wakayama");
    assert_eq!(info.cv_jp, "若山詩音");
    assert_eq!(info.game, "Zenless Zone Zero");
    assert_eq!(info.trust_level, 100);
    assert!(info.allow_tail_touch);
}

#[test]
fn test_default() {
    let p: Persona = Default::default();
    assert!(!p.system_prompt().is_empty());
}

#[test]
fn prompt_lists_every_whitelisted_id() {
    let prompt = Persona::new().system_prompt();
    assert_eq!(prompt, SYSTEM_PROMPT);
    for m in ["idle", "idle2", "lazy_stretch", "alert", "shy_fidget", "hangry_sway"] {
        assert!(prompt.contains(&format!("- {} (", m)), "motion {m} missing");
    }
    for e in ["lazy", "maid", "predator", "hangry", "shy", "surprised", "happy"] {
        assert!(prompt.contains(&format!("- {} (", e)), "expression {e} missing");
    }
    assert!(prompt.starts_with("# 役割宣言"));
    assert!(prompt.ends_with("キャラクターを絶対に破らない。"));
}

#[test]
fn prompt_examples_parse_to_their_tags() {
    let examples: Vec<&str> = SYSTEM_PROMPT.lines().filter(|l| l.starts_with("[motion:")).collect();
    assert_eq!(examples.len(), 8);
    let expected = [
        ("idle", "lazy"),
        ("lazy_stretch", "lazy"),
        ("idle2", "maid"),
        ("alert", "predator"),
        ("hangry_sway", "hangry"),
        ("shy_fidget", "shy"),
        ("alert", "surprised"),
        ("idle2", "happy"),
    ];
    for (line, (m, e)) in examples.iter().zip(expected.iter()) {
        let parsed = parse_llm_response(line);
        assert_eq!(parsed.motion_id, *m, "{line}");
        assert_eq!(parsed.expression_id, *e, "{line}");
    }
}
