use websteer::config::{BrowserConfig, Config, ExecConfig, RuleConfig, ValidationError, default_ambiguous};
use websteer::dispatch::App;
use websteer::rule::{Rule, generate};

fn base_config() -> Config {
    Config {
        dialog: "kdialog".to_string(),
        default: "personal".to_string(),
        prompt: vec!["personal".to_string()],
        browser: vec![(
            "personal".to_string(),
            BrowserConfig {
                name: "Personal Browser".to_string(),
                launcher: ExecConfig::Desktop("personal-browser.desktop".to_string()),
            },
        )],
        rule: vec![],
    }
}

fn rule(regex: &str, target: &str, ambiguous: bool) -> RuleConfig {
    RuleConfig { regex: regex.to_string(), browser: target.to_string(), ambiguous }
}

#[test]
fn test_default_ambiguous_is_false() {
    assert_eq!(default_ambiguous(), false);
}

#[test]
fn test_rejects_unknown_default() {
    let mut conf = base_config();
    conf.default = "missing".to_string();
    assert!(matches!(
        App::from_config(conf),
        Err(ValidationError::UnknownDefaultBrowser)
    ));
}

#[test]
fn test_rejects_unknown_prompt_entry() {
    let mut conf = base_config();
    conf.prompt = vec!["personal".to_string(), "offender".to_string()];
    match App::from_config(conf) {
        Err(ValidationError::UnknownPromptBrowser(id)) => assert_eq!(id, "offender"),
        _ => panic!("an unknown prompt entry must be rejected"),
    }
}

#[test]
fn test_rejects_invalid_pattern() {
    let mut conf = base_config();
    conf.rule = vec![rule("(", "personal", false)];
    assert!(matches!(
        App::from_config(conf),
        Err(ValidationError::InvalidPattern(0))
    ));
}

#[test]
fn test_pattern_check_comes_before_default_check() {
    let mut conf = base_config();
    conf.default = "missing".to_string();
    conf.rule = vec![rule("(", "personal", false)];
    assert!(matches!(
        App::from_config(conf),
        Err(ValidationError::InvalidPattern(0))
    ));
}

#[test]
fn test_generate_reports_first_bad_pattern() {
    let rules = vec![rule("localhost", "a", false), rule("[", "b", false)];
    assert!(matches!(generate(&rules), Err(ValidationError::InvalidPattern(1))));
}

#[test]
fn test_generate_compiles_all_rules() {
    let rules = vec![rule("localhost", "a", false), rule("work", "b", true)];
    let compiled = generate(&rules).unwrap();
    assert_eq!(compiled.len(), 2);
    let url = "http://localhost/x".to_string();
    assert_eq!(compiled[0].compare(&url), Some(("a".to_string(), false)));
    assert_eq!(compiled[1].compare(&url), None);
}

#[test]
fn test_rule_compare_matches_anywhere() {
    let r = Rule::new("work".to_string(), "work", true);
    let hit = "http://workcorp.com".to_string();
    let miss = "http://example.com".to_string();
    assert_eq!(r.compare(&hit), Some(("work".to_string(), true)));
    assert_eq!(r.compare(&miss), None);
}

#[test]
fn test_rule_compare_regex_semantics() {
    let r = Rule::new("work".to_string(), r"drive\.google\.com", false);
    let hit = "https://drive.google.com/d/1".to_string();
    let miss = "https://drive-google-com.example".to_string();
    assert!(r.compare(&hit).is_some());
    assert!(r.compare(&miss).is_none());
}
