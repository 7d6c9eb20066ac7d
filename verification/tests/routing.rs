use websteer::config::{BrowserConfig, Config, ExecConfig, RuleConfig};
use websteer::dispatch::{App, Dispatch, DispatchError};

fn browser(name: &str, launcher: ExecConfig) -> BrowserConfig {
    BrowserConfig { name: name.to_string(), launcher }
}

fn rule(regex: &str, target: &str, ambiguous: bool) -> RuleConfig {
    RuleConfig { regex: regex.to_string(), browser: target.to_string(), ambiguous }
}

fn sample_config() -> Config {
    Config {
        dialog: "kdialog".to_string(),
        default: "personal".to_string(),
        prompt: vec!["personal".to_string(), "work".to_string()],
        browser: vec![
            (
                "personal".to_string(),
                browser("Personal Browser", ExecConfig::Desktop("personal-browser.desktop".to_string())),
            ),
            ("work".to_string(), browser("Work Browser", ExecConfig::Exec("/usr/bin/work-browser".to_string()))),
            ("test".to_string(), browser("Test Browser", ExecConfig::Exec("/usr/bin/test-browser".to_string()))),
        ],
        rule: vec![rule("localhost", "test", false), rule("work", "work", true)],
    }
}

fn sample_app() -> App {
    App::from_config(sample_config()).unwrap()
}

fn strings(v: &[&str]) -> Vec<String> {
    v.iter().map(|s| s.to_string()).collect()
}

#[test]
fn test_scenario_localhost_direct() {
    let app = sample_app();
    let url = "http://localhost/x".to_string();
    match app.open(Some(&url)).unwrap() {
        Dispatch::Launch(argv) => {
            assert_eq!(argv, strings(&["/usr/bin/test-browser", "http://localhost/x"]));
        }
        Dispatch::Prompt(_) => panic!("unambiguous match must launch directly"),
    }
}

#[test]
fn test_scenario_ambiguous_prompts() {
    let app = sample_app();
    let url = "http://workcorp.com".to_string();
    match app.open(Some(&url)).unwrap() {
        Dispatch::Launch(_) => panic!("ambiguous match must prompt"),
        Dispatch::Prompt(kd) => {
            assert_eq!(kd.program().as_str(), "kdialog");
            assert_eq!(
                kd.args(),
                &strings(&[
                    "--title",
                    "Select browser",
                    "--radiolist",
                    "Choose a browser to open 'http://workcorp.com'",
                    "personal",
                    "Personal Browser",
                    "off",
                    "work",
                    "Work Browser",
                    "on",
                ])
            );
        }
    }
}

#[test]
fn test_scenario_no_match_uses_default() {
    let app = sample_app();
    let url = "http://example.com".to_string();
    match app.open(Some(&url)).unwrap() {
        Dispatch::Launch(argv) => {
            assert_eq!(
                argv,
                strings(&["gtk-launch", "personal-browser.desktop", "http://example.com"])
            );
        }
        Dispatch::Prompt(_) => panic!("no match must not prompt"),
    }
}

#[test]
fn test_open_without_url_launches_default_bare() {
    let app = sample_app();
    match app.open(None).unwrap() {
        Dispatch::Launch(argv) => {
            assert_eq!(argv, strings(&["gtk-launch", "personal-browser.desktop"]));
        }
        Dispatch::Prompt(_) => panic!("a default launch never prompts"),
    }
}

#[test]
fn test_first_match_wins() {
    let mut conf = sample_config();
    conf.rule = vec![rule("http", "work", false), rule("http", "test", false)];
    let app = App::from_config(conf).unwrap();
    let url = "http://both.example".to_string();
    match app.open(Some(&url)).unwrap() {
        Dispatch::Launch(argv) => assert_eq!(argv[0], "/usr/bin/work-browser"),
        Dispatch::Prompt(_) => panic!("unambiguous match must launch directly"),
    }
}

#[test]
fn test_reordering_rules_changes_winner() {
    let mut conf = sample_config();
    conf.rule = vec![rule("http", "test", false), rule("http", "work", false)];
    let app = App::from_config(conf).unwrap();
    let url = "http://both.example".to_string();
    match app.open(Some(&url)).unwrap() {
        Dispatch::Launch(argv) => assert_eq!(argv[0], "/usr/bin/test-browser"),
        Dispatch::Prompt(_) => panic!("unambiguous match must launch directly"),
    }
}

#[test]
fn test_ambiguous_prompts_even_for_default_target() {
    // The rule's own target is the default browser; the prompt must still come.
    let mut conf = sample_config();
    conf.rule = vec![rule("work", "personal", true)];
    let app = App::from_config(conf).unwrap();
    let url = "http://workcorp.com".to_string();
    assert!(matches!(app.open(Some(&url)).unwrap(), Dispatch::Prompt(_)));
}

#[test]
fn test_ambiguous_target_outside_prompt_selects_nothing() {
    // The matched rule routes to a browser the prompt list does not offer:
    // the prompt comes with no entry pre-selected.
    let mut conf = sample_config();
    conf.rule = vec![rule("work", "test", true)];
    let app = App::from_config(conf).unwrap();
    let url = "http://workcorp.com".to_string();
    match app.open(Some(&url)).unwrap() {
        Dispatch::Launch(_) => panic!("ambiguous match must prompt"),
        Dispatch::Prompt(kd) => {
            let args = kd.args();
            assert_eq!(args[6].as_str(), "off");
            assert_eq!(args[9].as_str(), "off");
        }
    }
}

#[test]
fn test_resolver_confirms_suggested() {
    let app = sample_app();
    let url = "http://workcorp.com".to_string();
    let argv = app.resolve_choice(&"work".to_string(), &url).unwrap();
    assert_eq!(argv, strings(&["/usr/bin/work-browser", "http://workcorp.com"]));
}

#[test]
fn test_resolver_overrides_suggested() {
    let app = sample_app();
    let url = "http://workcorp.com".to_string();
    let argv = app.resolve_choice(&"personal".to_string(), &url).unwrap();
    assert_eq!(
        argv,
        strings(&["gtk-launch", "personal-browser.desktop", "http://workcorp.com"])
    );
}

#[test]
fn test_resolver_unknown_choice_fails() {
    let app = sample_app();
    let url = "http://workcorp.com".to_string();
    match app.resolve_choice(&"nobody".to_string(), &url) {
        Err(DispatchError::UnknownBrowser(id)) => assert_eq!(id, "nobody"),
        Ok(_) => panic!("an unknown id must not resolve"),
    }
}

#[test]
fn test_rule_target_unchecked_until_dispatch() {
    // A rule may name a browser that is not configured; validation lets it
    // through and only the dispatch of a matching URL fails.
    let mut conf = sample_config();
    conf.rule = vec![rule("ghost", "ghost-browser", false)];
    let app = App::from_config(conf).unwrap();
    let url = "http://ghost.example".to_string();
    match app.open(Some(&url)) {
        Err(DispatchError::UnknownBrowser(id)) => assert_eq!(id, "ghost-browser"),
        Ok(_) => panic!("a matching rule with an unknown target must fail"),
    }
}
