use websteer::dialog::Kdialog;
use websteer::generate::{desktop_file_content, parse_exec_line};

fn pairs(v: &[(&str, &str)]) -> Vec<(String, String)> {
    v.iter().map(|(a, b)| (a.to_string(), b.to_string())).collect()
}

#[test]
fn test_kdialog_without_suggestion_selects_nothing() {
    let kd = Kdialog::new(
        "Select browser".to_string(),
        "Choose one".to_string(),
        pairs(&[("personal", "Personal Browser"), ("work", "Work Browser")]),
        None,
    );
    assert_eq!(kd.program().as_str(), "kdialog");
    let expected: Vec<String> = [
        "--title",
        "Select browser",
        "--radiolist",
        "Choose one",
        "personal",
        "Personal Browser",
        "off",
        "work",
        "Work Browser",
        "off",
    ]
    .iter()
    .map(|s| s.to_string())
    .collect();
    assert_eq!(kd.args(), &expected);
}

#[test]
fn test_kdialog_with_suggestion_selects_it() {
    let kd = Kdialog::new(
        "Select browser".to_string(),
        "Choose one".to_string(),
        pairs(&[("personal", "Personal Browser"), ("work", "Work Browser")]),
        Some(1),
    );
    let args = kd.args();
    assert_eq!(args[6].as_str(), "off");
    assert_eq!(args[9].as_str(), "on");
}

#[test]
fn test_desktop_content_exact() {
    let content = desktop_file_content("websteer");
    let expected = "[Desktop Entry]\n\
Version=0.1.0\n\
Name=WebSteer\n\
GenericName=Web Browser\n\
Comment=Route urls to browsers\n\
Exec=websteer open %U\n\
StartupNotify=true\n\
Terminal=false\n\
Type=Application\n\
Categories=Network;WebBrowser;\n\
MimeType=x-scheme-handler/unknown;x-scheme-handler/about;text/html;text/xml;application/xhtml_xml;image/webp;x-scheme-handler/http;x-scheme-handler/https;x-scheme-handler/ftp;";
    assert_eq!(content, expected);
}

#[test]
fn test_desktop_round_trip() {
    let content = desktop_file_content("/usr/local/bin/websteer");
    let line = parse_exec_line(&content).unwrap();
    assert_eq!(line, "/usr/local/bin/websteer open %U");
}

#[test]
fn test_parse_exec_line_missing() {
    assert!(parse_exec_line("[Desktop Entry]\nName=Foo\n").is_none());
}

#[test]
fn test_parse_exec_line_needs_line_start() {
    let line = parse_exec_line("xExec=skipped\nExec=taken here\nName=Foo\n").unwrap();
    assert_eq!(line, "taken here");
}

#[test]
fn test_parse_exec_line_at_start_and_end() {
    assert_eq!(parse_exec_line("Exec=first\nExec=second\n").unwrap(), "first");
    assert_eq!(parse_exec_line("Name=Foo\nExec=last").unwrap(), "last");
}
