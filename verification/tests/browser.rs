use ahandd::browser::{
    check_domain, check_domain_rules, domain_matches, extract_domain, host_part_of, mime_for_lowercase,
    mime_from_extension, params_to_cli_args, ParamValue,
};

fn text_param(key: &str, value: &str) -> (String, ParamValue) {
    (key.to_string(), ParamValue::Text(value.to_string()))
}

fn flag_param(key: &str, value: bool) -> (String, ParamValue) {
    (key.to_string(), ParamValue::Flag(value))
}

fn number_param(key: &str, value: i64) -> (String, ParamValue) {
    (key.to_string(), ParamValue::Number(value))
}

#[test]
fn test_extract_domain() {
    assert_eq!(extract_domain("https://example.com/path"), "example.com");
    assert_eq!(extract_domain("http://foo.bar:8080/x"), "foo.bar");
    assert_eq!(extract_domain("example.com"), "example.com");
}

#[test]
fn test_domain_matches() {
    assert!(domain_matches("example.com", "example.com"));
    assert!(domain_matches("sub.example.com", "*.example.com"));
    assert!(domain_matches("example.com", "*.example.com"));
    assert!(!domain_matches("notexample.com", "*.example.com"));
    assert!(!domain_matches("example.com", "other.com"));
}

#[test]
fn test_mime_from_extension() {
    assert_eq!(mime_from_extension("/tmp/shot.png"), "image/png");
    assert_eq!(mime_from_extension("/tmp/doc.PDF"), "application/pdf");
    assert_eq!(mime_from_extension("/tmp/data.csv"), "text/csv");
    assert_eq!(
        mime_from_extension("/tmp/report.xlsx"),
        "application/vnd.openxmlformats-officedocument.spreadsheetml.sheet"
    );
    assert_eq!(mime_from_extension("/tmp/unknown.xyz"), "application/octet-stream");
}

#[test]
fn extract_domain_lowercases_the_host() {
    assert_eq!(extract_domain("HTTPS://Example.COM/Path"), "example.com");
    assert_eq!(host_part_of("HTTPS://Example.COM/Path"), "Example.COM");
}

#[test]
fn host_part_edge_cases() {
    assert_eq!(host_part_of(""), "");
    assert_eq!(host_part_of("://"), "");
    assert_eq!(host_part_of("a://b"), "b");
    assert_eq!(host_part_of("host:80"), "host");
    assert_eq!(host_part_of("/only/path"), "");
}

#[test]
fn mime_for_lowercase_is_case_sensitive() {
    assert_eq!(mime_for_lowercase("a.jpeg"), "image/jpeg");
    assert_eq!(mime_for_lowercase("a.JPEG"), "application/octet-stream");
    assert_eq!(mime_for_lowercase("a.htm"), "text/html");
    assert_eq!(mime_for_lowercase("a.docx"), "application/vnd.openxmlformats-officedocument.wordprocessingml.document");
    assert_eq!(mime_for_lowercase("a.doc"), "application/msword");
    assert_eq!(mime_for_lowercase("a.xls"), "application/vnd.ms-excel");
    assert_eq!(mime_for_lowercase(""), "application/octet-stream");
}

#[test]
fn domain_rules_deny_then_allow() {
    let denied = vec!["*.evil.test".to_string()];
    let allowed = vec!["example.com".to_string()];
    assert_eq!(check_domain_rules("example.com", &denied, &allowed), Ok(()));
    assert_eq!(
        check_domain_rules("x.evil.test", &denied, &allowed),
        Err("domain 'x.evil.test' is denied".to_string())
    );
    assert_eq!(
        check_domain_rules("other.org", &denied, &allowed),
        Err("domain 'other.org' is not in allowed list".to_string())
    );
    assert_eq!(check_domain_rules("other.org", &denied, &Vec::new()), Ok(()));
    assert_eq!(check_domain_rules("", &denied, &allowed), Ok(()));
}

#[test]
fn only_navigation_is_checked() {
    let denied = vec!["evil.test".to_string()];
    let none: Vec<String> = Vec::new();
    assert!(check_domain("open", "https://evil.test/x", &denied, &none).is_err());
    assert!(check_domain("navigate", "https://EVIL.test/x", &denied, &none).is_err());
    assert!(check_domain("click", "https://evil.test/x", &denied, &none).is_ok());
    assert!(check_domain("open", "", &denied, &none).is_ok());
}

#[test]
fn test_params_to_cli_args_open() {
    let params = vec![text_param("url", "https://example.com")];
    let args = params_to_cli_args("open", &params);
    assert_eq!(args, vec!["https://example.com"]);
}

#[test]
fn test_params_to_cli_args_fill() {
    let params = vec![text_param("selector", "@e3"), text_param("value", "hello world")];
    let args = params_to_cli_args("fill", &params);
    assert_eq!(args, vec!["@e3", "hello world"]);
}

#[test]
fn test_params_to_cli_args_snapshot_compact() {
    let params = vec![flag_param("compact", true), number_param("maxDepth", 3)];
    let args = params_to_cli_args("snapshot", &params);
    assert!(args.contains(&"--compact".to_string()));
    assert!(args.contains(&"--depth".to_string()));
    assert!(args.contains(&"3".to_string()));
}

#[test]
fn test_params_to_cli_args_download() {
    let params = vec![text_param("selector", "a.download-btn"), text_param("path", "/tmp/file.zip")];
    let args = params_to_cli_args("download", &params);
    assert_eq!(args, vec!["a.download-btn", "/tmp/file.zip"]);
}

#[test]
fn test_params_to_cli_args_pdf() {
    let params = vec![text_param("path", "/tmp/page.pdf"), flag_param("fullPage", true)];
    let args = params_to_cli_args("pdf", &params);
    assert_eq!(args, vec!["/tmp/page.pdf", "--full-page"]);
}

#[test]
fn cli_args_follow_the_action_not_the_order_of_parameters() {
    let params = vec![
        text_param("value", "v"),
        number_param("timeout", -250),
        text_param("selector", "#s"),
        text_param("text", "done"),
        flag_param("fullPage", false),
        ("values".to_string(), ParamValue::List(vec![Some("a".to_string()), None, Some("b".to_string())])),
        ("extra".to_string(), ParamValue::Other),
        text_param("selector", "#second"),
    ];
    assert_eq!(params_to_cli_args("type", &params), vec!["#s", "v"]);
    assert_eq!(params_to_cli_args("select", &params), vec!["#s", "a", "b"]);
    assert_eq!(params_to_cli_args("wait", &params), vec!["done", "--timeout", "-250"]);
    assert_eq!(params_to_cli_args("screenshot", &params), Vec::<String>::new());
    assert_eq!(params_to_cli_args("snapshot", &params), vec!["--selector", "#s"]);
    assert_eq!(params_to_cli_args("click", &params), vec!["#s"]);
    assert_eq!(params_to_cli_args("press", &params), Vec::<String>::new());
    assert_eq!(params_to_cli_args("something", &params), vec!["v", "#s", "done", "#second"]);
    let edge = vec![number_param("maxDepth", i64::MIN), text_param("url", "7")];
    assert_eq!(params_to_cli_args("snapshot", &edge), vec!["--depth", "-9223372036854775808"]);
    assert_eq!(params_to_cli_args("navigate", &edge), vec!["7"]);
}
