use transformrs::key_file::key_providers;
use transformrs::key_file::parse_key_file;
use transformrs::key_file::select_secret;
use transformrs::Provider;

fn pairs(v: &[(&str, &str)]) -> Vec<(String, String)> {
    v.iter().map(|(a, b)| (a.to_string(), b.to_string())).collect()
}

#[test]
fn key_file_lines() {
    let parsed = parse_key_file("OPENAI_KEY=sk-1\nGROQ_KEY=a=b\r\nno equals here\n\nOTHER_KEY=");
    assert_eq!(parsed, pairs(&[("OPENAI_KEY", "sk-1"), ("GROQ_KEY", "a"), ("OTHER_KEY", "")]));
}

#[test]
fn empty_key_file() {
    assert!(parse_key_file("").is_empty());
    assert!(parse_key_file("\n\r\n").is_empty());
}

#[test]
fn environment_wins_then_last_file_line() {
    let file = pairs(&[("GROQ_KEY", "first"), ("GROQ_KEY", "second"), ("OPENAI_KEY", "o")]);
    assert_eq!(select_secret(Some("env".to_string()), &file, "GROQ_KEY"), Some("env".to_string()));
    assert_eq!(select_secret(None, &file, "GROQ_KEY"), Some("second".to_string()));
    assert_eq!(select_secret(None, &file, "NOVITA_KEY"), None);
}

#[test]
fn lookup_order_has_distinct_names() {
    let providers = key_providers();
    assert_eq!(providers.len(), 14);
    assert!(matches!(providers[13], Provider::Other(_)));
    let mut names: Vec<String> = providers.iter().map(|p| p.key_name()).collect();
    names.sort();
    names.dedup();
    assert_eq!(names.len(), 14);
}
