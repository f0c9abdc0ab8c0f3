use rss_autodl::series::{single_or_vec, PatternList};
use serde_yaml::Value;

/// Reads the `pattern` field of a YAML document as one pattern or a list of
/// them, the way the configuration loader does.
fn parse_pattern(yaml: &str) -> Result<Vec<String>, String> {
    let doc: Value = serde_yaml::from_str(yaml).map_err(|e| e.to_string())?;
    let value = doc.get("pattern").ok_or_else(|| "missing field `pattern`".to_string())?;
    let list = match value {
        Value::String(s) => PatternList::Single(s.clone()),
        Value::Sequence(items) => {
            let mut out = Vec::new();
            for item in items {
                match item.as_str() {
                    Some(s) => out.push(s.to_string()),
                    None => return Err("pattern entries must be strings".to_string()),
                }
            }
            PatternList::Vec(out)
        }
        _ => return Err("pattern must be a string or a list of strings".to_string()),
    };
    Ok(single_or_vec(list))
}

#[test]
fn test_single_pattern() {
    let yaml = r#"
pattern: "only-one-pattern"
"#;
    let parsed = parse_pattern(yaml).unwrap();
    assert_eq!(parsed, vec!["only-one-pattern"]);
}

#[test]
fn test_single_pattern_seq() {
    let yaml = r#"
pattern: 
  - "only-one-pattern"
"#;
    let parsed = parse_pattern(yaml).unwrap();
    assert_eq!(parsed, vec!["only-one-pattern"]);
}

#[test]
fn test_multiple_patterns() {
    let yaml = r#"
pattern:
  - "first-pattern"
  - "second-pattern"
"#;
    let parsed = parse_pattern(yaml).unwrap();
    assert_eq!(parsed, vec!["first-pattern", "second-pattern"]);
}

#[test]
fn test_empty_list() {
    let yaml = r#"
pattern: []
"#;
    let parsed = parse_pattern(yaml).unwrap();
    assert_eq!(parsed, Vec::<String>::new());
}

#[test]
fn test_invalid_type() {
    let yaml = r#"
pattern: 12345
"#;
    let result = parse_pattern(yaml);
    assert!(result.is_err()); // Parsing an integer into a string should fail
}

#[test]
fn single_pattern_is_a_list_of_one() {
    assert_eq!(single_or_vec(PatternList::Single("a".to_string())), vec!["a".to_string()]);
    assert_eq!(
        single_or_vec(PatternList::Vec(vec!["a".to_string(), "b".to_string()])),
        vec!["a".to_string(), "b".to_string()]
    );
}
