use shoebill::kvmap::KvMap;
use shoebill::render::render_template;

fn vars(pairs: &[(&str, &str)]) -> KvMap<String> {
    let mut m: KvMap<String> = KvMap::new();
    for (k, v) in pairs {
        m.insert(k.to_string(), v.to_string());
    }
    m
}

#[test]
fn renders_plain_text_unchanged() {
    let m = vars(&[]);
    let r = render_template(&"hello world".to_string(), &m);
    assert_eq!(r, Some("hello world".to_string()));
}

#[test]
fn renders_single_variable() {
    let m = vars(&[("pw", "s3cr3t")]);
    let r = render_template(&"{{pw}}".to_string(), &m);
    assert_eq!(r, Some("s3cr3t".to_string()));
}

#[test]
fn renders_variable_inside_text() {
    let m = vars(&[("user", "alice")]);
    let r = render_template(&"name=<{{user}}>".to_string(), &m);
    assert_eq!(r, Some("name=<alice>".to_string()));
}

#[test]
fn renders_two_variables() {
    let m = vars(&[("a", "1"), ("b", "2")]);
    let r = render_template(&"{{a}}-{{b}}".to_string(), &m);
    assert_eq!(r, Some("1-2".to_string()));
}

#[test]
fn renders_same_variable_twice() {
    let m = vars(&[("x", "ab")]);
    let r = render_template(&"{{x}}{{x}}".to_string(), &m);
    assert_eq!(r, Some("abab".to_string()));
}

#[test]
fn unknown_variable_fails() {
    let m = vars(&[("a", "1")]);
    assert_eq!(render_template(&"{{missing}}".to_string(), &m), None);
}

#[test]
fn unclosed_reference_fails() {
    let m = vars(&[("a", "1")]);
    assert_eq!(render_template(&"start {{a".to_string(), &m), None);
}

#[test]
fn empty_template_renders_empty() {
    let m = vars(&[]);
    assert_eq!(render_template(&"".to_string(), &m), Some("".to_string()));
}

#[test]
fn single_braces_are_literal() {
    let m = vars(&[]);
    let r = render_template(&"a{b}c".to_string(), &m);
    assert_eq!(r, Some("a{b}c".to_string()));
}

#[test]
fn value_is_substituted_not_copied() {
    // would fail if rendering handed the template back unchanged
    let m = vars(&[("pw", "v")]);
    let r = render_template(&"{{pw}}".to_string(), &m);
    assert_ne!(r, Some("{{pw}}".to_string()));
    assert_eq!(r, Some("v".to_string()));
}

#[test]
fn empty_reference_fails_without_empty_variable() {
    let m = vars(&[]);
    assert_eq!(render_template(&"{{}}".to_string(), &m), None);
}

#[test]
fn closing_braces_without_opening_are_literal() {
    let m = vars(&[]);
    assert_eq!(render_template(&"a}}b".to_string(), &m), Some("a}}b".to_string()));
}

#[test]
fn kvmap_insert_get_remove() {
    let mut m: KvMap<String> = KvMap::new();
    assert_eq!(m.len(), 0);
    m.insert("k1".to_string(), "v1".to_string());
    m.insert("k2".to_string(), "v2".to_string());
    assert_eq!(m.get(&"k1".to_string()), Some(&"v1".to_string()));
    assert_eq!(m.get(&"k2".to_string()), Some(&"v2".to_string()));
    assert_eq!(m.get(&"k3".to_string()), None);
    m.insert("k1".to_string(), "v1b".to_string());
    assert_eq!(m.len(), 2);
    assert_eq!(m.get(&"k1".to_string()), Some(&"v1b".to_string()));
    assert_eq!(m.remove(&"k1".to_string()), Some("v1b".to_string()));
    assert_eq!(m.get(&"k1".to_string()), None);
    assert_eq!(m.remove(&"k1".to_string()), None);
    assert!(m.contains_key(&"k2".to_string()));
    assert!(!m.contains_key(&"k1".to_string()));
}
