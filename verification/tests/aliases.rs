use nicy_runtime::resolver::aliases::{
    aliases_from_files, document_table, merge_aliases, parse_aliases_from_luaurc, resolve_alias_base,
    AliasTable, JsonDoc, JsonField,
};

#[test]
fn test_parse_aliases_valid_json() {
    let json = r#"{"aliases": {"@MyLib": "libs/mylib", "@utils": "libs/utils"}}"#;
    let aliases = parse_aliases_from_luaurc(json);
    assert_eq!(aliases.get("@MyLib").unwrap(), "libs/mylib");
    assert_eq!(aliases.get("@utils").unwrap(), "libs/utils");
}

#[test]
fn test_parse_aliases_adds_at_prefix() {
    let json = r#"{"aliases": {"MyLib": "libs/mylib"}}"#;
    let aliases = parse_aliases_from_luaurc(json);
    assert!(aliases.contains_key("@MyLib"));
    assert_eq!(aliases.get("@MyLib").unwrap(), "libs/mylib");
}

#[test]
fn test_parse_aliases_skips_empty_values() {
    let json = r#"{"aliases": {"@EmptyAlias": ""}}"#;
    let aliases = parse_aliases_from_luaurc(json);
    assert!(!aliases.contains_key("@EmptyAlias"));
}

#[test]
fn test_parse_aliases_invalid_json() {
    let aliases = parse_aliases_from_luaurc("not json at all");
    assert!(aliases.is_empty());
}

#[test]
fn test_parse_aliases_jsonc_with_comments() {
    let jsonc = r#"{
    // This is a comment
    "aliases": {
        # Another comment style
        "@Lib": "libs/lib"
    }
}"#;
    let aliases = parse_aliases_from_luaurc(jsonc);
    assert_eq!(aliases.get("@Lib").unwrap(), "libs/lib");
}

#[test]
fn test_parse_aliases_missing_aliases_key() {
    let json = r#"{"some_other_key": "value"}"#;
    let aliases = parse_aliases_from_luaurc(json);
    assert!(aliases.is_empty());
}

#[test]
fn parse_aliases_ignores_non_string_values() {
    let aliases = parse_aliases_from_luaurc(r#"{"aliases": {"@a": 1, "@b": "x", "@c": null}}"#);
    assert_eq!(aliases.len(), 1);
    assert_eq!(aliases.get("@b").unwrap(), "x");
}

#[test]
fn parse_aliases_aliases_not_an_object() {
    assert!(parse_aliases_from_luaurc(r#"{"aliases": "lib"}"#).is_empty());
    assert!(parse_aliases_from_luaurc(r#"[1, 2]"#).is_empty());
}

#[test]
fn alias_table_insert_replaces() {
    let mut t = AliasTable::new();
    t.insert("@a".to_string(), "one".to_string());
    t.insert("@b".to_string(), "two".to_string());
    t.insert("@a".to_string(), "three".to_string());
    assert_eq!(t.len(), 2);
    assert_eq!(t.get("@a").unwrap(), "three");
    assert_eq!(t.get("@b").unwrap(), "two");
    assert!(t.get("@c").is_none());
}

#[test]
fn inner_luaurc_wins_and_outer_aliases_stay() {
    let outer = parse_aliases_from_luaurc(r#"{"aliases": {"@lib": "lib", "@shared": "shared"}}"#);
    let inner = parse_aliases_from_luaurc(r#"{"aliases": {"@lib": "mylib", "@components": "/abs/components"}}"#);
    let files = vec![("/project".to_string(), outer), ("/project/src".to_string(), inner)];
    let t = aliases_from_files(&files);
    assert_eq!(t.get("@lib").unwrap(), "/project/src/mylib");
    assert_eq!(t.get("@shared").unwrap(), "/project/shared");
    assert_eq!(t.get("@components").unwrap(), "/abs/components");
    assert_eq!(t.len(), 3);
}

#[test]
fn merge_aliases_resolves_relative_paths() {
    let mut t = AliasTable::new();
    let add = parse_aliases_from_luaurc(r#"{"aliases": {"@m": "src/modules"}}"#);
    merge_aliases(&mut t, "/p", &add);
    assert_eq!(t.get("@m").unwrap(), "/p/src/modules");
}

#[test]
fn resolve_alias_base_cases() {
    let mut t = AliasTable::new();
    t.insert("@lib".to_string(), "/p/lib".to_string());
    assert_eq!(resolve_alias_base(&t, "@lib", "").unwrap(), "/p/lib");
    assert_eq!(resolve_alias_base(&t, "@lib", "x/y").unwrap(), "/p/lib/x/y");
    assert_eq!(resolve_alias_base(&t, "@nope", "x").unwrap_err(), "unknown alias '@nope'");
}

#[test]
fn document_table_reads_the_aliases_object() {
    let doc = JsonDoc::Object(vec![
        ("name".to_string(), JsonField::Text("x".to_string())),
        (
            "aliases".to_string(),
            JsonField::Object(vec![
                ("Lib".to_string(), Some("libs/lib".to_string())),
                ("@empty".to_string(), Some(String::new())),
                ("@num".to_string(), None),
                ("@Lib".to_string(), Some("other".to_string())),
            ]),
        ),
    ]);
    let t = document_table(&doc);
    assert_eq!(t.len(), 1);
    assert_eq!(t.get("@Lib").unwrap(), "other");
    assert!(!t.contains_key("@empty"));
    assert!(!t.contains_key("@num"));
    assert!(document_table(&JsonDoc::Other).is_empty());
    let no_obj = JsonDoc::Object(vec![("aliases".to_string(), JsonField::Text("a".to_string()))]);
    assert!(document_table(&no_obj).is_empty());
}
