use flake_cli::flake::FlakeError;
use flake_cli::show::interpret_show;
use flake_cli::show::names_ok_check;
use flake_cli::show::JsonValue;

fn s(x: &str) -> String {
    String::from(x)
}

fn obj(entries: Vec<(&str, JsonValue)>) -> JsonValue {
    JsonValue::Object(entries.into_iter().map(|(k, v)| (s(k), v)).collect())
}

/// The document of the worked example: one category, one platform, one
/// complete entry and one without a "name".
fn packages_doc() -> JsonValue {
    obj(vec![(
        "packages",
        obj(vec![(
            "x86_64-linux",
            obj(vec![
                ("a", obj(vec![("name", JsonValue::Text(s("pkg-a")))])),
                ("b", obj(vec![])),
            ]),
        )]),
    )])
}

#[test]
fn entries_without_name_are_skipped_silently() {
    let listing = interpret_show(&packages_doc(), "x86_64-linux").unwrap();
    assert_eq!(listing, vec![(s("packages"), vec![s("packages.x86_64-linux.a: pkg-a")])]);
}

#[test]
fn unmatched_platform_leaves_categories_empty() {
    let listing = interpret_show(&packages_doc(), "aarch64-darwin").unwrap();
    assert_eq!(listing, vec![(s("packages"), vec![])]);
}

#[test]
fn array_at_top_level_is_rejected() {
    let doc = JsonValue::Array(vec![JsonValue::Text(s("pkg-a"))]);
    assert_eq!(interpret_show(&doc, "x86_64-linux"), Err(FlakeError::UnexpectedShowOutputShape));
}

#[test]
fn non_object_top_levels_are_rejected() {
    for doc in [JsonValue::Null, JsonValue::Bool(true), JsonValue::Number, JsonValue::Text(s("x"))]
    {
        assert_eq!(interpret_show(&doc, "x86_64-linux"), Err(FlakeError::UnexpectedShowOutputShape));
    }
}

#[test]
fn categories_keep_discovery_order() {
    let doc = obj(vec![
        (
            "checks",
            obj(vec![(
                "x86_64-linux",
                obj(vec![("fmt", obj(vec![("name", JsonValue::Text(s("fmt-check")))]))]),
            )]),
        ),
        (
            "packages",
            obj(vec![(
                "x86_64-linux",
                obj(vec![
                    ("z", obj(vec![("name", JsonValue::Text(s("pkg-z")))])),
                    ("a", obj(vec![("name", JsonValue::Text(s("pkg-a")))])),
                ]),
            )]),
        ),
        ("devShells", JsonValue::Null),
    ]);
    let listing = interpret_show(&doc, "x86_64-linux").unwrap();
    assert_eq!(
        listing,
        vec![
            (s("checks"), vec![s("checks.x86_64-linux.fmt: fmt-check")]),
            (
                s("packages"),
                vec![s("packages.x86_64-linux.z: pkg-z"), s("packages.x86_64-linux.a: pkg-a")]
            ),
            (s("devShells"), vec![]),
        ]
    );
}

#[test]
fn non_object_entries_are_skipped_silently() {
    let doc = obj(vec![(
        "packages",
        obj(vec![(
            "x86_64-linux",
            obj(vec![
                ("plain", JsonValue::Text(s("not metadata"))),
                ("num", JsonValue::Number),
                ("good", obj(vec![("name", JsonValue::Text(s("kept")))])),
            ]),
        )]),
    )]);
    let listing = interpret_show(&doc, "x86_64-linux").unwrap();
    assert_eq!(listing, vec![(s("packages"), vec![s("packages.x86_64-linux.good: kept")])]);
}

#[test]
fn names_ok_accepts_text_and_missing_names() {
    assert!(names_ok_check(&packages_doc(), "x86_64-linux"));
    assert!(names_ok_check(&JsonValue::Null, "x86_64-linux"));
}

#[test]
fn names_ok_rejects_a_non_text_name() {
    let doc = obj(vec![(
        "packages",
        obj(vec![(
            "x86_64-linux",
            obj(vec![("a", obj(vec![("name", JsonValue::Number)]))]),
        )]),
    )]);
    assert!(!names_ok_check(&doc, "x86_64-linux"));
    // the same document is harmless under another platform: the entry is
    // never retained
    assert!(names_ok_check(&doc, "aarch64-linux"));
}
