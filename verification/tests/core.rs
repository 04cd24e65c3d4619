use lintcore::{Category, Code, Diagnostic, LintError, Node, Violation, ViolationPosition};

#[test]
fn test_rule_code() {
    let f001 = Code::new(Category::FileSystem, 1);
    assert_eq!(f001.display(), "F001");
    let c120 = Code::new(Category::Style, 120);
    assert_eq!(c120.display(), "S120");
}

#[test]
fn category_from_known_letters() {
    assert_eq!(Category::from("E"), Ok(Category::Error));
    assert_eq!(Category::from("S"), Ok(Category::Style));
    assert_eq!(Category::from("T"), Ok(Category::Typing));
    assert_eq!(Category::from("M"), Ok(Category::Modules));
    assert_eq!(Category::from("P"), Ok(Category::Precision));
    assert_eq!(Category::from("F"), Ok(Category::FileSystem));
}

#[test]
fn category_from_unknown_letter_fails() {
    assert_eq!(
        Category::from("X"),
        Err(LintError::UnknownCategory("X".to_string()))
    );
    assert_eq!(
        Category::from("EE"),
        Err(LintError::UnknownCategory("EE".to_string()))
    );
    assert_eq!(
        Category::from(""),
        Err(LintError::UnknownCategory("".to_string()))
    );
}

#[test]
fn code_round_trip_every_category_and_number() {
    let categories = [
        Category::Error,
        Category::Style,
        Category::Typing,
        Category::Modules,
        Category::Precision,
        Category::FileSystem,
    ];
    for category in categories {
        let mut number: usize = 0;
        while number < 1000 {
            let code = Code::new(category, number);
            let displayed = code.display();
            assert_eq!(Code::from(displayed.as_str()), Ok(code));
            number += 1;
        }
    }
}

#[test]
fn code_from_parses_examples() {
    assert_eq!(
        Code::from("F001"),
        Ok(Code::new(Category::FileSystem, 1))
    );
    assert_eq!(Code::from("S120"), Ok(Code::new(Category::Style, 120)));
    assert_eq!(Code::from("E000"), Ok(Code::new(Category::Error, 0)));
}

#[test]
fn code_from_rejects_malformed_strings() {
    for bad in ["", "F", "F01", "f001", "F1000", "001F", "F0a1", "123"] {
        assert_eq!(Code::from(bad), Err(LintError::InvalidCode(bad.to_string())));
    }
}

#[test]
fn code_from_rejects_unknown_categories() {
    // The error names the letter group that resolved to no category.
    assert_eq!(
        Code::from("X001"),
        Err(LintError::UnknownCategory("X".to_string()))
    );
    assert_eq!(
        Code::from("AB001"),
        Err(LintError::UnknownCategory("AB".to_string()))
    );
    assert_eq!(
        Code::from("EF123"),
        Err(LintError::UnknownCategory("EF".to_string()))
    );
}

#[test]
fn violation_keeps_message_and_position() {
    let v = Violation::new("line too long", ViolationPosition::Line(7));
    assert_eq!(v.message(), "line too long");
    assert_eq!(v.position(), ViolationPosition::Line(7));
    assert!(v == Violation::new("line too long", ViolationPosition::Line(7)));
    assert!(v != Violation::new("line too long", ViolationPosition::Line(8)));
    assert!(v != Violation::new("too long", ViolationPosition::Line(7)));
}

#[test]
fn violation_from_node_converts_to_one_indexed() {
    let node = Node { kind: String::from("name"), row: 0, col: 4 };
    let v = Violation::from_node("bad name", &node);
    assert_eq!(v.message(), "bad name");
    assert_eq!(v.position(), ViolationPosition::LineCol((1, 5)));
}

#[test]
fn orderable_fills_missing_position_parts_with_zero() {
    let unlocalized = Diagnostic::new(
        "a.f90",
        "S001",
        &Violation::new("m", ViolationPosition::Unlocalized),
    );
    assert_eq!(unlocalized.orderable(), ("a.f90", 0, 0, "S001"));
    let line_only = Diagnostic::new("a.f90", "S001", &Violation::new("m", ViolationPosition::Line(9)));
    assert_eq!(line_only.orderable(), ("a.f90", 9, 0, "S001"));
    let full = Diagnostic::new(
        "a.f90",
        "S001",
        &Violation::new("m", ViolationPosition::LineCol((9, 4))),
    );
    assert_eq!(full.orderable(), ("a.f90", 9, 4, "S001"));
}

#[test]
fn diagnostics_order_by_path_line_col_code() {
    let d = |path: &str, pos: ViolationPosition, code: &str| {
        Diagnostic::new(path, code, &Violation::new("m", pos))
    };
    let a = d("a.f90", ViolationPosition::LineCol((2, 1)), "S001");
    let b = d("b.f90", ViolationPosition::Unlocalized, "E000");
    assert!(a.le(&b));
    assert!(!b.le(&a));
    let early = d("a.f90", ViolationPosition::Line(1), "T042");
    assert!(early.le(&a));
    let same_line = d("a.f90", ViolationPosition::LineCol((2, 5)), "E000");
    assert!(a.le(&same_line));
    let unlocalized = d("a.f90", ViolationPosition::Unlocalized, "Z999");
    assert!(unlocalized.le(&early));
}

#[test]
fn diagnostics_at_same_position_sort_by_code() {
    let at = |code: &str| {
        Diagnostic::new(
            "a.f90",
            code,
            &Violation::new("m", ViolationPosition::LineCol((3, 2))),
        )
    };
    let s = at("S001");
    let t = at("T001");
    assert!(s.le(&t));
    assert!(!t.le(&s));
    assert_eq!(s.cmp(&t), std::cmp::Ordering::Less);
    assert_eq!(t.cmp(&s), std::cmp::Ordering::Greater);
    assert_eq!(s.cmp(&at("S001")), std::cmp::Ordering::Equal);
}

#[test]
fn diagnostic_equality_follows_the_sort_key() {
    let a = Diagnostic::new(
        "a.f90",
        "S001",
        &Violation::new("one wording", ViolationPosition::LineCol((3, 2))),
    );
    let b = Diagnostic::new(
        "a.f90",
        "S001",
        &Violation::new("another wording", ViolationPosition::LineCol((3, 2))),
    );
    // Equality is over the key (path, line, col, code): the message is not
    // part of it.
    assert!(a == b);
    let c = Diagnostic::new(
        "a.f90",
        "S002",
        &Violation::new("one wording", ViolationPosition::LineCol((3, 2))),
    );
    assert!(a != c);
}

#[test]
fn sorting_with_comparator_is_deterministic() {
    let d = |path: &str, pos: ViolationPosition, code: &str| {
        Diagnostic::new(path, code, &Violation::new("m", pos))
    };
    let mut all = vec![
        d("b.f90", ViolationPosition::Line(1), "S001"),
        d("a.f90", ViolationPosition::LineCol((5, 2)), "T001"),
        d("a.f90", ViolationPosition::LineCol((5, 2)), "E000"),
        d("a.f90", ViolationPosition::Unlocalized, "M011"),
    ];
    all.sort_by(|x, y| x.cmp(y));
    let keys: Vec<(String, usize, usize, String)> = all
        .iter()
        .map(|x| {
            let (p, l, c, k) = x.orderable();
            (p.to_string(), l, c, k.to_string())
        })
        .collect();
    assert_eq!(
        keys,
        vec![
            ("a.f90".to_string(), 0, 0, "M011".to_string()),
            ("a.f90".to_string(), 5, 2, "E000".to_string()),
            ("a.f90".to_string(), 5, 2, "T001".to_string()),
            ("b.f90".to_string(), 1, 0, "S001".to_string()),
        ]
    );
}

#[test]
fn unlocalized_rendering_is_one_plain_line() {
    let d = Diagnostic::new(
        "path/to/file.f90",
        "S001",
        &Violation::new("bad style", ViolationPosition::Unlocalized),
    );
    let lines: Vec<String> = vec![];
    assert_eq!(d.render(&lines), "path/to/file.f90: S001 bad style");
}

#[test]
fn localized_rendering_frames_the_violation_line() {
    let lines: Vec<String> = vec![
        "program p".to_string(),
        "  integer :: x".to_string(),
        "  x = 1".to_string(),
        "end program p".to_string(),
    ];
    let d = Diagnostic::new(
        "file.f90",
        "T001",
        &Violation::new("implicit none missing", ViolationPosition::LineCol((2, 3))),
    );
    let out = d.render(&lines);
    assert!(out.contains("integer :: x"));
    assert!(out.contains("file.f90:2:3:"));
    assert!(out.contains("T001"));
    assert!(out.contains("implicit none missing"));
    assert!(out.contains('^'));
    assert!(out.ends_with('\n'));
    // The excerpt covers two lines of context around the violation line.
    assert!(out.contains("program p"));
    assert!(out.contains("x = 1"));
}

#[test]
fn fallback_rendering_degrades_to_the_unlocalized_form() {
    let lines: Vec<String> = vec!["only line".to_string()];
    let out_of_file = Diagnostic::new(
        "file.f90",
        "M011",
        &Violation::new("stale position", ViolationPosition::Line(99)),
    );
    assert_eq!(
        out_of_file.render_or_fallback(&lines),
        "file.f90: M011 stale position"
    );
    // A column past one beyond the line's characters cannot be underlined.
    let past_the_line = Diagnostic::new(
        "file.f90",
        "M011",
        &Violation::new("stale position", ViolationPosition::LineCol((1, 100))),
    );
    assert_eq!(
        past_the_line.render_or_fallback(&lines),
        "file.f90: M011 stale position"
    );
    let in_file = Diagnostic::new(
        "file.f90",
        "M011",
        &Violation::new("fresh position", ViolationPosition::LineCol((1, 1))),
    );
    let out = in_file.render_or_fallback(&lines);
    assert!(out.contains("only line"));
    assert!(out.contains('^'));
}

#[test]
fn localized_rendering_handles_multibyte_characters() {
    // The annotated column lies on a multi-byte character; the span must
    // cover its whole encoding, not split it.
    let lines: Vec<String> = vec!["αβ".to_string()];
    let d = Diagnostic::new(
        "u.f90",
        "S001",
        &Violation::new("strange name", ViolationPosition::LineCol((1, 2))),
    );
    let out = d.render(&lines);
    assert!(out.contains("αβ"));
    assert!(out.contains('^'));
    assert!(out.ends_with('\n'));
}

#[test]
fn localized_rendering_handles_wide_indented_lines() {
    // A deeply indented line far wider than a typical terminal: the
    // renderer must frame it without cutting into its margins.
    let wide = format!("{}{}", " ".repeat(30), "x".repeat(180));
    let lines: Vec<String> = vec![wide];
    let d = Diagnostic::new(
        "w.f90",
        "S001",
        &Violation::new("line exceeds the length limit", ViolationPosition::LineCol((1, 1))),
    );
    let out = d.render(&lines);
    assert!(out.contains("S001"));
    assert!(out.contains('^'));
    assert!(out.ends_with('\n'));
    let hardened = d.render_or_fallback(&lines);
    assert!(hardened.contains('^'));
}

#[test]
fn error_messages_name_the_failure() {
    assert_eq!(
        Code::from("F0").unwrap_err().message(),
        "F0 is not a valid error code."
    );
    assert_eq!(
        Category::from("X").unwrap_err().message(),
        "X is not a rule category."
    );
    assert_eq!(
        Code::from("AB001").unwrap_err().message(),
        "AB is not a rule category."
    );
    assert_eq!(
        LintError::MethodMismatch.message(),
        "Apply may only be called for tree and text methods."
    );
    assert_eq!(
        LintError::ParseFailed("unexpected token at 3:1".to_string()).message(),
        "unexpected token at 3:1"
    );
}
