use lintcore::render::{annotation_offset, window_end, window_start};
use lintcore::{
    apply, apply_parsed, LintError, Method, Node, Rule, Settings, Tree, Violation,
    ViolationPosition,
};

/// A tree rule that flags every node it is invoked on.
struct FlagNamedNodes;

impl Rule for FlagNamedNodes {
    fn method(&self) -> Method {
        Method::Tree
    }

    fn explain(&self) -> &str {
        "flags every visited node, to observe which nodes dispatch visits"
    }

    fn entrypoints(&self) -> Vec<&str> {
        vec!["name"]
    }

    fn check_path(&self, _path: &str) -> Option<Violation> {
        None
    }

    fn check_node(&self, node: &Node, _source: &str) -> Option<Violation> {
        Some(Violation::from_node("flagged", node))
    }

    fn check_text(&self, _source: &str, _settings: &Settings) -> Vec<Violation> {
        Vec::new()
    }
}

/// A text rule reporting a fixed pair of violations.
struct TwoFindings;

impl Rule for TwoFindings {
    fn method(&self) -> Method {
        Method::Text
    }

    fn explain(&self) -> &str {
        "reports two fixed findings on any text"
    }

    fn entrypoints(&self) -> Vec<&str> {
        vec!["TEXT"]
    }

    fn check_path(&self, _path: &str) -> Option<Violation> {
        None
    }

    fn check_node(&self, _node: &Node, _source: &str) -> Option<Violation> {
        None
    }

    fn check_text(&self, _source: &str, _settings: &Settings) -> Vec<Violation> {
        vec![
            Violation::new("first", ViolationPosition::Line(1)),
            Violation::new("second", ViolationPosition::Unlocalized),
        ]
    }
}

/// A path rule; `apply` must refuse it.
struct ForbiddenName;

impl Rule for ForbiddenName {
    fn method(&self) -> Method {
        Method::Path
    }

    fn explain(&self) -> &str {
        "rejects a fixed file name"
    }

    fn entrypoints(&self) -> Vec<&str> {
        vec!["PATH"]
    }

    fn check_path(&self, path: &str) -> Option<Violation> {
        if path.ends_with("bad.f") {
            Some(Violation::new("legacy extension", ViolationPosition::Unlocalized))
        } else {
            None
        }
    }

    fn check_node(&self, _node: &Node, _source: &str) -> Option<Violation> {
        None
    }

    fn check_text(&self, _source: &str, _settings: &Settings) -> Vec<Violation> {
        Vec::new()
    }
}

fn node(kind: &str, row: usize, col: usize) -> Node {
    Node { kind: kind.to_string(), row, col }
}

#[test]
fn tree_dispatch_visits_only_declared_kinds() {
    let tree = Tree {
        nodes: vec![
            node("name", 0, 0),
            node("literal", 1, 2),
            node("name", 4, 6),
            node("operator", 5, 1),
        ],
    };
    let rule = FlagNamedNodes;
    let out = apply(&rule, &tree, "source text", &Settings::new()).unwrap();
    // The rule flags every node it sees, so only the two "name" nodes may
    // appear, in traversal order; the other kinds were never visited.
    assert_eq!(out.len(), 2);
    assert_eq!(out[0].position(), ViolationPosition::LineCol((1, 1)));
    assert_eq!(out[1].position(), ViolationPosition::LineCol((5, 7)));
}

#[test]
fn tree_dispatch_on_empty_tree_yields_nothing() {
    let tree = Tree { nodes: vec![] };
    let out = apply(&FlagNamedNodes, &tree, "", &Settings::new()).unwrap();
    assert_eq!(out.len(), 0);
}

#[test]
fn text_dispatch_returns_findings_verbatim() {
    let tree = Tree { nodes: vec![node("name", 0, 0)] };
    let out = apply(&TwoFindings, &tree, "any text", &Settings::new()).unwrap();
    assert_eq!(out.len(), 2);
    assert_eq!(out[0].message(), "first");
    assert_eq!(out[0].position(), ViolationPosition::Line(1));
    assert_eq!(out[1].message(), "second");
    assert_eq!(out[1].position(), ViolationPosition::Unlocalized);
}

#[test]
fn apply_on_a_path_rule_is_refused() {
    let tree = Tree { nodes: vec![] };
    let out = apply(&ForbiddenName, &tree, "", &Settings::new());
    assert_eq!(out.unwrap_err(), LintError::MethodMismatch);
}

#[test]
fn path_rule_checks_paths_directly() {
    let rule = ForbiddenName;
    assert!(rule.check_path("src/good.f90").is_none());
    let hit = rule.check_path("src/bad.f").unwrap();
    assert_eq!(hit.message(), "legacy extension");
}

fn plain_lines(n: usize) -> Vec<String> {
    (1..=n).map(|i| format!("line {i}")).collect()
}

#[test]
fn window_is_clamped_to_the_file() {
    let lines = plain_lines(10);
    // A violation on line 1 starts its window at line 1.
    assert_eq!(window_start(&lines, 1), 1);
    // A violation on line 10 ends its window at line 10.
    assert_eq!(window_end(&lines, 10), 10);
    // In the middle, the window spans two lines on either side.
    assert_eq!(window_start(&lines, 5), 3);
    assert_eq!(window_end(&lines, 5), 7);
}

#[test]
fn window_start_skips_leading_blank_lines() {
    // The window for line 4 would start at line 2, but lines 2 and 3 are
    // blank, so the trimming moves the start to the violation line itself.
    let lines: Vec<String> = vec![
        "head".to_string(),
        String::new(),
        "   ".to_string(),
        "x = 1".to_string(),
        "tail".to_string(),
    ];
    assert_eq!(window_start(&lines, 4), 4);
    // A blank line just above the violation, at the window start, is
    // skipped.
    let two: Vec<String> = vec!["  ".to_string(), "x = 1".to_string()];
    assert_eq!(window_start(&two, 2), 2);
    // A blank line inside the window but not at its start is kept: the
    // window for line 4 starts at the non-blank line 2.
    let kept: Vec<String> = vec![
        "head".to_string(),
        "decl".to_string(),
        String::new(),
        "x = 1".to_string(),
    ];
    assert_eq!(window_start(&kept, 4), 2);
}

#[test]
fn annotation_offset_counts_bytes() {
    // One line of three two-byte characters above the violation: 6 bytes
    // plus 1 terminator byte, then column 3 adds the 2 bytes of "x ".
    let lines: Vec<String> = vec!["αβγ".to_string(), "x = 1".to_string()];
    assert_eq!(annotation_offset(&lines, 1, 2, 3), 9);
    // Column 0 and column 1 both mark the line start; nothing underflows.
    assert_eq!(annotation_offset(&lines, 1, 2, 0), 7);
    assert_eq!(annotation_offset(&lines, 1, 2, 1), 7);
    // A window beginning at the violation line contributes no line offsets.
    assert_eq!(annotation_offset(&lines, 2, 2, 5), 4);
    // Within a line the offset advances by each character's encoded bytes:
    // column 2 sits after the 2 bytes of "α".
    assert_eq!(annotation_offset(&lines, 1, 1, 2), 2);
}

#[test]
fn parse_failure_fails_the_whole_tree_dispatch() {
    let rule = FlagNamedNodes;
    let out = apply_parsed(&rule, Err("unexpected token at 3:1"), "x", &Settings::new());
    let err = out.unwrap_err();
    assert_eq!(
        err,
        LintError::ParseFailed("unexpected token at 3:1".to_string())
    );
    assert_eq!(err.message(), "unexpected token at 3:1");
    // With a parsed tree, dispatch over the parse outcome behaves as apply.
    let tree = Tree { nodes: vec![node("name", 2, 0)] };
    let ok = apply_parsed(&rule, Ok(&tree), "x", &Settings::new()).unwrap();
    assert_eq!(ok.len(), 1);
}

#[test]
fn text_rules_are_unaffected_by_parse_failures() {
    let out = apply_parsed(&TwoFindings, Err("broken parse"), "text", &Settings::new()).unwrap();
    assert_eq!(out.len(), 2);
    assert_eq!(out[0].message(), "first");
}

#[test]
fn apply_parsed_on_a_path_rule_is_refused() {
    let out = apply_parsed(&ForbiddenName, Err("broken parse"), "", &Settings::new());
    assert_eq!(out.unwrap_err(), LintError::MethodMismatch);
}

#[test]
fn window_end_skips_trailing_blank_lines() {
    let lines: Vec<String> = vec![
        "x = 1".to_string(),
        "\t".to_string(),
        String::new(),
        "tail".to_string(),
    ];
    assert_eq!(window_end(&lines, 1), 1);
}
