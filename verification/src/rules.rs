use vstd::prelude::*;

use crate::error::LintError;
use crate::text::{contains_seq, contains_str};
use crate::violation::{Node, Violation};

verus! {

/// The active configuration handed to text-strategy rules. Configuration
/// loading belongs to the driver; this core only passes the value through,
/// explicitly, to every analysis call.
pub struct Settings {}

impl Settings {
    pub fn new() -> Settings {
        Settings {  }
    }
}

/// The analysis strategy a rule declares: some rules act on just the file
/// path, some on the syntax tree, and some on the raw text of the file.
#[derive(Clone, Copy, Debug, PartialEq, Eq, Structural)]
pub enum Method {
    /// Works on just the path name of the file.
    Path,
    /// Analyses the syntax tree, node by node.
    Tree,
    /// Analyses the whole text directly.
    Text,
}

/// A parsed source file, as this core consumes it: every named descendant of
/// the root, in the parser's fixed traversal order. Parsing and traversal
/// belong to an external collaborator; a driver converts its output into
/// this form once per file.
pub struct Tree {
    pub nodes: Vec<Node>,
}

/// The contract every concrete check satisfies. A rule declares exactly one
/// strategy; the check function for that strategy carries the rule's logic,
/// and `apply` dispatches tree and text rules uniformly over a parsed file.
pub trait Rule {
    /// The strategy this rule declares. A rule overrides this together
    /// with `method`; the default declares a path rule.
    open spec fn spec_method(&self) -> Method {
        Method::Path
    }

    /// What the rule's path check returns for a path.
    open spec fn spec_check_path(&self, path: Seq<char>) -> Option<Violation> {
        None
    }

    /// What the rule's node check returns for a node of the tree.
    open spec fn spec_check_node(&self, node: Node, source: Seq<char>) -> Option<Violation> {
        None
    }

    /// What the rule's whole-text check returns for a source text.
    open spec fn spec_check_text(&self, source: Seq<char>, settings: Settings) -> Seq<Violation> {
        Seq::empty()
    }

    /// The node-kind tags a tree rule wants visited.
    open spec fn spec_entrypoints(&self) -> Seq<Seq<char>> {
        Seq::empty()
    }

    fn method(&self) -> (m: Method)
        ensures
            m == self.spec_method(),
    ;

    /// Text explaining what the rule tests for, why this is important, and
    /// how the user might fix it.
    fn explain(&self) -> &str;

    /// The list of node-kind tags on which a tree rule triggers. Path rules
    /// return just "PATH" and text rules just "TEXT", as a classification
    /// tag for the driver.
    fn entrypoints(&self) -> (r: Vec<&str>)
        ensures
            r.deep_view() == self.spec_entrypoints(),
    ;

    /// A pure check of the file's path; only path rules report anything.
    fn check_path(&self, path: &str) -> (r: Option<Violation>)
        ensures
            r == self.spec_check_path(path@),
    ;

    /// A pure check of one syntax node against the raw source text.
    fn check_node(&self, node: &Node, source: &str) -> (r: Option<Violation>)
        ensures
            r == self.spec_check_node(*node, source@),
    ;

    /// A pure check of the whole source text under the active configuration.
    fn check_text(&self, source: &str, settings: &Settings) -> (r: Vec<Violation>)
        ensures
            r@ == self.spec_check_text(source@, *settings),
    ;

}

/// Applies a rule over a parsed file, generating all violations raised as a
/// result. A tree rule visits exactly the named descendants whose kind is
/// among its entrypoints, in traversal order, and yields what its node check
/// reports on them; a text rule's whole-text check runs once and its result
/// is returned verbatim; calling `apply` on a path rule is a contract
/// violation of the driver and fails.
pub fn apply<R: Rule + ?Sized>(rule: &R, tree: &Tree, source: &str, settings: &Settings) -> (r:
    Result<Vec<Violation>, LintError>)
    ensures
        rule.spec_method() is Tree ==> r is Ok && r->Ok_0@ == tree_violations(
            rule,
            tree.nodes@,
            source@,
        ),
        rule.spec_method() is Text ==> r is Ok && r->Ok_0@ == rule.spec_check_text(
            source@,
            *settings,
        ),
        rule.spec_method() is Path ==> r == Err::<Vec<Violation>, LintError>(
            LintError::MethodMismatch,
        ),
{
    match rule.method() {
        Method::Tree => {
            let eps = rule.entrypoints();
            let mut out: Vec<Violation> = Vec::new();
            let mut i: usize = 0;
            while i < tree.nodes.len()
                invariant
                    0 <= i <= tree.nodes@.len(),
                    eps.deep_view() == rule.spec_entrypoints(),
                    out@ == tree_violations(rule, tree.nodes@.take(i as int), source@),
                decreases tree.nodes@.len() - i,
            {
                let node = &tree.nodes[i];
                proof {
                    assert(tree.nodes@.take(i + 1).drop_last() =~= tree.nodes@.take(i as int));
                    assert(tree.nodes@.take(i + 1).last() == tree.nodes@[i as int]);
                }
                if contains_str(&eps, node.kind.as_str()) {
                    match rule.check_node(node, source) {
                        Some(v) => out.push(v),
                        None => (),
                    }
                }
                i = i + 1;
            }
            proof {
                assert(tree.nodes@.take(tree.nodes@.len() as int) =~= tree.nodes@);
            }
            Ok(out)
        },
        Method::Text => Ok(rule.check_text(source, settings)),
        Method::Path => Err(LintError::MethodMismatch),
    }
}

/// Applies a rule over the outcome of parsing a source file. A failed parse
/// fails the whole call for a tree rule — no partial violation list comes
/// back — and the error carries the parser's own message. Text rules never
/// parse, so they are unaffected by the outcome; path rules are refused as
/// in `apply`.
pub fn apply_parsed<R: Rule + ?Sized>(
    rule: &R,
    parsed: Result<&Tree, &str>,
    source: &str,
    settings: &Settings,
) -> (r: Result<Vec<Violation>, LintError>)
    ensures
        rule.spec_method() is Tree ==> (match parsed {
            Ok(tree) => r is Ok && r->Ok_0@ == tree_violations(rule, tree.nodes@, source@),
            Err(reason) => r matches Err(LintError::ParseFailed(t)) && t@ == reason@,
        }),
        rule.spec_method() is Text ==> r is Ok && r->Ok_0@ == rule.spec_check_text(
            source@,
            *settings,
        ),
        rule.spec_method() is Path ==> r == Err::<Vec<Violation>, LintError>(
            LintError::MethodMismatch,
        ),
{
    match rule.method() {
        Method::Tree => match parsed {
            Ok(tree) => apply(rule, tree, source, settings),
            Err(reason) => Err(LintError::ParseFailed(reason.to_owned())),
        },
        _ => {
            let unparsed = Tree { nodes: Vec::new() };
            apply(rule, &unparsed, source, settings)
        },
    }
}

/// The violations a tree rule yields over the named descendants `nodes`:
/// what its node check reports, visiting only nodes whose kind is among the
/// rule's entrypoints, in traversal order.
pub open spec fn tree_violations<R: Rule + ?Sized>(
    rule: &R,
    nodes: Seq<Node>,
    source: Seq<char>,
) -> Seq<Violation>
    decreases nodes.len(),
{
    if nodes.len() == 0 {
        Seq::empty()
    } else {
        let prefix = tree_violations(rule, nodes.drop_last(), source);
        if contains_seq(rule.spec_entrypoints(), nodes.last().kind@) {
            match rule.spec_check_node(nodes.last(), source) {
                Some(v) => prefix.push(v),
                None => prefix,
            }
        } else {
            prefix
        }
    }
}

/// The subsequence of `nodes` whose kind is among the rule's entrypoints, in
/// traversal order: the nodes a tree rule visits.
pub open spec fn matching_nodes<R: Rule + ?Sized>(rule: &R, nodes: Seq<Node>) -> Seq<Node>
    decreases nodes.len(),
{
    if nodes.len() == 0 {
        Seq::empty()
    } else {
        let prefix = matching_nodes(rule, nodes.drop_last());
        if contains_seq(rule.spec_entrypoints(), nodes.last().kind@) {
            prefix.push(nodes.last())
        } else {
            prefix
        }
    }
}

/// Every node a tree rule visits has a kind among the rule's entrypoints: a
/// rule is never invoked on a node of any other kind.
pub proof fn lemma_matching_nodes_kinds<R: Rule + ?Sized>(rule: &R, nodes: Seq<Node>)
    ensures
        forall|k: int|
            0 <= k < matching_nodes(rule, nodes).len() ==> contains_seq(
                rule.spec_entrypoints(),
                (#[trigger] matching_nodes(rule, nodes)[k]).kind@,
            ),
    decreases nodes.len(),
{
    if nodes.len() != 0 {
        lemma_matching_nodes_kinds(rule, nodes.drop_last());
        let m = matching_nodes(rule, nodes);
        let p = matching_nodes(rule, nodes.drop_last());
        if contains_seq(rule.spec_entrypoints(), nodes.last().kind@) {
            assert forall|k: int| 0 <= k < m.len() implies contains_seq(
                rule.spec_entrypoints(),
                (#[trigger] m[k]).kind@,
            ) by {
                if k < m.len() - 1 {
                    assert(m[k] == p[k]);
                } else {
                    assert(m[k] == nodes.last());
                }
            }
        }
    }
}

/// Tree dispatch selectivity law: nodes whose kind is not among a rule's
/// entrypoints contribute nothing — dispatch over any node sequence yields
/// exactly what it yields over just the matching nodes.
pub proof fn lemma_tree_dispatch_selectivity<R: Rule + ?Sized>(
    rule: &R,
    nodes: Seq<Node>,
    source: Seq<char>,
)
    ensures
        tree_violations(rule, nodes, source) == tree_violations(
            rule,
            matching_nodes(rule, nodes),
            source,
        ),
    decreases nodes.len(),
{
    if nodes.len() != 0 {
        lemma_tree_dispatch_selectivity(rule, nodes.drop_last(), source);
        let m = matching_nodes(rule, nodes);
        if contains_seq(rule.spec_entrypoints(), nodes.last().kind@) {
            assert(m == matching_nodes(rule, nodes.drop_last()).push(nodes.last()));
            assert(m.drop_last() =~= matching_nodes(rule, nodes.drop_last()));
            assert(m.last() == nodes.last());
        }
    }
}

} // verus!
