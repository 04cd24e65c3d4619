use vstd::prelude::*;

use crate::render::{
    localized_in_bounds, localized_requires, render_localized, render_unlocalized,
    spec_render_localized, spec_render_unlocalized,
};
use crate::text::str_eq;
use crate::violation::{Violation, ViolationPosition};

verus! {

/// A violation bound to the file it was found in and the code of the rule
/// that found it, ready for ordering and rendering. Owns copies: it must
/// outlive the analysis pass that produced it.
#[derive(Debug)]
pub struct Diagnostic {
    /// The file where an error was reported.
    path: String,
    /// The rule code that was violated, expressed as a string.
    code: String,
    /// The specific violation detected.
    violation: Violation,
}

/// Lexicographic order on character sequences, by code point: the empty
/// sequence comes first, and otherwise the first differing character
/// decides.
pub open spec fn seq_char_le(a: Seq<char>, b: Seq<char>) -> bool
    decreases a.len(),
{
    if a.len() == 0 {
        true
    } else if b.len() == 0 {
        false
    } else if a[0] != b[0] {
        a[0] < b[0]
    } else {
        seq_char_le(a.subrange(1, a.len() as int), b.subrange(1, b.len() as int))
    }
}

/// Any two character sequences are ordered one way or the other.
pub proof fn lemma_seq_char_le_total(a: Seq<char>, b: Seq<char>)
    ensures
        seq_char_le(a, b) || seq_char_le(b, a),
    decreases a.len(),
{
    if a.len() != 0 && b.len() != 0 && a[0] == b[0] {
        lemma_seq_char_le_total(a.subrange(1, a.len() as int), b.subrange(1, b.len() as int));
    }
}

/// Two character sequences each ordered before the other are equal.
pub proof fn lemma_seq_char_le_antisymmetric(a: Seq<char>, b: Seq<char>)
    requires
        seq_char_le(a, b),
        seq_char_le(b, a),
    ensures
        a == b,
    decreases a.len(),
{
    if a.len() == 0 {
        assert(b.len() == 0);
        assert(a =~= b);
    } else {
        assert(a[0] == b[0]);
        let sa = a.subrange(1, a.len() as int);
        let sb = b.subrange(1, b.len() as int);
        lemma_seq_char_le_antisymmetric(sa, sb);
        assert(sa == sb);
        assert(sa.len() == a.len() - 1);
        assert(sb.len() == b.len() - 1);
        assert(a.len() == b.len());
        assert forall|i: int| 0 <= i < a.len() implies a[i] == b[i] by {
            if i > 0 {
                assert(a[i] == sa[i - 1]);
                assert(b[i] == sb[i - 1]);
            }
        }
        assert(a =~= b);
    }
}

/// Lexicographic order on character sequences is transitive.
pub proof fn lemma_seq_char_le_transitive(a: Seq<char>, b: Seq<char>, c: Seq<char>)
    requires
        seq_char_le(a, b),
        seq_char_le(b, c),
    ensures
        seq_char_le(a, c),
    decreases a.len(),
{
    if a.len() != 0 && b.len() != 0 && c.len() != 0 {
        if a[0] == b[0] && b[0] == c[0] {
            lemma_seq_char_le_transitive(
                a.subrange(1, a.len() as int),
                b.subrange(1, b.len() as int),
                c.subrange(1, c.len() as int),
            );
        }
    }
}

impl Diagnostic {
    /// The characters of the file path.
    pub closed spec fn spec_path(&self) -> Seq<char> {
        self.path@
    }

    /// The characters of the rule code.
    pub closed spec fn spec_code(&self) -> Seq<char> {
        self.code@
    }

    /// The violation this diagnostic reports.
    pub closed spec fn spec_violation(&self) -> Violation {
        self.violation
    }

    /// The line this diagnostic sorts at: 0 when the violation carries no
    /// position.
    pub open spec fn key_line(&self) -> int {
        match self.spec_violation().spec_position() {
            ViolationPosition::Unlocalized => 0,
            ViolationPosition::Line(line) => line as int,
            ViolationPosition::LineCol((line, _)) => line as int,
        }
    }

    /// The column this diagnostic sorts at: 0 when the violation carries no
    /// position or only a line.
    pub open spec fn key_col(&self) -> int {
        match self.spec_violation().spec_position() {
            ViolationPosition::Unlocalized => 0,
            ViolationPosition::Line(_) => 0,
            ViolationPosition::LineCol((_, col)) => col as int,
        }
    }

    pub fn new(path: &str, code: &str, violation: &Violation) -> (d: Self)
        ensures
            d.spec_path() == path@,
            d.spec_code() == code@,
            d.spec_violation() == *violation,
    {
        Diagnostic { path: path.to_owned(), code: code.to_owned(), violation: violation.duplicate() }
    }

    /// The derived sort key `(path, effective line, effective column, code)`
    /// of this diagnostic, with 0 standing in for missing position parts.
    pub fn orderable(&self) -> (r: (&str, usize, usize, &str))
        ensures
            r.0@ == self.spec_path(),
            r.1 as int == self.key_line(),
            r.2 as int == self.key_col(),
            r.3@ == self.spec_code(),
    {
        match self.violation.position() {
            ViolationPosition::Unlocalized => (self.path.as_str(), 0, 0, self.code.as_str()),
            ViolationPosition::Line(line) => (self.path.as_str(), line, 0, self.code.as_str()),
            ViolationPosition::LineCol((line, col)) => (
                self.path.as_str(),
                line,
                col,
                self.code.as_str(),
            ),
        }
    }
}

/// The total order on diagnostics: by path, then effective line, then
/// effective column, then code.
pub open spec fn key_le(a: Diagnostic, b: Diagnostic) -> bool {
    if a.spec_path() != b.spec_path() {
        seq_char_le(a.spec_path(), b.spec_path())
    } else if a.key_line() != b.key_line() {
        a.key_line() < b.key_line()
    } else if a.key_col() != b.key_col() {
        a.key_col() < b.key_col()
    } else {
        seq_char_le(a.spec_code(), b.spec_code())
    }
}

/// Whether the four sort-key components of two diagnostics coincide.
pub open spec fn same_key(a: Diagnostic, b: Diagnostic) -> bool {
    a.spec_path() == b.spec_path() && a.key_line() == b.key_line() && a.key_col() == b.key_col()
        && a.spec_code() == b.spec_code()
}

/// Ordering totality: any two diagnostics are comparable.
pub proof fn lemma_key_le_total(a: Diagnostic, b: Diagnostic)
    ensures
        key_le(a, b) || key_le(b, a),
{
    lemma_seq_char_le_total(a.spec_path(), b.spec_path());
    lemma_seq_char_le_total(a.spec_code(), b.spec_code());
}

/// Ordering antisymmetry: no two diagnostics with different keys compare
/// equal — mutual order implies all four key components match exactly.
pub proof fn lemma_key_le_antisymmetric(a: Diagnostic, b: Diagnostic)
    requires
        key_le(a, b),
        key_le(b, a),
    ensures
        same_key(a, b),
{
    if a.spec_path() != b.spec_path() {
        lemma_seq_char_le_antisymmetric(a.spec_path(), b.spec_path());
    }
    lemma_seq_char_le_antisymmetric(a.spec_code(), b.spec_code());
}

/// Ordering transitivity.
pub proof fn lemma_key_le_transitive(a: Diagnostic, b: Diagnostic, c: Diagnostic)
    requires
        key_le(a, b),
        key_le(b, c),
    ensures
        key_le(a, c),
{
    if a.spec_path() == b.spec_path() && b.spec_path() == c.spec_path() {
        if a.key_line() == b.key_line() && b.key_line() == c.key_line() && a.key_col()
            == b.key_col() && b.key_col() == c.key_col() {
            lemma_seq_char_le_transitive(a.spec_code(), b.spec_code(), c.spec_code());
        }
    } else if a.spec_path() == b.spec_path() {
        // a and b share a path ordered strictly before c's.
    } else if b.spec_path() == c.spec_path() {
        // b and c share a path ordered strictly after a's.
    } else {
        lemma_seq_char_le_transitive(a.spec_path(), b.spec_path(), c.spec_path());
        if a.spec_path() == c.spec_path() {
            lemma_seq_char_le_antisymmetric(b.spec_path(), c.spec_path());
        }
    }
}

impl PartialEq for Diagnostic {
    /// Diagnostics compare as their sort keys do: two diagnostics are equal
    /// exactly when all four key components match.
    fn eq(&self, other: &Diagnostic) -> (r: bool) {
        let (path_a, line_a, col_a, code_a) = self.orderable();
        let (path_b, line_b, col_b, code_b) = other.orderable();
        str_eq(path_a, path_b) && line_a == line_b && col_a == col_b && str_eq(code_a, code_b)
    }
}

impl vstd::std_specs::cmp::PartialEqSpecImpl for Diagnostic {
    open spec fn obeys_eq_spec() -> bool {
        true
    }

    open spec fn eq_spec(&self, other: &Diagnostic) -> bool {
        same_key(*self, *other)
    }
}

/// Lexicographic comparison of two string slices, by code point.
fn str_le(a: &str, b: &str) -> (r: bool)
    ensures
        r == seq_char_le(a@, b@),
    decreases a@.len(),
{
    let a_len = a.unicode_len();
    let b_len = b.unicode_len();
    if a_len == 0 {
        true
    } else if b_len == 0 {
        false
    } else {
        let ca = a.get_char(0);
        let cb = b.get_char(0);
        if ca != cb {
            ca < cb
        } else {
            str_le(a.substring_char(1, a_len), b.substring_char(1, b_len))
        }
    }
}

impl Diagnostic {
    /// Whether this diagnostic sorts at or before another in the total
    /// diagnostic order.
    pub fn le(&self, other: &Diagnostic) -> (r: bool)
        ensures
            r == key_le(*self, *other),
    {
        if !str_eq(self.path.as_str(), other.path.as_str()) {
            return str_le(self.path.as_str(), other.path.as_str());
        }
        let (_, line_a, col_a, _) = self.orderable();
        let (_, line_b, col_b, _) = other.orderable();
        if line_a != line_b {
            return line_a < line_b;
        }
        if col_a != col_b {
            return col_a < col_b;
        }
        str_le(self.code.as_str(), other.code.as_str())
    }

    /// Renders this diagnostic: a single `<path>: <code> <message>` line
    /// when the violation carries no position, else a title line over an
    /// annotated excerpt of the file around the violation line (with column
    /// 0 when only the line is known). `lines` is the referenced file's
    /// text, split into lines, re-read at render time.
    pub fn render(&self, lines: &Vec<String>) -> (r: String)
        requires
            match self.spec_violation().spec_position() {
                ViolationPosition::Unlocalized => true,
                ViolationPosition::Line(line) => localized_requires(
                    line as int,
                    0,
                    self.spec_code(),
                    lines.deep_view(),
                ),
                ViolationPosition::LineCol((line, col)) => localized_requires(
                    line as int,
                    col as int,
                    self.spec_code(),
                    lines.deep_view(),
                ),
            },
        ensures
            r@ == match self.spec_violation().spec_position() {
                ViolationPosition::Unlocalized => spec_render_unlocalized(
                    self.spec_path(),
                    self.spec_code(),
                    self.spec_violation().spec_message(),
                ),
                ViolationPosition::Line(line) => spec_render_localized(
                    self.spec_path(),
                    self.spec_code(),
                    self.spec_violation().spec_message(),
                    line as int,
                    0,
                    lines.deep_view(),
                ),
                ViolationPosition::LineCol((line, col)) => spec_render_localized(
                    self.spec_path(),
                    self.spec_code(),
                    self.spec_violation().spec_message(),
                    line as int,
                    col as int,
                    lines.deep_view(),
                ),
            },
    {
        match self.violation.position() {
            ViolationPosition::Unlocalized => render_unlocalized(
                self.path.as_str(),
                self.code.as_str(),
                self.violation.message(),
            ),
            ViolationPosition::Line(line) => render_localized(
                self.path.as_str(),
                self.code.as_str(),
                self.violation.message(),
                line,
                0,
                lines,
            ),
            ViolationPosition::LineCol((line, col)) => render_localized(
                self.path.as_str(),
                self.code.as_str(),
                self.violation.message(),
                line,
                col,
                lines,
            ),
        }
    }

    /// Renders this diagnostic like `render`, hardened: when the violation's
    /// line does not lie within `lines`, or the annotation offset would not
    /// fit the machine, it falls back to the unlocalized single-line form,
    /// so one changed file does not lose the rest of a report.
    pub fn render_or_fallback(&self, lines: &Vec<String>) -> (r: String)
        ensures
            r@ == (match self.spec_violation().spec_position() {
                ViolationPosition::Unlocalized => spec_render_unlocalized(
                    self.spec_path(),
                    self.spec_code(),
                    self.spec_violation().spec_message(),
                ),
                ViolationPosition::Line(line) => if localized_requires(
                    line as int,
                    0,
                    self.spec_code(),
                    lines.deep_view(),
                ) {
                    spec_render_localized(
                        self.spec_path(),
                        self.spec_code(),
                        self.spec_violation().spec_message(),
                        line as int,
                        0,
                        lines.deep_view(),
                    )
                } else {
                    spec_render_unlocalized(
                        self.spec_path(),
                        self.spec_code(),
                        self.spec_violation().spec_message(),
                    )
                },
                ViolationPosition::LineCol((line, col)) => if localized_requires(
                    line as int,
                    col as int,
                    self.spec_code(),
                    lines.deep_view(),
                ) {
                    spec_render_localized(
                        self.spec_path(),
                        self.spec_code(),
                        self.spec_violation().spec_message(),
                        line as int,
                        col as int,
                        lines.deep_view(),
                    )
                } else {
                    spec_render_unlocalized(
                        self.spec_path(),
                        self.spec_code(),
                        self.spec_violation().spec_message(),
                    )
                },
            }),
    {
        match self.violation.position() {
            ViolationPosition::Unlocalized => render_unlocalized(
                self.path.as_str(),
                self.code.as_str(),
                self.violation.message(),
            ),
            ViolationPosition::Line(line) => {
                if localized_in_bounds(lines, line, 0, self.code.as_str()) {
                    render_localized(
                        self.path.as_str(),
                        self.code.as_str(),
                        self.violation.message(),
                        line,
                        0,
                        lines,
                    )
                } else {
                    render_unlocalized(
                        self.path.as_str(),
                        self.code.as_str(),
                        self.violation.message(),
                    )
                }
            },
            ViolationPosition::LineCol((line, col)) => {
                if localized_in_bounds(lines, line, col, self.code.as_str()) {
                    render_localized(
                        self.path.as_str(),
                        self.code.as_str(),
                        self.violation.message(),
                        line,
                        col,
                        lines,
                    )
                } else {
                    render_unlocalized(
                        self.path.as_str(),
                        self.code.as_str(),
                        self.violation.message(),
                    )
                }
            },
        }
    }

    /// The place of this diagnostic relative to another in the total
    /// diagnostic order, as a three-way comparison.
    pub fn cmp(&self, other: &Diagnostic) -> (r: core::cmp::Ordering)
        ensures
            r is Equal <==> same_key(*self, *other),
            r is Less <==> key_le(*self, *other) && !same_key(*self, *other),
            r is Greater <==> key_le(*other, *self) && !same_key(*self, *other),
    {
        proof {
            lemma_key_le_total(*self, *other);
        }
        let le_ab = self.le(other);
        let le_ba = other.le(self);
        if le_ab && le_ba {
            proof {
                lemma_key_le_antisymmetric(*self, *other);
            }
            core::cmp::Ordering::Equal
        } else if le_ab {
            core::cmp::Ordering::Less
        } else {
            core::cmp::Ordering::Greater
        }
    }
}

} // verus!
