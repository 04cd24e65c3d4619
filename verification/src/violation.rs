use vstd::prelude::*;

use crate::text::str_eq;

verus! {

/// The location within a file at which a violation was detected. Lines and
/// columns are 1-indexed; `Unlocalized` means the rule could not localize
/// the problem, `Line` that only a line is known.
#[derive(Clone, Copy, Debug, Eq, PartialEq)]
pub enum ViolationPosition {
    Unlocalized,
    Line(usize),
    LineCol((usize, usize)),
}

/// One syntax-tree node, as this core reads it: the node-kind tag and the
/// 0-indexed row and column at which the node starts. The parser that
/// produces nodes is an external collaborator; a driver converts each of its
/// nodes into this form.
#[derive(Clone, Debug)]
pub struct Node {
    /// The node-kind tag, used to match a rule's entrypoints.
    pub kind: String,
    /// 0-indexed row of the node's start.
    pub row: usize,
    /// 0-indexed column of the node's start.
    pub col: usize,
}

/// One detected problem: a description and the position at which it was
/// found. Created once by a rule's analysis function, never mutated.
#[derive(Clone, Debug)]
pub struct Violation {
    /// Description of the error.
    message: String,
    /// The location at which the error was detected.
    position: ViolationPosition,
}

impl Violation {
    /// The characters of the description.
    pub closed spec fn spec_message(&self) -> Seq<char> {
        self.message@
    }

    /// The position carried by this violation.
    pub closed spec fn spec_position(&self) -> ViolationPosition {
        self.position
    }

    pub fn new(message: &str, position: ViolationPosition) -> (v: Self)
        ensures
            v.spec_message() == message@,
            v.spec_position() == position,
    {
        Violation { message: message.to_owned(), position }
    }

    /// A violation located at a node's start, converted to the 1-indexed
    /// line and column convention of positions.
    pub fn from_node(message: &str, node: &Node) -> (v: Self)
        requires
            node.row < usize::MAX,
            node.col < usize::MAX,
        ensures
            v.spec_message() == message@,
            v.spec_position() == ViolationPosition::LineCol(
                ((node.row + 1) as usize, (node.col + 1) as usize),
            ),
    {
        Violation::new(message, ViolationPosition::LineCol((node.row + 1, node.col + 1)))
    }

    pub fn message(&self) -> (r: &str)
        ensures
            r@ == self.spec_message(),
    {
        self.message.as_str()
    }

    pub fn position(&self) -> (r: ViolationPosition)
        ensures
            r == self.spec_position(),
    {
        self.position
    }

    /// A copy with the same message and position.
    pub fn duplicate(&self) -> (v: Self)
        ensures
            v == *self,
    {
        Violation { message: self.message.clone(), position: self.position }
    }
}

impl PartialEq for Violation {
    /// Two violations are equal when they carry the same description and
    /// the same position.
    fn eq(&self, other: &Violation) -> (r: bool) {
        let position_same = match (self.position, other.position) {
            (ViolationPosition::Unlocalized, ViolationPosition::Unlocalized) => true,
            (ViolationPosition::Line(a), ViolationPosition::Line(b)) => a == b,
            (ViolationPosition::LineCol((a, b)), ViolationPosition::LineCol((c, d))) => a == c
                && b == d,
            _ => false,
        };
        position_same && str_eq(self.message.as_str(), other.message.as_str())
    }
}

impl vstd::std_specs::cmp::PartialEqSpecImpl for Violation {
    open spec fn obeys_eq_spec() -> bool {
        true
    }

    open spec fn eq_spec(&self, other: &Violation) -> bool {
        self.spec_message() == other.spec_message() && self.spec_position()
            == other.spec_position()
    }
}

} // verus!
