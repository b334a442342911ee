//! Command nodes: the tagged values held at each tree position, their
//! merge-equality rule, display rendering, and number validation.
use vstd::prelude::*;

use crate::chars::append_chars;
use crate::num::{dec_int, push_dec_i64};

verus! {

/// A string-format constraint on a text parameter. The format is kept
/// for display; any token is accepted (the constraint semantics live at
/// the schema boundary, outside this core).
pub struct TextValidator {
    pub format: Vec<char>,
}

/// An inclusive signed 64-bit range, with the type's extremes standing
/// for "unbounded" on either side.
pub struct NumberValidator {
    pub minimum: i64,
    pub maximum: i64,
}

/// One command-tree position: a literal keyword, a text parameter slot,
/// or a number parameter slot, each with a description.
pub enum Node {
    Fixed(Vec<char>, Vec<char>),
    Text(TextValidator, Vec<char>),
    Number(NumberValidator, Vec<char>),
}

/// The mathematical value of a node.
#[verifier::ext_equal]
pub enum NodeModel {
    Fixed { name: Seq<char>, description: Seq<char> },
    Text { format: Seq<char>, description: Seq<char> },
    Number { minimum: i64, maximum: i64, description: Seq<char> },
}

impl View for Node {
    type V = NodeModel;

    open spec fn view(&self) -> NodeModel {
        match self {
            Node::Fixed(name, d) => NodeModel::Fixed { name: name@, description: d@ },
            Node::Text(v, d) => NodeModel::Text { format: v.format@, description: d@ },
            Node::Number(v, d) => NodeModel::Number {
                minimum: v.minimum,
                maximum: v.maximum,
                description: d@,
            },
        }
    }
}

/// Merge equality, not value equality: two `Fixed` nodes are equal iff
/// their names match; any two `Text` nodes are equal; any two `Number`
/// nodes are equal. The builder collapses merge-equal siblings, so only
/// the first-inserted validator and description of a parameter slot
/// survive; later ones are deliberately discarded.
pub open spec fn spec_merge_eq(a: NodeModel, b: NodeModel) -> bool {
    match (a, b) {
        (NodeModel::Fixed { name: n1, .. }, NodeModel::Fixed { name: n2, .. }) => n1 == n2,
        (NodeModel::Text { .. }, NodeModel::Text { .. }) => true,
        (NodeModel::Number { .. }, NodeModel::Number { .. }) => true,
        _ => false,
    }
}

impl Node {
    pub fn merge_eq(&self, other: &Node) -> (r: bool)
        ensures
            r == spec_merge_eq(self@, other@),
    {
        match (self, other) {
            (Node::Fixed(n1, _), Node::Fixed(n2, _)) => crate::chars::chars_eq(n1, n2),
            (Node::Text(_, _), Node::Text(_, _)) => true,
            (Node::Number(_, _), Node::Number(_, _)) => true,
            _ => false,
        }
    }

    pub fn description(&self) -> (r: &Vec<char>)
        ensures
            r@ == self@.description(),
    {
        match self {
            Node::Fixed(_, d) => d,
            Node::Text(_, d) => d,
            Node::Number(_, d) => d,
        }
    }
}

impl NodeModel {
    /// The node's description text.
    pub open spec fn description(self) -> Seq<char> {
        match self {
            NodeModel::Fixed { description, .. } => description,
            NodeModel::Text { description, .. } => description,
            NodeModel::Number { description, .. } => description,
        }
    }
}

/// The short descriptor of a number range, e.g. `<1~10>`, with `inf`
/// standing for an unbounded side.
pub open spec fn spec_render_range(minimum: i64, maximum: i64) -> Seq<char> {
    if minimum == i64::MIN && maximum == i64::MAX {
        seq!['<', 'n', 'u', 'm', 'b', 'e', 'r', '>']
    } else if minimum == i64::MIN {
        seq!['<', '-', 'i', 'n', 'f', '~'] + dec_int(maximum as int) + seq!['>']
    } else if maximum == i64::MAX {
        seq!['<'] + dec_int(minimum as int) + seq!['~', 'i', 'n', 'f', ')', '>']
    } else {
        seq!['<'] + dec_int(minimum as int) + seq!['~'] + dec_int(maximum as int) + seq!['>']
    }
}

/// How a node shows in a listing: a literal by its name, a parameter by
/// its validator's short descriptor.
pub open spec fn spec_render(n: NodeModel) -> Seq<char> {
    match n {
        NodeModel::Fixed { name, .. } => name,
        NodeModel::Text { format, .. } => seq!['<'] + format + seq!['>'],
        NodeModel::Number { minimum, maximum, .. } => spec_render_range(minimum, maximum),
    }
}

pub fn render_range(v: &NumberValidator) -> (r: Vec<char>)
    ensures
        r@ == spec_render_range(v.minimum, v.maximum),
{
    let mut r: Vec<char> = Vec::new();
    if v.minimum == i64::MIN && v.maximum == i64::MAX {
        r.push('<');
        r.push('n');
        r.push('u');
        r.push('m');
        r.push('b');
        r.push('e');
        r.push('r');
        r.push('>');
        assert(r@ =~= spec_render_range(v.minimum, v.maximum));
    } else if v.minimum == i64::MIN {
        r.push('<');
        r.push('-');
        r.push('i');
        r.push('n');
        r.push('f');
        r.push('~');
        push_dec_i64(&mut r, v.maximum);
        r.push('>');
        assert(r@ =~= spec_render_range(v.minimum, v.maximum));
    } else if v.maximum == i64::MAX {
        r.push('<');
        push_dec_i64(&mut r, v.minimum);
        r.push('~');
        r.push('i');
        r.push('n');
        r.push('f');
        r.push(')');
        r.push('>');
        assert(r@ =~= spec_render_range(v.minimum, v.maximum));
    } else {
        r.push('<');
        push_dec_i64(&mut r, v.minimum);
        r.push('~');
        push_dec_i64(&mut r, v.maximum);
        r.push('>');
        assert(r@ =~= spec_render_range(v.minimum, v.maximum));
    }
    r
}

pub fn render_node(n: &Node) -> (r: Vec<char>)
    ensures
        r@ == spec_render(n@),
{
    match n {
        Node::Fixed(name, _) => {
            let mut r: Vec<char> = Vec::new();
            append_chars(&mut r, name);
            r
        },
        Node::Text(v, _) => {
            let mut r: Vec<char> = Vec::new();
            r.push('<');
            append_chars(&mut r, &v.format);
            r.push('>');
            assert(r@ =~= spec_render(n@));
            r
        },
        Node::Number(v, _) => render_range(v),
    }
}

/// The rejection message of a number slot: its range descriptor
/// followed by ` expected`.
pub open spec fn spec_range_error(minimum: i64, maximum: i64) -> Seq<char> {
    spec_render_range(minimum, maximum) + seq![' ', 'e', 'x', 'p', 'e', 'c', 't', 'e', 'd']
}

/// A number token within the validator's inclusive range passes; one
/// outside it is rejected with the range message.
pub open spec fn spec_validate_number(minimum: i64, maximum: i64, n: int) -> Option<Seq<char>> {
    if minimum <= n <= maximum {
        None
    } else {
        Some(spec_range_error(minimum, maximum))
    }
}

pub fn validate_number(v: &NumberValidator, n: i64) -> (r: Option<Vec<char>>)
    ensures
        match r {
            None => spec_validate_number(v.minimum, v.maximum, n as int) is None,
            Some(m) => spec_validate_number(v.minimum, v.maximum, n as int) == Some(m@),
        },
{
    if v.minimum <= n && n <= v.maximum {
        None
    } else {
        let mut m = render_range(v);
        m.push(' ');
        m.push('e');
        m.push('x');
        m.push('p');
        m.push('e');
        m.push('c');
        m.push('t');
        m.push('e');
        m.push('d');
        assert(m@ =~= spec_range_error(v.minimum, v.maximum));
        Some(m)
    }
}

/// One path component of an API route, as handed in by the schema
/// boundary: fixed text, a string-constrained parameter, or an
/// integer-range parameter.
pub enum Segment {
    Fixed(Vec<char>),
    Text(Vec<char>, Vec<char>),
    Number(i64, i64, Vec<char>),
}

/// The mathematical value of a segment.
#[verifier::ext_equal]
pub enum SegmentModel {
    Fixed { name: Seq<char> },
    Text { format: Seq<char>, description: Seq<char> },
    Number { minimum: i64, maximum: i64, description: Seq<char> },
}

impl View for Segment {
    type V = SegmentModel;

    open spec fn view(&self) -> SegmentModel {
        match self {
            Segment::Fixed(name) => SegmentModel::Fixed { name: name@ },
            Segment::Text(format, d) => SegmentModel::Text { format: format@, description: d@ },
            Segment::Number(min, max, d) => SegmentModel::Number {
                minimum: *min,
                maximum: *max,
                description: d@,
            },
        }
    }
}

/// The node a segment becomes: a fixed segment gets the placeholder
/// description `...`.
pub open spec fn spec_node_of_segment(s: SegmentModel) -> NodeModel {
    match s {
        SegmentModel::Fixed { name } => NodeModel::Fixed {
            name,
            description: seq!['.', '.', '.'],
        },
        SegmentModel::Text { format, description } => NodeModel::Text { format, description },
        SegmentModel::Number { minimum, maximum, description } => NodeModel::Number {
            minimum,
            maximum,
            description,
        },
    }
}

pub fn node_of_segment(s: Segment) -> (r: Node)
    ensures
        r@ == spec_node_of_segment(s@),
{
    match s {
        Segment::Fixed(name) => {
            let mut d: Vec<char> = Vec::new();
            d.push('.');
            d.push('.');
            d.push('.');
            assert(d@ =~= seq!['.', '.', '.']);
            Node::Fixed(name, d)
        },
        Segment::Text(format, d) => Node::Text(TextValidator { format }, d),
        Segment::Number(min, max, d) => Node::Number(
            NumberValidator { minimum: min, maximum: max },
            d,
        ),
    }
}

} // verus!
