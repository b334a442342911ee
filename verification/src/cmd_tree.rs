//! Walking the command tree: token validation against the children of
//! a position, prefix completion over literal children, and full child
//! listings for help output.
use vstd::prelude::*;

use crate::chars::{append_chars, chars_eq, has_prefix, push_spaces, spaces, starts_with};
use crate::node::{render_node, spec_render, spec_validate_number, NodeModel};
use crate::num::{int_literal_val, is_int_literal, parse_i64};
use crate::num::{dec_int, push_dec_u64};
use crate::tree::{shape_ascending, CmdTree, TreeShape};

verus! {

/// The default rejection when no child exists or none accepted.
pub open spec fn none_matched() -> Seq<char> {
    seq!['N', 'o', 'n', 'e', ' ', 'm', 'a', 't', 'c', 'h', 'e', 'd']
}

/// The distinct error of a number slot whose token is not an integer.
pub open spec fn not_a_number() -> Seq<char> {
    seq!['N', 'o', 't', ' ', 'a', ' ', 'n', 'u', 'm', 'b', 'e', 'r']
}

pub fn none_matched_msg() -> (r: Vec<char>)
    ensures
        r@ == none_matched(),
{
    let mut r: Vec<char> = Vec::new();
    r.push('N');
    r.push('o');
    r.push('n');
    r.push('e');
    r.push(' ');
    r.push('m');
    r.push('a');
    r.push('t');
    r.push('c');
    r.push('h');
    r.push('e');
    r.push('d');
    proof {
        assert(r@ =~= none_matched());
    }
    r
}

pub fn not_a_number_msg() -> (r: Vec<char>)
    ensures
        r@ == not_a_number(),
{
    let mut r: Vec<char> = Vec::new();
    r.push('N');
    r.push('o');
    r.push('t');
    r.push(' ');
    r.push('a');
    r.push(' ');
    r.push('n');
    r.push('u');
    r.push('m');
    r.push('b');
    r.push('e');
    r.push('r');
    proof {
        assert(r@ =~= not_a_number());
    }
    r
}

/// What one child contributes to a token scan: a match that stops the
/// scan, a silent skip (a literal with another name), a rejection that
/// overwrites the pending error, or a hard stop that ends the scan
/// with its own error at once.
pub enum ChildOutcome {
    Match,
    Skip,
    Reject(Seq<char>),
    Hard(Seq<char>),
}

/// How a token fares against one node: a literal matches only its own
/// name and never complains; a text parameter accepts any token; a
/// number parameter hard-stops on a non-integer token and rejects one
/// outside its range.
pub open spec fn child_outcome(n: NodeModel, token: Seq<char>) -> ChildOutcome {
    match n {
        NodeModel::Fixed { name, .. } => if name == token {
            ChildOutcome::Match
        } else {
            ChildOutcome::Skip
        },
        NodeModel::Text { .. } => ChildOutcome::Match,
        NodeModel::Number { minimum, maximum, .. } => if !(is_int_literal(token) && i64::MIN
            <= int_literal_val(token) <= i64::MAX) {
            ChildOutcome::Hard(not_a_number())
        } else {
            match spec_validate_number(minimum, maximum, int_literal_val(token)) {
                None => ChildOutcome::Match,
                Some(m) => ChildOutcome::Reject(m),
            }
        },
    }
}

/// The scan over a child list in sibling order: the first match wins
/// and stops the scan; a later rejection overwrites an earlier one, so
/// when nothing matches the last rejection encountered is surfaced.
pub open spec fn spec_scan(
    shape: TreeShape,
    kids: Seq<usize>,
    token: Seq<char>,
    err: Seq<char>,
) -> Result<usize, Seq<char>>
    decreases kids.len(),
{
    if kids.len() == 0 {
        Err(err)
    } else {
        let c = kids[0];
        match child_outcome(shape.nodes[c as int], token) {
            ChildOutcome::Match => Ok(c),
            ChildOutcome::Skip => spec_scan(shape, kids.drop_first(), token, err),
            ChildOutcome::Reject(m) => spec_scan(shape, kids.drop_first(), token, m),
            ChildOutcome::Hard(m) => Err(m),
        }
    }
}

/// A scan result that matched: the child's handle.
pub open spec fn scan_ok(h: usize) -> Result<usize, Seq<char>> {
    Ok(h)
}

/// A scan result that failed: the surviving message.
pub open spec fn scan_err(m: Seq<char>) -> Result<usize, Seq<char>> {
    Err(m)
}

/// What validating a token at a position yields: the handle of the
/// matching child, or the surviving rejection message.
pub open spec fn spec_validate_token(shape: TreeShape, token: Seq<char>, at: int) -> Result<
    usize,
    Seq<char>,
> {
    spec_scan(shape, shape.kids[at], token, none_matched())
}

/// Last error wins: when a position has exactly two children and both
/// reject the token (neither matches nor hard-stops), the second
/// child's rejection is the one surfaced.
pub proof fn lemma_last_error_wins(
    shape: TreeShape,
    at: int,
    token: Seq<char>,
    c1: usize,
    c2: usize,
    e1: Seq<char>,
    e2: Seq<char>,
)
    requires
        0 <= at < shape.kids.len(),
        shape.kids[at] == seq![c1, c2],
        child_outcome(shape.nodes[c1 as int], token) == ChildOutcome::Reject(e1),
        child_outcome(shape.nodes[c2 as int], token) == ChildOutcome::Reject(e2),
    ensures
        spec_validate_token(shape, token, at) == scan_err(e2),
{
    let kids = shape.kids[at];
    assert(kids.drop_first() =~= seq![c2]);
    assert(seq![c2].drop_first() =~= Seq::<usize>::empty());
    assert(spec_scan(shape, seq![c2], token, e1) == spec_scan(
        shape,
        Seq::<usize>::empty(),
        token,
        e2,
    ));
}

/// Decides which child of `index` the token matches, in sibling order,
/// or surfaces the surviving rejection message.
pub fn validate_token(tree: &CmdTree, token: &Vec<char>, index: usize) -> (r: Result<
    usize,
    Vec<char>,
>)
    requires
        tree.wf(),
        index < tree.size(),
    ensures
        match r {
            Ok(h) => spec_validate_token(tree.shape(), token@, index as int) == scan_ok(h) && h
                < tree.size(),
            Err(m) => spec_validate_token(tree.shape(), token@, index as int) == scan_err(m@),
        },
{
    let ghost kids = tree.shape().kids[index as int];
    let child_count = tree.children_of(index).len();
    let mut err = none_matched_msg();
    proof {
        assert(kids.skip(0) =~= kids);
    }
    let mut j: usize = 0;
    while j < child_count
        invariant
            tree.wf(),
            index < tree.size(),
            child_count == kids.len(),
            kids == tree.shape().kids[index as int],
            j <= child_count,
            spec_validate_token(tree.shape(), token@, index as int) == spec_scan(
                tree.shape(),
                kids.skip(j as int),
                token@,
                err@,
            ),
        decreases child_count - j,
    {
        let c = tree.children_of(index)[j];
        assert(c == kids[j as int] && c < tree.size());
        proof {
            assert(kids.skip(j as int).drop_first() =~= kids.skip(j + 1));
            assert(kids.skip(j as int)[0] == c);
        }
        match tree.node_at(c) {
            crate::node::Node::Fixed(name, _) => {
                if chars_eq(name, token) {
                    assert(child_outcome(tree.shape().nodes[c as int], token@)
                        == ChildOutcome::Match);
                    return Ok(c);
                }
                assert(child_outcome(tree.shape().nodes[c as int], token@) == ChildOutcome::Skip);
            },
            crate::node::Node::Text(_, _) => {
                assert(child_outcome(tree.shape().nodes[c as int], token@) == ChildOutcome::Match);
                return Ok(c);
            },
            crate::node::Node::Number(v, _) => {
                match parse_i64(token) {
                    Some(value) => {
                        match crate::node::validate_number(v, value) {
                            None => {
                                assert(child_outcome(tree.shape().nodes[c as int], token@)
                                    == ChildOutcome::Match);
                                return Ok(c);
                            },
                            Some(m) => {
                                assert(child_outcome(tree.shape().nodes[c as int], token@)
                                    == ChildOutcome::Reject(m@));
                                err = m;
                            },
                        }
                    },
                    None => {
                        let m = not_a_number_msg();
                        assert(child_outcome(tree.shape().nodes[c as int], token@)
                            == ChildOutcome::Hard(m@));
                        return Err(m);
                    },
                }
            },
        }
        j += 1;
    }
    proof {
        assert(kids.skip(child_count as int) =~= Seq::<usize>::empty());
    }
    Err(err)
}

/// A literal name padded with spaces to at least ten columns.
pub open spec fn pad10(s: Seq<char>) -> Seq<char> {
    if s.len() >= 10 {
        s
    } else {
        s + spaces((10 - s.len()) as nat)
    }
}

/// One listing line: ` <name padded> <description>` and a newline.
pub open spec fn listing_line(name: Seq<char>, descr: Seq<char>) -> Seq<char> {
    seq![' '] + pad10(name) + seq![' '] + descr + seq!['\n']
}

fn push_listing_line(out: &mut Vec<char>, name: &Vec<char>, descr: &Vec<char>)
    ensures
        final(out)@ == old(out)@ + listing_line(name@, descr@),
{
    out.push(' ');
    append_chars(out, name);
    if name.len() < 10 {
        let pad = 10 - name.len();
        push_spaces(out, pad);
    }
    out.push(' ');
    append_chars(out, descr);
    out.push('\n');
    proof {
        assert(final(out)@ =~= old(out)@ + listing_line(name@, descr@));
    }
}

/// The completion listing at a position: one line per literal child
/// whose name starts with the token, in sibling order; parameter
/// children are never offered.
pub open spec fn spec_globbing(shape: TreeShape, kids: Seq<usize>, token: Seq<char>) -> Seq<char>
    decreases kids.len(),
{
    if kids.len() == 0 {
        Seq::empty()
    } else {
        let rest = spec_globbing(shape, kids.drop_first(), token);
        match shape.nodes[kids[0] as int] {
            NodeModel::Fixed { name, description } => if has_prefix(name, token) {
                listing_line(name, description) + rest
            } else {
                rest
            },
            _ => rest,
        }
    }
}

pub fn globbing(tree: &CmdTree, token: &Vec<char>, index: usize) -> (r: Vec<char>)
    requires
        tree.wf(),
        index < tree.size(),
    ensures
        r@ == spec_globbing(tree.shape(), tree.shape().kids[index as int], token@),
{
    let ghost kids = tree.shape().kids[index as int];
    let child_count = tree.children_of(index).len();
    let mut out: Vec<char> = Vec::new();
    proof {
        assert(kids.skip(0) =~= kids);
        assert(out@ + spec_globbing(tree.shape(), kids, token@) =~= spec_globbing(
            tree.shape(),
            kids,
            token@,
        ));
    }
    let mut j: usize = 0;
    while j < child_count
        invariant
            tree.wf(),
            index < tree.size(),
            child_count == kids.len(),
            kids == tree.shape().kids[index as int],
            j <= child_count,
            spec_globbing(tree.shape(), kids, token@) == out@ + spec_globbing(
                tree.shape(),
                kids.skip(j as int),
                token@,
            ),
        decreases child_count - j,
    {
        let c = tree.children_of(index)[j];
        assert(c == kids[j as int] && c < tree.size());
        proof {
            assert(kids.skip(j as int).drop_first() =~= kids.skip(j + 1));
            assert(kids.skip(j as int)[0] == c);
        }
        match tree.node_at(c) {
            crate::node::Node::Fixed(name, description) => {
                if starts_with(name, token) {
                    push_listing_line(&mut out, name, description);
                    proof {
                        assert(spec_globbing(tree.shape(), kids, token@) =~= out@ + spec_globbing(
                            tree.shape(),
                            kids.skip(j + 1),
                            token@,
                        ));
                    }
                }
            },
            _ => {},
        }
        j += 1;
    }
    proof {
        assert(kids.skip(child_count as int) =~= Seq::<usize>::empty());
        assert(out@ =~= out@ + spec_globbing(tree.shape(), kids.skip(child_count as int), token@));
    }
    out
}

/// The full listing at a position: one line per child of any kind, a
/// literal by its name, a parameter by its validator's descriptor, in
/// sibling order.
pub open spec fn spec_dump_all(shape: TreeShape, kids: Seq<usize>) -> Seq<char>
    decreases kids.len(),
{
    if kids.len() == 0 {
        Seq::empty()
    } else {
        let n = shape.nodes[kids[0] as int];
        listing_line(spec_render(n), n.description()) + spec_dump_all(shape, kids.drop_first())
    }
}

pub fn dump_all(tree: &CmdTree, index: usize) -> (r: Vec<char>)
    requires
        tree.wf(),
        index < tree.size(),
    ensures
        r@ == spec_dump_all(tree.shape(), tree.shape().kids[index as int]),
{
    let ghost kids = tree.shape().kids[index as int];
    let child_count = tree.children_of(index).len();
    let mut out: Vec<char> = Vec::new();
    proof {
        assert(kids.skip(0) =~= kids);
        assert(out@ + spec_dump_all(tree.shape(), kids) =~= spec_dump_all(tree.shape(), kids));
    }
    let mut j: usize = 0;
    while j < child_count
        invariant
            tree.wf(),
            index < tree.size(),
            child_count == kids.len(),
            kids == tree.shape().kids[index as int],
            j <= child_count,
            spec_dump_all(tree.shape(), kids) == out@ + spec_dump_all(
                tree.shape(),
                kids.skip(j as int),
            ),
        decreases child_count - j,
    {
        let c = tree.children_of(index)[j];
        assert(c == kids[j as int] && c < tree.size());
        proof {
            assert(kids.skip(j as int).drop_first() =~= kids.skip(j + 1));
            assert(kids.skip(j as int)[0] == c);
        }
        let node = tree.node_at(c);
        let name = render_node(node);
        let descr = node.description();
        push_listing_line(&mut out, &name, descr);
        proof {
            assert(spec_dump_all(tree.shape(), kids) =~= out@ + spec_dump_all(
                tree.shape(),
                kids.skip(j + 1),
            ));
        }
        j += 1;
    }
    proof {
        assert(kids.skip(child_count as int) =~= Seq::<usize>::empty());
        assert(out@ =~= out@ + spec_dump_all(tree.shape(), kids.skip(child_count as int)));
    }
    out
}

/// The built-in `quit` row appended to every query listing.
pub open spec fn quit_row() -> (Seq<char>, Seq<char>) {
    (
        seq!['q', 'u', 'i', 't'],
        seq![
            'Q',
            'u',
            'i',
            't',
            ' ',
            't',
            'o',
            ' ',
            'u',
            'p',
            'p',
            'e',
            'r',
            ' ',
            'l',
            'e',
            'v',
            'e',
            'l',
        ],
    )
}

/// The built-in `exit` row appended to every query listing.
pub open spec fn exit_row() -> (Seq<char>, Seq<char>) {
    (seq!['e', 'x', 'i', 't'], seq!['E', 'x', 'i', 't', ' ', 'C', 'L', 'I'])
}

/// The rows of a query at a position: one (display name, description)
/// pair per child in sibling order, then the built-in `quit` and
/// `exit` rows.
pub open spec fn spec_query(shape: TreeShape, kids: Seq<usize>) -> Seq<(Seq<char>, Seq<char>)>
    decreases kids.len(),
{
    if kids.len() == 0 {
        seq![quit_row(), exit_row()]
    } else {
        let n = shape.nodes[kids[0] as int];
        seq![(spec_render(n), n.description())] + spec_query(shape, kids.drop_first())
    }
}

/// Lists the children of `index` as (display name, description) rows,
/// with the built-in `quit` and `exit` rows appended.
pub fn query(tree: &CmdTree, index: usize) -> (r: Vec<(Vec<char>, Vec<char>)>)
    requires
        tree.wf(),
        index < tree.size(),
    ensures
        r@.map_values(|p: (Vec<char>, Vec<char>)| (p.0@, p.1@)) == spec_query(
            tree.shape(),
            tree.shape().kids[index as int],
        ),
{
    let ghost kids = tree.shape().kids[index as int];
    let child_count = tree.children_of(index).len();
    let mut out: Vec<(Vec<char>, Vec<char>)> = Vec::new();
    proof {
        assert(kids.skip(0) =~= kids);
        assert(out@.map_values(|p: (Vec<char>, Vec<char>)| (p.0@, p.1@)) =~= Seq::<(
            Seq<char>,
            Seq<char>,
        )>::empty());
    }
    let mut j: usize = 0;
    while j < child_count
        invariant
            tree.wf(),
            index < tree.size(),
            child_count == kids.len(),
            kids == tree.shape().kids[index as int],
            j <= child_count,
            spec_query(tree.shape(), kids) == out@.map_values(
                |p: (Vec<char>, Vec<char>)| (p.0@, p.1@),
            ) + spec_query(tree.shape(), kids.skip(j as int)),
        decreases child_count - j,
    {
        let c = tree.children_of(index)[j];
        assert(c == kids[j as int] && c < tree.size());
        proof {
            assert(kids.skip(j as int).drop_first() =~= kids.skip(j + 1));
            assert(kids.skip(j as int)[0] == c);
        }
        let node = tree.node_at(c);
        let name = render_node(node);
        let descr = crate::line_reader::copy_chars(node.description());
        let ghost before = out@.map_values(|p: (Vec<char>, Vec<char>)| (p.0@, p.1@));
        out.push((name, descr));
        proof {
            assert(out@.map_values(|p: (Vec<char>, Vec<char>)| (p.0@, p.1@)) =~= before.push(
                (spec_render(tree.shape().nodes[c as int]),
                tree.shape().nodes[c as int].description()),
            ));
            assert(spec_query(tree.shape(), kids) =~= out@.map_values(
                |p: (Vec<char>, Vec<char>)| (p.0@, p.1@),
            ) + spec_query(tree.shape(), kids.skip(j + 1)));
        }
        j += 1;
    }
    proof {
        assert(kids.skip(child_count as int) =~= Seq::<usize>::empty());
    }
    let mut quit_name: Vec<char> = Vec::new();
    quit_name.push('q');
    quit_name.push('u');
    quit_name.push('i');
    quit_name.push('t');
    let mut quit_descr: Vec<char> = Vec::new();
    quit_descr.push('Q');
    quit_descr.push('u');
    quit_descr.push('i');
    quit_descr.push('t');
    quit_descr.push(' ');
    quit_descr.push('t');
    quit_descr.push('o');
    quit_descr.push(' ');
    quit_descr.push('u');
    quit_descr.push('p');
    quit_descr.push('p');
    quit_descr.push('e');
    quit_descr.push('r');
    quit_descr.push(' ');
    quit_descr.push('l');
    quit_descr.push('e');
    quit_descr.push('v');
    quit_descr.push('e');
    quit_descr.push('l');
    let mut exit_name: Vec<char> = Vec::new();
    exit_name.push('e');
    exit_name.push('x');
    exit_name.push('i');
    exit_name.push('t');
    let mut exit_descr: Vec<char> = Vec::new();
    exit_descr.push('E');
    exit_descr.push('x');
    exit_descr.push('i');
    exit_descr.push('t');
    exit_descr.push(' ');
    exit_descr.push('C');
    exit_descr.push('L');
    exit_descr.push('I');
    proof {
        assert((quit_name@, quit_descr@) =~~= quit_row());
        assert((exit_name@, exit_descr@) =~~= exit_row());
    }
    let ghost before = out@.map_values(|p: (Vec<char>, Vec<char>)| (p.0@, p.1@));
    out.push((quit_name, quit_descr));
    out.push((exit_name, exit_descr));
    proof {
        assert(out@.map_values(|p: (Vec<char>, Vec<char>)| (p.0@, p.1@)) =~= before + seq![
            quit_row(),
            exit_row(),
        ]);
        assert(before + seq![quit_row(), exit_row()] =~= spec_query(tree.shape(), kids));
    }
    out
}

/// One `name@handle` entry per child, joined by `, `.
pub open spec fn spec_dump_header(shape: TreeShape, kids: Seq<usize>) -> Seq<char>
    decreases kids.len(),
{
    if kids.len() == 0 {
        Seq::empty()
    } else {
        let entry = spec_render(shape.nodes[kids[0] as int]) + seq!['@'] + dec_int(kids[0] as int);
        if kids.len() == 1 {
            entry
        } else {
            entry + seq![',', ' '] + spec_dump_header(shape, kids.drop_first())
        }
    }
}

/// The dumps of the positions in `kids`, concatenated; every handle in
/// `kids` lies above `h`, which grounds the recursion.
pub open spec fn spec_dump_kids(shape: TreeShape, kids: Seq<usize>, h: int) -> Seq<char>
    decreases shape.nodes.len() - h, kids.len(), 0nat,
{
    if !(0 <= h < shape.nodes.len()) || !shape_ascending(shape) || !(forall|j: int|
        0 <= j < kids.len() ==> h < (#[trigger] kids[j]) < shape.nodes.len()) {
        Seq::empty()
    } else if kids.len() == 0 {
        Seq::empty()
    } else {
        spec_dump_tree(shape, kids[0] as int) + spec_dump_kids(shape, kids.drop_first(), h)
    }
}

/// The pre-order dump of the subtree at a position: for each node with
/// children, one line `name@handle: child@handle, ...`, followed by the
/// dumps of its children; a node without children contributes nothing.
pub open spec fn spec_dump_tree(shape: TreeShape, h: int) -> Seq<char>
    decreases shape.nodes.len() - h, shape.kids[h].len(), 1nat,
{
    if !(0 <= h < shape.nodes.len()) || !shape_ascending(shape) {
        Seq::empty()
    } else {
        let kids = shape.kids[h];
        if kids.len() == 0 {
            Seq::empty()
        } else {
            spec_render(shape.nodes[h]) + seq!['@'] + dec_int(h) + seq![':', ' ']
                + spec_dump_header(shape, kids) + seq!['\n'] + spec_dump_kids(shape, kids, h)
        }
    }
}

/// Renders the subtree at `index`, one line per node that has children,
/// each child shown as `name@handle` in sibling order.
pub fn dump_cmd_tree(tree: &CmdTree, index: usize) -> (r: Vec<char>)
    requires
        tree.wf(),
        index < tree.size(),
    ensures
        r@ == spec_dump_tree(tree.shape(), index as int),
    decreases tree.size() - index,
{
    let ghost shape = tree.shape();
    proof {
        tree.lemma_shape_ascending();
    }
    let ghost kids = tree.shape().kids[index as int];
    let child_count = tree.children_of(index).len();
    let mut out: Vec<char> = Vec::new();
    if child_count == 0 {
        proof {
            assert(out@ =~= spec_dump_tree(shape, index as int));
        }
        return out;
    }
    let name = render_node(tree.node_at(index));
    append_chars(&mut out, &name);
    out.push('@');
    push_dec_u64(&mut out, index as u64);
    out.push(':');
    out.push(' ');
    proof {
        assert(dec_int(index as int) == crate::num::dec_nat(index as nat));
        assert(out@ =~= spec_render(shape.nodes[index as int]) + seq!['@'] + dec_int(
            index as int,
        ) + seq![':', ' ']);
    }
    let ghost lead = out@;
    let mut j: usize = 0;
    proof {
        assert(kids.skip(0) =~= kids);
    }
    while j < child_count
        invariant
            tree.wf(),
            index < tree.size(),
            shape == tree.shape(),
            shape_ascending(shape),
            child_count == kids.len(),
            child_count > 0,
            kids == shape.kids[index as int],
            j <= child_count,
            lead + spec_dump_header(shape, kids) == out@ + spec_dump_header(
                shape,
                kids.skip(j as int),
            ),
        decreases child_count - j,
    {
        let c = tree.children_of(index)[j];
        assert(c == kids[j as int] && index < c < tree.size());
        proof {
            assert(kids.skip(j as int).drop_first() =~= kids.skip(j + 1));
            assert(kids.skip(j as int)[0] == c);
        }
        let entry = render_node(tree.node_at(c));
        append_chars(&mut out, &entry);
        out.push('@');
        push_dec_u64(&mut out, c as u64);
        proof {
            assert(dec_int(c as int) == crate::num::dec_nat(c as nat));
        }
        if j == child_count - 1 {
            proof {
                assert(kids.skip(j as int).len() == 1);
                assert(lead + spec_dump_header(shape, kids) =~= out@);
                assert(spec_dump_header(shape, kids.skip(j + 1)) =~= Seq::<char>::empty());
                assert(lead + spec_dump_header(shape, kids) =~= out@ + spec_dump_header(
                    shape,
                    kids.skip(j + 1),
                ));
            }
        } else {
            out.push(',');
            out.push(' ');
            proof {
                assert(lead + spec_dump_header(shape, kids) =~= out@ + spec_dump_header(
                    shape,
                    kids.skip(j + 1),
                ));
            }
        }
        j += 1;
    }
    out.push('\n');
    proof {
        assert(spec_dump_header(shape, kids.skip(child_count as int)) =~= Seq::<char>::empty());
        assert(out@ =~= lead + spec_dump_header(shape, kids) + seq!['\n']);
    }
    let ghost mid = out@;
    let mut k: usize = 0;
    proof {
        assert(kids.skip(0) =~= kids);
        assert(mid + spec_dump_kids(shape, kids.skip(0), index as int) =~= mid + spec_dump_kids(
            shape,
            kids,
            index as int,
        ));
    }
    while k < child_count
        invariant
            tree.wf(),
            index < tree.size(),
            shape == tree.shape(),
            shape_ascending(shape),
            child_count == kids.len(),
            child_count > 0,
            kids == shape.kids[index as int],
            k <= child_count,
            mid + spec_dump_kids(shape, kids, index as int) == out@ + spec_dump_kids(
                shape,
                kids.skip(k as int),
                index as int,
            ),
        decreases child_count - k,
    {
        let c = tree.children_of(index)[k];
        assert(c == kids[k as int] && index < c < tree.size());
        proof {
            assert(kids.skip(k as int).drop_first() =~= kids.skip(k + 1));
            assert(kids.skip(k as int)[0] == c);
        }
        let sub = dump_cmd_tree(tree, c);
        append_chars(&mut out, &sub);
        proof {
            assert(mid + spec_dump_kids(shape, kids, index as int) =~= out@ + spec_dump_kids(
                shape,
                kids.skip(k + 1),
                index as int,
            ));
        }
        k += 1;
    }
    proof {
        assert(kids.skip(child_count as int) =~= Seq::<usize>::empty());
        assert(out@ =~= mid + spec_dump_kids(shape, kids, index as int));
        assert(out@ =~= spec_dump_tree(shape, index as int));
    }
    out
}

} // verus!
