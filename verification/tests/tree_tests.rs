use ycli::cli::{Method, PathDef, CLI};
use ycli::cmd_tree::{dump_all, dump_cmd_tree, globbing, query, validate_token};
use ycli::node::{Node, NumberValidator, Segment, TextValidator};
use ycli::tree::CmdTree;

fn cv(s: &str) -> Vec<char> {
    s.chars().collect()
}

fn lit(name: &str, descr: &str) -> Node {
    Node::Fixed(cv(name), cv(descr))
}

fn fixed_name(n: &Node) -> Vec<char> {
    match n {
        Node::Fixed(name, _) => name.clone(),
        _ => panic!("expected a literal node"),
    }
}

#[test]
fn merge_shares_prefix() {
    let mut t = CmdTree::new();
    t.insert_path(vec![
        Segment::Fixed(cv("a")),
        Segment::Fixed(cv("b")),
        Segment::Fixed(cv("c")),
    ]);
    t.insert_path(vec![
        Segment::Fixed(cv("a")),
        Segment::Fixed(cv("b")),
        Segment::Fixed(cv("d")),
    ]);
    // root + a + b + c + d: `a` and `b` each appear once
    assert_eq!(t.node_count(), 5);
    let root_kids = t.children_of(0).clone();
    assert_eq!(root_kids.len(), 1);
    let a = root_kids[0];
    assert_eq!(fixed_name(t.node_at(a)), cv("a"));
    let a_kids = t.children_of(a).clone();
    assert_eq!(a_kids.len(), 1);
    let b = a_kids[0];
    assert_eq!(fixed_name(t.node_at(b)), cv("b"));
    let b_kids = t.children_of(b).clone();
    assert_eq!(b_kids.len(), 2);
    assert_eq!(fixed_name(t.node_at(b_kids[0])), cv("c"));
    assert_eq!(fixed_name(t.node_at(b_kids[1])), cv("d"));
}

#[test]
fn number_validation_in_range() {
    let mut t = CmdTree::new();
    let h = t.insert_child(
        0,
        Node::Number(NumberValidator { minimum: 1, maximum: 10 }, cv("a count")),
    );
    assert_eq!(validate_token(&t, &cv("5"), 0), Ok(h));
}

#[test]
fn number_validation_out_of_range() {
    let mut t = CmdTree::new();
    t.insert_child(
        0,
        Node::Number(NumberValidator { minimum: 1, maximum: 10 }, cv("a count")),
    );
    assert_eq!(validate_token(&t, &cv("11"), 0), Err(cv("<1~10> expected")));
}

#[test]
fn number_validation_not_a_number() {
    let mut t = CmdTree::new();
    t.insert_child(
        0,
        Node::Number(NumberValidator { minimum: 1, maximum: 10 }, cv("a count")),
    );
    // a second child is never consulted: the parse failure short-circuits
    t.insert_child(0, lit("x", "a literal"));
    assert_eq!(validate_token(&t, &cv("x"), 0), Err(cv("Not a number")));
}

#[test]
fn number_validation_overflow_is_not_a_number() {
    let mut t = CmdTree::new();
    t.insert_child(
        0,
        Node::Number(NumberValidator { minimum: i64::MIN, maximum: i64::MAX }, cv("any")),
    );
    assert_eq!(
        validate_token(&t, &cv("9223372036854775808"), 0),
        Err(cv("Not a number"))
    );
    assert_eq!(validate_token(&t, &cv("-9223372036854775808"), 0), Ok(1));
    assert_eq!(validate_token(&t, &cv("+7"), 0), Ok(1));
}

#[test]
fn last_error_wins() {
    let mut t = CmdTree::new();
    t.insert_child(
        0,
        Node::Number(NumberValidator { minimum: 1, maximum: 10 }, cv("first")),
    );
    t.insert_child(
        0,
        Node::Number(NumberValidator { minimum: 30, maximum: 40 }, cv("second")),
    );
    // 20 misses both ranges: the second child's rejection is surfaced
    assert_eq!(validate_token(&t, &cv("20"), 0), Err(cv("<30~40> expected")));
}

#[test]
fn first_match_short_circuits() {
    let mut t = CmdTree::new();
    let first = t.insert_child(0, lit("dup", "first"));
    t.insert_child(0, lit("dup", "second"));
    assert_eq!(validate_token(&t, &cv("dup"), 0), Ok(first));
}

#[test]
fn no_children_none_matched() {
    let t = CmdTree::new();
    assert_eq!(validate_token(&t, &cv("anything"), 0), Err(cv("None matched")));
}

#[test]
fn literal_mismatch_none_matched() {
    let mut t = CmdTree::new();
    t.insert_child(0, lit("alpha", "a literal"));
    assert_eq!(validate_token(&t, &cv("beta"), 0), Err(cv("None matched")));
}

#[test]
fn text_param_accepts_any_token() {
    let mut t = CmdTree::new();
    let h = t.insert_child(
        0,
        Node::Text(TextValidator { format: cv("string") }, cv("a name")),
    );
    assert_eq!(validate_token(&t, &cv("whatever"), 0), Ok(h));
}

#[test]
fn globbing_filters_literals_by_prefix() {
    let mut t = CmdTree::new();
    t.insert_child(0, lit("config", "Enter config mode"));
    t.insert_child(0, lit("commit", "Commit config"));
    t.insert_child(
        0,
        Node::Text(TextValidator { format: cv("string") }, cv("a name")),
    );
    let got = globbing(&t, &cv("co"), 0);
    assert_eq!(
        got,
        cv(" config     Enter config mode\n commit     Commit config\n")
    );
}

#[test]
fn globbing_no_match_is_empty() {
    let mut t = CmdTree::new();
    t.insert_child(0, lit("config", "Enter config mode"));
    assert_eq!(globbing(&t, &cv("zz"), 0), cv(""));
    let empty = CmdTree::new();
    assert_eq!(globbing(&empty, &cv("zz"), 0), cv(""));
}

#[test]
fn dump_all_lists_every_kind() {
    let mut t = CmdTree::new();
    t.insert_child(0, lit("show", "Show things"));
    t.insert_child(
        0,
        Node::Text(TextValidator { format: cv("name") }, cv("a name")),
    );
    t.insert_child(
        0,
        Node::Number(NumberValidator { minimum: 1, maximum: 10 }, cv("a count")),
    );
    let got = dump_all(&t, 0);
    assert_eq!(
        got,
        cv(" show       Show things\n <name>     a name\n <1~10>     a count\n")
    );
}

#[test]
fn number_descriptor_forms() {
    let mut t = CmdTree::new();
    t.insert_child(
        0,
        Node::Number(NumberValidator { minimum: i64::MIN, maximum: i64::MAX }, cv("any")),
    );
    t.insert_child(
        0,
        Node::Number(NumberValidator { minimum: i64::MIN, maximum: 5 }, cv("low")),
    );
    t.insert_child(
        0,
        Node::Number(NumberValidator { minimum: 3, maximum: i64::MAX }, cv("high")),
    );
    t.insert_child(
        0,
        Node::Number(NumberValidator { minimum: -2, maximum: 7 }, cv("both")),
    );
    let got = dump_all(&t, 0);
    assert_eq!(
        got,
        cv(" <number>   any\n <-inf~5>   low\n <3~inf)>   high\n <-2~7>     both\n")
    );
}

#[test]
fn query_appends_quit_and_exit() {
    let mut t = CmdTree::new();
    t.insert_child(0, lit("show", "Show things"));
    let rows = query(&t, 0);
    assert_eq!(rows.len(), 3);
    assert_eq!(rows[0], (cv("show"), cv("Show things")));
    assert_eq!(rows[1], (cv("quit"), cv("Quit to upper level")));
    assert_eq!(rows[2], (cv("exit"), cv("Exit CLI")));
}

#[test]
fn rebuild_is_deterministic() {
    let paths = || {
        vec![
            PathDef {
                method: Method::Get,
                segments: vec![Segment::Fixed(cv("interfaces")), Segment::Fixed(cv("status"))],
            },
            PathDef {
                method: Method::Put,
                segments: vec![
                    Segment::Fixed(cv("interfaces")),
                    Segment::Text(cv("name"), cv("which")),
                ],
            },
            PathDef {
                method: Method::Get,
                segments: vec![Segment::Fixed(cv("interfaces")), Segment::Fixed(cv("counters"))],
            },
        ]
    };
    let a = CLI::new(paths(), cv("h"));
    let b = CLI::new(paths(), cv("h"));
    assert_eq!(a.view_tree.node_count(), b.view_tree.node_count());
    assert_eq!(a.config_tree.node_count(), b.config_tree.node_count());
    assert_eq!(dump_all(&a.view_tree, 0), dump_all(&b.view_tree, 0));
    assert_eq!(dump_all(&a.config_tree, 0), dump_all(&b.config_tree, 0));
    // the shared prefix is merged: the view root holds `interfaces` and
    // the built-in `config` only
    assert_eq!(a.view_tree.children_of(0).len(), 2);
}

#[test]
fn dump_tree_lists_each_parent_with_its_children() {
    let mut t = CmdTree::new();
    t.insert_path(vec![
        Segment::Fixed(cv("a")),
        Segment::Fixed(cv("b")),
        Segment::Fixed(cv("c")),
    ]);
    t.insert_path(vec![
        Segment::Fixed(cv("a")),
        Segment::Fixed(cv("b")),
        Segment::Fixed(cv("d")),
    ]);
    let got = dump_cmd_tree(&t, 0);
    assert_eq!(got, cv("/@0: a@1\na@1: b@2\nb@2: c@3, d@4\n"));
    // a leaf position dumps nothing
    assert_eq!(dump_cmd_tree(&t, 3), cv(""));
}

#[test]
fn leading_zeros_and_signs_parse() {
    let mut t = CmdTree::new();
    t.insert_child(
        0,
        Node::Number(NumberValidator { minimum: 1, maximum: 10 }, cv("a count")),
    );
    assert_eq!(validate_token(&t, &cv("007"), 0), Ok(1));
    assert_eq!(validate_token(&t, &cv("-3"), 0), Err(cv("<1~10> expected")));
    assert_eq!(validate_token(&t, &cv(""), 0), Err(cv("Not a number")));
    assert_eq!(validate_token(&t, &cv("+"), 0), Err(cv("Not a number")));
}
