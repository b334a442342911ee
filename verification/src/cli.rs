//! The session: two command trees (view and config), the mode state
//! machine with its display-only path stack, the prompt, and the
//! line-level help builder that drives validation, completion and
//! listings over the active tree.
use vstd::prelude::*;

use crate::chars::{append_chars, chars_eq, spaces, spec_tokens, tokenize, trim_chars, trim_spec,
    SpecTok};
use crate::cmd_tree::{dump_all, globbing, spec_dump_all, spec_globbing, spec_validate_token,
    validate_token};
use crate::node::{Node, NodeModel, Segment, SegmentModel};
use crate::tree::{init_shape, shape_insert, spec_insert_path, CmdTree, TreeShape};

verus! {

/// The session's top-level context: read-only view or mutating config.
#[derive(Debug, Clone, Copy, PartialEq, Eq, Structural)]
pub enum Mode {
    View,
    Config,
}

/// The prompt's trailing character: `>` in view, `#` in config.
pub open spec fn spec_mode_char(m: Mode) -> char {
    match m {
        Mode::View => '>',
        Mode::Config => '#',
    }
}

pub fn mode_char(m: Mode) -> (c: char)
    ensures
        c == spec_mode_char(m),
{
    match m {
        Mode::View => '>',
        Mode::Config => '#',
    }
}

/// An HTTP-style method tag on a path definition.
#[derive(Debug, Clone, Copy)]
pub enum Method {
    Get,
    Put,
    Post,
    Patch,
    Delete,
}

/// One ingested path definition: its method and its ordered segments.
pub struct PathDef {
    pub method: Method,
    pub segments: Vec<Segment>,
}

/// The mathematical value of a path definition.
#[verifier::ext_equal]
pub struct PathDefModel {
    pub method: Method,
    pub segments: Seq<SegmentModel>,
}

impl View for PathDef {
    type V = PathDefModel;

    open spec fn view(&self) -> PathDefModel {
        PathDefModel { method: self.method, segments: self.segments@.map_values(|s: Segment| s@) }
    }
}

/// Which tree a method's paths populate: read-only methods the view
/// tree, mutating methods the config tree; every other method is
/// ignored for tree purposes.
pub open spec fn routes_to(m: Method, mode: Mode) -> bool {
    match mode {
        Mode::View => m is Get,
        Mode::Config => m is Put || m is Patch,
    }
}

/// The tree shape grown from a definition stream by one mode: each
/// definition routed to this mode is merged in from the root, in
/// stream order.
pub open spec fn spec_build_mode(shape: TreeShape, paths: Seq<PathDefModel>, mode: Mode) -> TreeShape
    decreases paths.len(),
{
    if paths.len() == 0 {
        shape
    } else {
        let s1 = if routes_to(paths[0].method, mode) {
            spec_insert_path(shape, 0, paths[0].segments)
        } else {
            shape
        };
        spec_build_mode(s1, paths.drop_first(), mode)
    }
}

pub open spec fn config_name() -> Seq<char> {
    seq!['c', 'o', 'n', 'f', 'i', 'g']
}

pub open spec fn quit_name() -> Seq<char> {
    seq!['q', 'u', 'i', 't']
}

pub open spec fn exit_name() -> Seq<char> {
    seq!['e', 'x', 'i', 't']
}

/// The built-in literal on the view tree that switches into config
/// mode.
pub open spec fn config_model() -> NodeModel {
    NodeModel::Fixed {
        name: config_name(),
        description: seq![
            'E',
            'n',
            't',
            'e',
            'r',
            ' ',
            'c',
            'o',
            'n',
            'f',
            'i',
            'g',
            ' ',
            'm',
            'o',
            'd',
            'e',
        ],
    }
}

/// The built-in `commit` literal on the config tree.
pub open spec fn commit_model() -> NodeModel {
    NodeModel::Fixed {
        name: seq!['c', 'o', 'm', 'm', 'i', 't'],
        description: seq!['C', 'o', 'm', 'm', 'i', 't', ' ', 'c', 'o', 'n', 'f', 'i', 'g'],
    }
}

/// The built-in `save` literal on the config tree.
pub open spec fn save_model() -> NodeModel {
    NodeModel::Fixed {
        name: seq!['s', 'a', 'v', 'e'],
        description: seq!['S', 'a', 'v', 'e', ' ', 'c', 'o', 'n', 'f', 'i', 'g'],
    }
}

fn push_str_chars(dst: &mut Vec<char>, src: &[char])
    ensures
        final(dst)@ == old(dst)@ + src@,
{
    let mut i: usize = 0;
    while i < src.len()
        invariant
            i <= src@.len(),
            dst@ == old(dst)@ + src@.subrange(0, i as int),
        decreases src@.len() - i,
    {
        let c = src[i];
        dst.push(c);
        proof {
            assert(old(dst)@ + src@.subrange(0, i as int) + seq![src@[i as int]] =~= old(
                dst,
            )@ + src@.subrange(0, i + 1));
        }
        i += 1;
    }
    proof {
        assert(src@.subrange(0, src@.len() as int) =~= src@);
    }
}

pub fn make_config_node() -> (r: Node)
    ensures
        r@ == config_model(),
{
    let mut name: Vec<char> = Vec::new();
    push_str_chars(&mut name, &['c', 'o', 'n', 'f', 'i', 'g']);
    let mut descr: Vec<char> = Vec::new();
    push_str_chars(
        &mut descr,
        &['E', 'n', 't', 'e', 'r', ' ', 'c', 'o', 'n', 'f', 'i', 'g', ' ', 'm', 'o', 'd', 'e'],
    );
    let r = Node::Fixed(name, descr);
    proof {
        assert(r@ =~~= config_model());
    }
    r
}

pub fn make_commit_node() -> (r: Node)
    ensures
        r@ == commit_model(),
{
    let mut name: Vec<char> = Vec::new();
    push_str_chars(&mut name, &['c', 'o', 'm', 'm', 'i', 't']);
    let mut descr: Vec<char> = Vec::new();
    push_str_chars(&mut descr, &['C', 'o', 'm', 'm', 'i', 't', ' ', 'c', 'o', 'n', 'f', 'i', 'g']);
    let r = Node::Fixed(name, descr);
    proof {
        assert(r@ =~~= commit_model());
    }
    r
}

pub fn make_save_node() -> (r: Node)
    ensures
        r@ == save_model(),
{
    let mut name: Vec<char> = Vec::new();
    push_str_chars(&mut name, &['s', 'a', 'v', 'e']);
    let mut descr: Vec<char> = Vec::new();
    push_str_chars(&mut descr, &['S', 'a', 'v', 'e', ' ', 'c', 'o', 'n', 'f', 'i', 'g']);
    let r = Node::Fixed(name, descr);
    proof {
        assert(r@ =~~= save_model());
    }
    r
}

/// The view tree grown from a definition stream: the read-only paths,
/// then the built-in `config` literal under the root.
pub open spec fn spec_view_shape(paths: Seq<PathDefModel>) -> TreeShape {
    shape_insert(spec_build_mode(init_shape(), paths, Mode::View), 0, config_model())
}

/// The config tree grown from a definition stream: the mutating paths,
/// then the built-in `commit` and `save` literals under the root.
pub open spec fn spec_config_shape(paths: Seq<PathDefModel>) -> TreeShape {
    let built = spec_build_mode(init_shape(), paths, Mode::Config);
    shape_insert(shape_insert(built, 0, commit_model()), 0, save_model())
}

/// Path segments joined by single spaces, after the first.
pub open spec fn join_rest(ps: Seq<Seq<char>>) -> Seq<char>
    decreases ps.len(),
{
    if ps.len() == 0 {
        Seq::empty()
    } else {
        seq![' '] + ps[0] + join_rest(ps.drop_first())
    }
}

/// Path segments joined by single spaces.
pub open spec fn join_spaces(ps: Seq<Seq<char>>) -> Seq<char> {
    if ps.len() == 0 {
        Seq::empty()
    } else {
        ps[0] + join_rest(ps.drop_first())
    }
}

/// The prompt: the hostname, the path stack joined by spaces when it
/// is non-empty, the mode character, and one trailing space.
pub open spec fn spec_prompt(hostname: Seq<char>, path: Seq<Seq<char>>, mode: Mode) -> Seq<char> {
    if path.len() > 0 {
        hostname + seq![' '] + join_spaces(path) + seq![spec_mode_char(mode), ' ']
    } else {
        hostname + seq![spec_mode_char(mode), ' ']
    }
}

/// What a submitted line asks the session to do next: carry on, end
/// the session, or report an unrecognized command.
#[derive(Debug, Clone, Copy, PartialEq, Eq, Structural)]
pub enum Action {
    Continue,
    Quit,
    Unrecognized,
}

/// The session state after one submitted line.
#[verifier::ext_equal]
pub struct SessionStep {
    pub mode: Mode,
    pub path: Seq<Seq<char>>,
    pub action: Action,
}

/// The mode state machine on a submitted, trimmed line:
/// - `config` in view switches to config;
/// - `quit` or `exit` in view ends the session;
/// - `quit` in config pops one path level, or returns to view when the
///   stack is empty;
/// - `exit` in config clears the whole stack, or returns to view when
///   it is empty;
/// - an empty line changes nothing;
/// - anything else is an unrecognized command and changes nothing.
pub open spec fn spec_step(mode: Mode, path: Seq<Seq<char>>, line: Seq<char>) -> SessionStep {
    let t = trim_spec(line);
    if t == config_name() && mode is View {
        SessionStep { mode: Mode::Config, path, action: Action::Continue }
    } else if (t == quit_name() || t == exit_name()) && mode is View {
        SessionStep { mode, path, action: Action::Quit }
    } else if t == quit_name() && mode is Config {
        if path.len() > 0 {
            SessionStep { mode, path: path.drop_last(), action: Action::Continue }
        } else {
            SessionStep { mode: Mode::View, path, action: Action::Continue }
        }
    } else if t == exit_name() && mode is Config {
        if path.len() > 0 {
            SessionStep { mode, path: Seq::empty(), action: Action::Continue }
        } else {
            SessionStep { mode: Mode::View, path, action: Action::Continue }
        }
    } else if t.len() == 0 {
        SessionStep { mode, path, action: Action::Continue }
    } else {
        SessionStep { mode, path, action: Action::Unrecognized }
    }
}

pub struct CLI {
    pub hostname: Vec<char>,
    pub path: Vec<Vec<char>>,
    pub mode: Mode,
    pub view_tree: CmdTree,
    pub config_tree: CmdTree,
    pub prompt: Vec<char>,
}

impl CLI {
    /// The path stack as plain sequences.
    pub open spec fn path_model(self) -> Seq<Seq<char>> {
        self.path@.map_values(|p: Vec<char>| p@)
    }

    /// Both trees are well-formed and the prompt reflects the state.
    pub open spec fn wf(self) -> bool {
        &&& self.view_tree.wf()
        &&& self.config_tree.wf()
        &&& self.prompt@ == spec_prompt(self.hostname@, self.path_model(), self.mode)
    }

    /// The tree the session currently validates against.
    pub open spec fn active_shape(self) -> TreeShape {
        match self.mode {
            Mode::View => self.view_tree.shape(),
            Mode::Config => self.config_tree.shape(),
        }
    }

    /// Builds both trees from the ingested definitions: read-only
    /// methods populate the view tree, mutating ones the config tree,
    /// and each tree gets its built-in literals; the session starts in
    /// view mode with an empty path stack.
    pub fn new(paths: Vec<PathDef>, hostname: Vec<char>) -> (r: CLI)
        ensures
            r.wf(),
            r.mode == Mode::View,
            r.path_model() == Seq::<Seq<char>>::empty(),
            r.hostname@ == hostname@,
            r.view_tree.shape() == spec_view_shape(paths@.map_values(|p: PathDef| p@)),
            r.config_tree.shape() == spec_config_shape(paths@.map_values(|p: PathDef| p@)),
    {
        let ghost pm = paths@.map_values(|p: PathDef| p@);
        let mut view_tree = CmdTree::new();
        let mut config_tree = CmdTree::new();
        let mut rest = paths;
        while rest.len() > 0
            invariant
                view_tree.wf(),
                config_tree.wf(),
                spec_build_mode(init_shape(), pm, Mode::View) == spec_build_mode(
                    view_tree.shape(),
                    rest@.map_values(|p: PathDef| p@),
                    Mode::View,
                ),
                spec_build_mode(init_shape(), pm, Mode::Config) == spec_build_mode(
                    config_tree.shape(),
                    rest@.map_values(|p: PathDef| p@),
                    Mode::Config,
                ),
            decreases rest.len(),
        {
            let ghost restm = rest@.map_values(|p: PathDef| p@);
            let def = rest.remove(0);
            proof {
                assert(rest@.map_values(|p: PathDef| p@) =~= restm.drop_first());
                assert(restm[0] == def@);
            }
            match def.method {
                Method::Get => {
                    view_tree.insert_path(def.segments);
                },
                Method::Put | Method::Patch => {
                    config_tree.insert_path(def.segments);
                },
                _ => {},
            }
        }
        proof {
            assert(rest@.map_values(|p: PathDef| p@).len() == 0);
        }
        proof {
            view_tree.lemma_wf_root();
            config_tree.lemma_wf_root();
        }
        view_tree.insert_child(0, make_config_node());
        config_tree.insert_child(0, make_commit_node());
        config_tree.insert_child(0, make_save_node());
        let mut cli = CLI {
            hostname,
            path: Vec::new(),
            mode: Mode::View,
            view_tree,
            config_tree,
            prompt: Vec::new(),
        };
        cli.update_prompt();
        proof {
            assert(cli.path_model() =~= Seq::<Seq<char>>::empty());
        }
        cli
    }

    /// Recomputes the prompt from the hostname, path stack and mode.
    pub fn update_prompt(&mut self)
        ensures
            final(self).prompt@ == spec_prompt(
                old(self).hostname@,
                old(self).path_model(),
                old(self).mode,
            ),
            final(self).hostname == old(self).hostname,
            final(self).path == old(self).path,
            final(self).mode == old(self).mode,
            final(self).view_tree == old(self).view_tree,
            final(self).config_tree == old(self).config_tree,
    {
        let ghost pm = self.path_model();
        let mut p: Vec<char> = Vec::new();
        append_chars(&mut p, &self.hostname);
        proof {
            assert(Seq::<char>::empty() + self.hostname@ =~= self.hostname@);
        }
        if self.path.len() > 0 {
            p.push(' ');
            append_chars(&mut p, &self.path[0]);
            proof {
                assert(p@ =~= self.hostname@ + seq![' '] + pm[0]);
            }
            let mut k: usize = 1;
            while k < self.path.len()
                invariant
                    1 <= k <= self.path@.len(),
                    pm == self.path_model(),
                    pm.len() == self.path@.len(),
                    p@ + join_rest(pm.skip(k as int)) == self.hostname@ + seq![' '] + join_spaces(
                        pm,
                    ),
                decreases self.path@.len() - k,
            {
                proof {
                    assert(pm.skip(k as int).drop_first() =~= pm.skip(k + 1));
                    assert(pm.skip(k as int)[0] == pm[k as int]);
                }
                p.push(' ');
                append_chars(&mut p, &self.path[k]);
                proof {
                    assert(p@ + join_rest(pm.skip(k + 1)) =~= self.hostname@ + seq![' ']
                        + join_spaces(pm));
                }
                k += 1;
            }
            proof {
                assert(join_rest(pm.skip(pm.len() as int)) =~= Seq::<char>::empty());
                assert(p@ =~= self.hostname@ + seq![' '] + join_spaces(pm));
            }
        }
        let c = mode_char(self.mode);
        p.push(c);
        p.push(' ');
        proof {
            assert(p@ =~= spec_prompt(self.hostname@, pm, self.mode));
        }
        self.prompt = p;
    }

    /// Applies one submitted line to the session state machine and
    /// refreshes the prompt; the trees and hostname never change.
    pub fn handle_line(&mut self, line: &Vec<char>) -> (r: Action)
        requires
            old(self).wf(),
        ensures
            final(self).wf(),
            ({
                let st = spec_step(old(self).mode, old(self).path_model(), line@);
                final(self).mode == st.mode && final(self).path_model() == st.path && r == st.action
                    && final(self).hostname@ == old(self).hostname@ && final(self).view_tree == old(
                    self,
                ).view_tree && final(self).config_tree == old(self).config_tree
            }),
    {
        let ghost pm = self.path_model();
        let t = trim_chars(line);
        let mut config_word: Vec<char> = Vec::new();
        push_str_chars(&mut config_word, &['c', 'o', 'n', 'f', 'i', 'g']);
        let mut quit_word: Vec<char> = Vec::new();
        push_str_chars(&mut quit_word, &['q', 'u', 'i', 't']);
        let mut exit_word: Vec<char> = Vec::new();
        push_str_chars(&mut exit_word, &['e', 'x', 'i', 't']);
        proof {
            assert(config_word@ =~= config_name());
            assert(quit_word@ =~= quit_name());
            assert(exit_word@ =~= exit_name());
        }
        let is_config = chars_eq(&t, &config_word);
        let is_quit = chars_eq(&t, &quit_word);
        let is_exit = chars_eq(&t, &exit_word);
        match self.mode {
            Mode::View => {
                if is_config {
                    self.mode = Mode::Config;
                    self.update_prompt();
                    return Action::Continue;
                }
                if is_quit || is_exit {
                    return Action::Quit;
                }
            },
            Mode::Config => {
                if is_quit {
                    if self.path.len() > 0 {
                        self.path.pop();
                        proof {
                            assert(self.path_model() =~= pm.drop_last());
                        }
                    } else {
                        self.mode = Mode::View;
                    }
                    self.update_prompt();
                    return Action::Continue;
                }
                if is_exit {
                    if self.path.len() > 0 {
                        self.path = Vec::new();
                        proof {
                            assert(self.path_model() =~= Seq::<Seq<char>>::empty());
                        }
                    } else {
                        self.mode = Mode::View;
                    }
                    self.update_prompt();
                    return Action::Continue;
                }
            },
        }
        if t.len() == 0 {
            self.update_prompt();
            return Action::Continue;
        }
        Action::Unrecognized
    }

    /// The line echoed after a completion request: a carriage return,
    /// the prompt, then the line as typed.
    pub fn complete_echo(&self, line: &Vec<char>) -> (r: Vec<char>)
        ensures
            r@ == seq!['\r'] + self.prompt@ + line@,
    {
        let mut r: Vec<char> = Vec::new();
        r.push('\r');
        append_chars(&mut r, &self.prompt);
        append_chars(&mut r, line);
        proof {
            assert(r@ =~= seq!['\r'] + self.prompt@ + line@);
        }
        r
    }

    /// Walks the line's tokens through the active tree and builds the
    /// help text: the full listing of the position reached when every
    /// token matches, a completion listing when only the final token
    /// fails and some literal completes it, and otherwise a caret
    /// under the failing token followed by the rejection message.
    pub fn build_help(&self, line: &Vec<char>, on_error_padding: usize) -> (r: Vec<char>)
        requires
            self.wf(),
            line@.len() + on_error_padding <= usize::MAX,
        ensures
            r@ == spec_help(self.active_shape(), line@, on_error_padding as int),
    {
        let tree = match self.mode {
            Mode::View => &self.view_tree,
            Mode::Config => &self.config_tree,
        };
        let ghost shape = self.active_shape();
        let toks = tokenize(line);
        let ghost toksm = spec_tokens(line@);
        let mut at: usize = 0;
        let mut ti: usize = 0;
        proof {
            tree.lemma_wf_root();
            assert(toksm.skip(0) =~= toksm);
        }
        while ti < toks.len()
            invariant
                tree.wf(),
                tree.shape() == shape,
                shape == self.active_shape(),
                at < tree.size(),
                ti <= toks@.len(),
                toks@.map_values(|t: crate::chars::Token| t@) == toksm,
                toksm == spec_tokens(line@),
                forall|k: int| 0 <= k < toks@.len() ==> (#[trigger] toks@[k]).start <= line@.len(),
                line@.len() + on_error_padding <= usize::MAX,
                spec_build_help(shape, toksm, 0, on_error_padding as int) == spec_build_help(
                    shape,
                    toksm.skip(ti as int),
                    at as int,
                    on_error_padding as int,
                ),
            decreases toks@.len() - ti,
        {
            proof {
                assert(toksm.skip(ti as int).drop_first() =~= toksm.skip(ti + 1));
                assert(toksm.skip(ti as int)[0] == toks@[ti as int]@);
            }
            let ghost gti = ti as int;
            let ghost gat = at as int;
            let ghost pad = on_error_padding as int;
            let tok_text = &toks[ti].text;
            let tok_start = toks[ti].start;
            match validate_token(tree, tok_text, at) {
                Ok(h) => {
                    proof {
                        assert(spec_build_help(shape, toksm.skip(gti), gat, pad)
                            == spec_build_help(shape, toksm.skip(gti + 1), h as int, pad));
                    }
                    at = h;
                    ti += 1;
                },
                Err(e) => {
                    if ti == toks.len() - 1 {
                        let g = globbing(tree, tok_text, at);
                        if g.len() > 0 {
                            proof {
                                assert(toksm.skip(gti).len() == 1);
                                assert(spec_build_help(shape, toksm.skip(gti), gat, pad) == g@);
                            }
                            return g;
                        }
                        proof {
                            assert(spec_globbing(shape, shape.kids[gat], toksm.skip(gti)[0].text)
                                == g@);
                            assert(g@.len() == 0);
                        }
                    }
                    let mut out: Vec<char> = Vec::new();
                    crate::chars::push_spaces(&mut out, tok_start + on_error_padding);
                    out.push('^');
                    out.push('~');
                    out.push('~');
                    out.push('~');
                    out.push(' ');
                    append_chars(&mut out, &e);
                    proof {
                        assert(out@ =~= spaces((tok_start + on_error_padding) as nat) + seq![
                            '^',
                            '~',
                            '~',
                            '~',
                            ' ',
                        ] + e@);
                        assert(spec_build_help(shape, toksm.skip(gti), gat, pad) == out@);
                    }
                    return out;
                },
            }
        }
        proof {
            assert(toksm.skip(toksm.len() as int) =~= Seq::<SpecTok>::empty());
        }
        dump_all(tree, at)
    }
}

/// The help text for one line: tokens are validated left to right from
/// the root; when all match, the listing of the reached position; when
/// the final token fails but completes to some literal, the completion
/// listing; otherwise a caret at the failing token's column (shifted by
/// the prompt padding) and the surviving rejection message.
pub open spec fn spec_build_help(shape: TreeShape, toks: Seq<SpecTok>, at: int, pad: int) -> Seq<
    char,
>
    decreases toks.len(),
{
    if toks.len() == 0 {
        spec_dump_all(shape, shape.kids[at])
    } else {
        match spec_validate_token(shape, toks[0].text, at) {
            Ok(h) => spec_build_help(shape, toks.drop_first(), h as int, pad),
            Err(e) => {
                let glob = spec_globbing(shape, shape.kids[at], toks[0].text);
                if toks.len() == 1 && glob.len() > 0 {
                    glob
                } else {
                    spaces((toks[0].start + pad) as nat) + seq!['^', '~', '~', '~', ' '] + e
                }
            },
        }
    }
}

/// The help text for a raw line: its whitespace tokens walked from the
/// root of the given tree.
pub open spec fn spec_help(shape: TreeShape, line: Seq<char>, pad: int) -> Seq<char> {
    spec_build_help(shape, spec_tokens(line), 0, pad)
}

/// The report for a line that is no built-in command:
/// `Unrecognized command: ` followed by the line as typed.
pub open spec fn spec_unrecognized(line: Seq<char>) -> Seq<char> {
    seq![
        'U',
        'n',
        'r',
        'e',
        'c',
        'o',
        'g',
        'n',
        'i',
        'z',
        'e',
        'd',
        ' ',
        'c',
        'o',
        'm',
        'm',
        'a',
        'n',
        'd',
        ':',
        ' ',
    ] + line
}

pub fn unrecognized_message(line: &Vec<char>) -> (r: Vec<char>)
    ensures
        r@ == spec_unrecognized(line@),
{
    let mut r: Vec<char> = Vec::new();
    push_str_chars(
        &mut r,
        &[
            'U',
            'n',
            'r',
            'e',
            'c',
            'o',
            'g',
            'n',
            'i',
            'z',
            'e',
            'd',
            ' ',
            'c',
            'o',
            'm',
            'm',
            'a',
            'n',
            'd',
            ':',
            ' ',
        ],
    );
    append_chars(&mut r, line);
    proof {
        assert(r@ =~= spec_unrecognized(line@));
    }
    r
}

} // verus!
