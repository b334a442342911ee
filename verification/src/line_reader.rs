//! The raw-mode line editor model: an editable character buffer with a
//! cursor, driven one key event at a time. Each key yields the exact
//! terminal operations to replay and, for line-ending keys, the
//! finished line tagged by how it was terminated.
use vstd::prelude::*;

verus! {

/// How a finished line was terminated: submitted, a help request, or a
/// completion request.
#[derive(Debug, Clone, Copy, PartialEq, Eq, Structural)]
pub enum LineType {
    Enter,
    Help,
    Complete,
}

/// One raw key event of the closed set the editor understands.
#[derive(Debug, Clone, Copy)]
pub enum KeyEvent {
    Backspace,
    Char(char),
    CtrlW,
    CtrlD,
    Left,
    Right,
    Other,
}

/// One terminal operation for the caller to replay: echo text, move
/// the visible cursor, clear to the end of the line, or print a
/// newline.
pub enum TermOp {
    Echo(char),
    EchoTail(Vec<char>),
    CursorLeft(usize),
    CursorRight(usize),
    ClearAfter,
    Newline,
}

/// The mathematical value of a terminal operation.
pub enum TermOpModel {
    Echo(char),
    EchoTail(Seq<char>),
    CursorLeft(int),
    CursorRight(int),
    ClearAfter,
    Newline,
}

impl View for TermOp {
    type V = TermOpModel;

    open spec fn view(&self) -> TermOpModel {
        match self {
            TermOp::Echo(c) => TermOpModel::Echo(*c),
            TermOp::EchoTail(t) => TermOpModel::EchoTail(t@),
            TermOp::CursorLeft(n) => TermOpModel::CursorLeft(*n as int),
            TermOp::CursorRight(n) => TermOpModel::CursorRight(*n as int),
            TermOp::ClearAfter => TermOpModel::ClearAfter,
            TermOp::Newline => TermOpModel::Newline,
        }
    }
}

/// The full effect of one key: the buffer and cursor after it, the
/// terminal operations to replay, and the finished line if the key
/// ended one.
#[verifier::ext_equal]
pub struct KeyEffect {
    pub buf: Seq<char>,
    pub cursor: int,
    pub ops: Seq<TermOpModel>,
    pub done: Option<(Seq<char>, LineType)>,
}

/// The editor's transition relation, one key at a time:
/// - a printable character is inserted at the cursor and echoed;
/// - backspace removes the character before the cursor and redraws the
///   tail when the cursor is not at the end;
/// - ctrl-w clears the whole buffer (deliberately not one word);
/// - left/right move the cursor within the buffer without mutating it;
/// - tab ends the line as a completion request, enter as a submitted
///   line, `?` as a help request;
/// - ctrl-d ends the line as the literal submitted line `exit`;
/// - any other key is ignored.
pub open spec fn spec_key_effect(buf: Seq<char>, cursor: int, k: KeyEvent) -> KeyEffect {
    let same = KeyEffect { buf, cursor, ops: Seq::empty(), done: None };
    match k {
        KeyEvent::Backspace => if cursor == 0 {
            same
        } else {
            let nb = buf.remove(cursor - 1);
            let nc = cursor - 1;
            let head = seq![TermOpModel::CursorLeft(1), TermOpModel::ClearAfter];
            let ops = if nc < nb.len() {
                head + seq![
                    TermOpModel::EchoTail(nb.skip(nc)),
                    TermOpModel::CursorLeft(nb.len() - nc),
                ]
            } else {
                head
            };
            KeyEffect { buf: nb, cursor: nc, ops, done: None }
        },
        KeyEvent::Char(c) => if c == '\t' {
            KeyEffect { buf, cursor, ops: Seq::empty(), done: Some((buf, LineType::Complete)) }
        } else if c == '\n' {
            KeyEffect {
                buf,
                cursor,
                ops: seq![TermOpModel::Newline],
                done: Some((buf, LineType::Enter)),
            }
        } else if c == '?' {
            KeyEffect {
                buf,
                cursor,
                ops: seq![TermOpModel::Echo('?')],
                done: Some((buf, LineType::Help)),
            }
        } else {
            KeyEffect {
                buf: buf.insert(cursor, c),
                cursor: cursor + 1,
                ops: seq![TermOpModel::Echo(c)],
                done: None,
            }
        },
        KeyEvent::CtrlW => if buf.len() == 0 {
            same
        } else {
            KeyEffect {
                buf: Seq::empty(),
                cursor: 0,
                ops: seq![TermOpModel::CursorLeft(buf.len() as int), TermOpModel::ClearAfter],
                done: None,
            }
        },
        KeyEvent::CtrlD => KeyEffect {
            buf,
            cursor,
            ops: seq![TermOpModel::Newline],
            done: Some((seq!['e', 'x', 'i', 't'], LineType::Enter)),
        },
        KeyEvent::Left => if cursor > 0 {
            KeyEffect { buf, cursor: cursor - 1, ops: seq![TermOpModel::CursorLeft(1)], done: None }
        } else {
            same
        },
        KeyEvent::Right => if cursor < buf.len() {
            KeyEffect {
                buf,
                cursor: cursor + 1,
                ops: seq![TermOpModel::CursorRight(1)],
                done: None,
            }
        } else {
            same
        },
        KeyEvent::Other => same,
    }
}

/// The editable line buffer and its cursor offset.
pub struct LineReader {
    pub buf: Vec<char>,
    pub offset: usize,
}

impl LineReader {
    /// The cursor always sits within the buffer.
    pub open spec fn wf(self) -> bool {
        self.offset <= self.buf@.len()
    }

    pub fn new() -> (r: LineReader)
        ensures
            r.wf(),
            r.buf@ == Seq::<char>::empty(),
            r.offset == 0,
    {
        LineReader { buf: Vec::new(), offset: 0 }
    }

    pub fn clear(&mut self)
        ensures
            final(self).wf(),
            final(self).buf@ == Seq::<char>::empty(),
            final(self).offset == 0,
    {
        self.buf.clear();
        self.offset = 0;
    }

    /// Applies one key event: the buffer and cursor change exactly as
    /// the transition relation says, the returned operations are the
    /// ones to replay on the terminal, and a finished line is handed
    /// back tagged with how it ended.
    pub fn handle_key(&mut self, k: KeyEvent) -> (r: (Vec<TermOp>, Option<(Vec<char>, LineType)>))
        requires
            old(self).wf(),
        ensures
            final(self).wf(),
            ({
                let eff = spec_key_effect(old(self).buf@, old(self).offset as int, k);
                final(self).buf@ == eff.buf && final(self).offset as int == eff.cursor
                    && r.0@.map_values(|o: TermOp| o@) == eff.ops && (match (r.1, eff.done) {
                    (Some(p), Some(q)) => p.0@ == q.0 && p.1 == q.1,
                    (None, None) => true,
                    _ => false,
                })
            }),
    {
        let ghost eff = spec_key_effect(self.buf@, self.offset as int, k);
        let mut ops: Vec<TermOp> = Vec::new();
        match k {
            KeyEvent::Backspace => {
                if self.offset == 0 {
                    proof {
                        assert(ops@.map_values(|o: TermOp| o@) =~= eff.ops);
                    }
                    return (ops, None);
                }
                self.buf.remove(self.offset - 1);
                self.offset = self.offset - 1;
                ops.push(TermOp::CursorLeft(1));
                ops.push(TermOp::ClearAfter);
                if self.offset < self.buf.len() {
                    let mut tail: Vec<char> = Vec::new();
                    let mut i: usize = self.offset;
                    while i < self.buf.len()
                        invariant
                            self.offset <= i <= self.buf@.len(),
                            tail@ == self.buf@.subrange(self.offset as int, i as int),
                        decreases self.buf@.len() - i,
                    {
                        let c = self.buf[i];
                        tail.push(c);
                        proof {
                            assert(self.buf@.subrange(self.offset as int, i as int) + seq![
                                self.buf@[i as int],
                            ] =~= self.buf@.subrange(self.offset as int, i + 1));
                        }
                        i += 1;
                    }
                    proof {
                        assert(tail@ =~= self.buf@.skip(self.offset as int));
                    }
                    let back = self.buf.len() - self.offset;
                    ops.push(TermOp::EchoTail(tail));
                    ops.push(TermOp::CursorLeft(back));
                }
                proof {
                    assert(ops@.map_values(|o: TermOp| o@) =~= eff.ops);
                }
                (ops, None)
            },
            KeyEvent::Char(c) => {
                if c == '\t' {
                    let line = copy_chars(&self.buf);
                    proof {
                        assert(ops@.map_values(|o: TermOp| o@) =~= eff.ops);
                    }
                    (ops, Some((line, LineType::Complete)))
                } else if c == '\n' {
                    ops.push(TermOp::Newline);
                    let line = copy_chars(&self.buf);
                    proof {
                        assert(ops@.map_values(|o: TermOp| o@) =~= eff.ops);
                    }
                    (ops, Some((line, LineType::Enter)))
                } else if c == '?' {
                    ops.push(TermOp::Echo('?'));
                    let line = copy_chars(&self.buf);
                    proof {
                        assert(ops@.map_values(|o: TermOp| o@) =~= eff.ops);
                    }
                    (ops, Some((line, LineType::Help)))
                } else {
                    self.buf.insert(self.offset, c);
                    let n = self.buf.len();
                    assert(self.offset < n);
                    self.offset = self.offset + 1;
                    ops.push(TermOp::Echo(c));
                    proof {
                        assert(ops@.map_values(|o: TermOp| o@) =~= eff.ops);
                    }
                    (ops, None)
                }
            },
            KeyEvent::CtrlW => {
                if self.buf.len() > 0 {
                    let width = self.buf.len();
                    ops.push(TermOp::CursorLeft(width));
                    ops.push(TermOp::ClearAfter);
                    self.buf.clear();
                    self.offset = 0;
                }
                proof {
                    assert(ops@.map_values(|o: TermOp| o@) =~= eff.ops);
                }
                (ops, None)
            },
            KeyEvent::CtrlD => {
                ops.push(TermOp::Newline);
                let mut line: Vec<char> = Vec::new();
                line.push('e');
                line.push('x');
                line.push('i');
                line.push('t');
                proof {
                    assert(line@ =~= seq!['e', 'x', 'i', 't']);
                    assert(ops@.map_values(|o: TermOp| o@) =~= eff.ops);
                }
                (ops, Some((line, LineType::Enter)))
            },
            KeyEvent::Left => {
                if self.offset > 0 {
                    ops.push(TermOp::CursorLeft(1));
                    self.offset = self.offset - 1;
                }
                proof {
                    assert(ops@.map_values(|o: TermOp| o@) =~= eff.ops);
                }
                (ops, None)
            },
            KeyEvent::Right => {
                if self.offset < self.buf.len() {
                    ops.push(TermOp::CursorRight(1));
                    self.offset = self.offset + 1;
                }
                proof {
                    assert(ops@.map_values(|o: TermOp| o@) =~= eff.ops);
                }
                (ops, None)
            },
            KeyEvent::Other => {
                proof {
                    assert(ops@.map_values(|o: TermOp| o@) =~= eff.ops);
                }
                (ops, None)
            },
        }
    }
}

/// A fresh copy of a character buffer.
pub fn copy_chars(v: &Vec<char>) -> (r: Vec<char>)
    ensures
        r@ == v@,
{
    let mut r: Vec<char> = Vec::new();
    crate::chars::append_chars(&mut r, v);
    proof {
        assert(Seq::<char>::empty() + v@ =~= v@);
    }
    r
}

} // verus!
