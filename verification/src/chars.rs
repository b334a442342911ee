//! Character-sequence utilities: comparison, prefix test, padding,
//! whitespace trimming and tokenization over `Vec<char>` buffers.
use vstd::prelude::*;

verus! {

/// A token separator: space or tab.
pub open spec fn is_space(c: char) -> bool {
    c == ' ' || c == '\t'
}

pub fn space_char(c: char) -> (r: bool)
    ensures
        r == is_space(c),
{
    c == ' ' || c == '\t'
}

pub fn chars_eq(a: &Vec<char>, b: &Vec<char>) -> (r: bool)
    ensures
        r == (a@ == b@),
{
    if a.len() != b.len() {
        assert(a@.len() != b@.len());
        return false;
    }
    let mut i: usize = 0;
    while i < a.len()
        invariant
            i <= a.len(),
            a.len() == b.len(),
            forall|j: int| 0 <= j < i ==> a@[j] == b@[j],
        decreases a.len() - i,
    {
        if a[i] != b[i] {
            assert(a@[i as int] != b@[i as int]);
            return false;
        }
        i += 1;
    }
    proof {
        assert(a@ =~= b@);
    }
    true
}

/// `p` is a prefix of `s`.
pub open spec fn has_prefix(s: Seq<char>, p: Seq<char>) -> bool {
    p.len() <= s.len() && s.subrange(0, p.len() as int) == p
}

pub fn starts_with(s: &Vec<char>, p: &Vec<char>) -> (r: bool)
    ensures
        r == has_prefix(s@, p@),
{
    if p.len() > s.len() {
        return false;
    }
    let mut i: usize = 0;
    while i < p.len()
        invariant
            i <= p.len(),
            p.len() <= s.len(),
            forall|j: int| 0 <= j < i ==> s@[j] == p@[j],
        decreases p.len() - i,
    {
        if s[i] != p[i] {
            assert(s@.subrange(0, p@.len() as int)[i as int] != p@[i as int]);
            return false;
        }
        i += 1;
    }
    proof {
        assert(s@.subrange(0, p@.len() as int) =~= p@);
    }
    true
}

pub fn append_chars(dst: &mut Vec<char>, src: &Vec<char>)
    ensures
        final(dst)@ == old(dst)@ + src@,
{
    let mut i: usize = 0;
    while i < src.len()
        invariant
            i <= src.len(),
            dst@ == old(dst)@ + src@.subrange(0, i as int),
        decreases src.len() - i,
    {
        let c = src[i];
        dst.push(c);
        proof {
            assert(old(dst)@ + src@.subrange(0, i as int) + seq![src@[i as int]] =~= old(
                dst,
            )@ + src@.subrange(0, i + 1));
        }
        i += 1;
    }
    proof {
        assert(src@.subrange(0, src@.len() as int) =~= src@);
    }
}

/// `n` space characters.
pub open spec fn spaces(n: nat) -> Seq<char> {
    Seq::new(n, |i: int| ' ')
}

pub fn push_spaces(dst: &mut Vec<char>, n: usize)
    ensures
        final(dst)@ == old(dst)@ + spaces(n as nat),
{
    let mut i: usize = 0;
    while i < n
        invariant
            i <= n,
            dst@ == old(dst)@ + spaces(i as nat),
        decreases n - i,
    {
        dst.push(' ');
        proof {
            assert(old(dst)@ + spaces(i as nat) + seq![' '] =~= old(dst)@ + spaces((i + 1) as nat));
        }
        i += 1;
    }
}

pub open spec fn trim_front_spec(s: Seq<char>) -> Seq<char>
    decreases s.len(),
{
    if s.len() > 0 && is_space(s[0]) {
        trim_front_spec(s.drop_first())
    } else {
        s
    }
}

pub open spec fn trim_back_spec(s: Seq<char>) -> Seq<char>
    decreases s.len(),
{
    if s.len() > 0 && is_space(s.last()) {
        trim_back_spec(s.drop_last())
    } else {
        s
    }
}

/// The sequence with leading and trailing spaces removed.
pub open spec fn trim_spec(s: Seq<char>) -> Seq<char> {
    trim_back_spec(trim_front_spec(s))
}

pub fn trim_chars(v: &Vec<char>) -> (r: Vec<char>)
    ensures
        r@ == trim_spec(v@),
{
    let len = v.len();
    proof {
        assert(v@.subrange(0, len as int) =~= v@);
    }
    let mut lo: usize = 0;
    while lo < len && space_char(v[lo])
        invariant
            lo <= len,
            len == v@.len(),
            trim_front_spec(v@) == trim_front_spec(v@.subrange(lo as int, len as int)),
        decreases len - lo,
    {
        proof {
            let t = v@.subrange(lo as int, len as int);
            assert(t.drop_first() =~= v@.subrange(lo as int + 1, len as int));
        }
        lo += 1;
    }
    proof {
        let t = v@.subrange(lo as int, len as int);
        assert(trim_front_spec(t) == t);
    }
    let mut hi: usize = len;
    while hi > lo && space_char(v[hi - 1])
        invariant
            lo <= hi <= len,
            len == v@.len(),
            trim_front_spec(v@) == v@.subrange(lo as int, len as int),
            trim_back_spec(v@.subrange(lo as int, len as int)) == trim_back_spec(
                v@.subrange(lo as int, hi as int),
            ),
        decreases hi,
    {
        proof {
            let t = v@.subrange(lo as int, hi as int);
            assert(t.drop_last() =~= v@.subrange(lo as int, hi as int - 1));
        }
        hi -= 1;
    }
    proof {
        let t = v@.subrange(lo as int, hi as int);
        assert(trim_back_spec(t) == t);
    }
    let mut r: Vec<char> = Vec::new();
    let mut i: usize = lo;
    while i < hi
        invariant
            lo <= i <= hi <= len,
            len == v@.len(),
            r@ == v@.subrange(lo as int, i as int),
        decreases hi - i,
    {
        let c = v[i];
        r.push(c);
        proof {
            assert(v@.subrange(lo as int, i as int) + seq![v@[i as int]] =~= v@.subrange(
                lo as int,
                i + 1,
            ));
        }
        i += 1;
    }
    r
}

/// A token and the offset of its first character in the line.
pub struct Token {
    pub start: usize,
    pub text: Vec<char>,
}

/// The mathematical value of a token.
#[verifier::ext_equal]
pub struct SpecTok {
    pub start: int,
    pub text: Seq<char>,
}

impl View for Token {
    type V = SpecTok;

    open spec fn view(&self) -> SpecTok {
        SpecTok { start: self.start as int, text: self.text@ }
    }
}

/// One step of whitespace tokenization: scanning from position `i`
/// with a partial token `cur` begun at `cur_start` and the tokens
/// collected so far in `acc`.
pub open spec fn spec_tokens_rec(
    s: Seq<char>,
    i: int,
    cur_start: int,
    cur: Seq<char>,
    acc: Seq<SpecTok>,
) -> Seq<SpecTok>
    decreases s.len() - i,
{
    if i < 0 || i >= s.len() {
        if cur.len() > 0 {
            acc.push(SpecTok { start: cur_start, text: cur })
        } else {
            acc
        }
    } else if is_space(s[i]) {
        if cur.len() > 0 {
            spec_tokens_rec(
                s,
                i + 1,
                0,
                Seq::empty(),
                acc.push(SpecTok { start: cur_start, text: cur }),
            )
        } else {
            spec_tokens_rec(s, i + 1, 0, Seq::empty(), acc)
        }
    } else {
        spec_tokens_rec(
            s,
            i + 1,
            if cur.len() == 0 {
                i
            } else {
                cur_start
            },
            cur.push(s[i]),
            acc,
        )
    }
}

/// The whitespace-separated tokens of a line, each with its starting
/// column: maximal runs of non-space characters, in order.
pub open spec fn spec_tokens(s: Seq<char>) -> Seq<SpecTok> {
    spec_tokens_rec(s, 0, 0, Seq::empty(), Seq::empty())
}

pub fn tokenize(line: &Vec<char>) -> (r: Vec<Token>)
    ensures
        r@.map_values(|t: Token| t@) == spec_tokens(line@),
        forall|k: int| 0 <= k < r@.len() ==> (#[trigger] r@[k]).start <= line@.len(),
{
    let len = line.len();
    let mut toks: Vec<Token> = Vec::new();
    let mut cur: Vec<char> = Vec::new();
    let mut cur_start: usize = 0;
    proof {
        assert(toks@.map_values(|t: Token| t@) =~= Seq::<SpecTok>::empty());
    }
    let mut i: usize = 0;
    while i < len
        invariant
            i <= len,
            len == line@.len(),
            cur_start <= len,
            cur@.len() == 0 ==> cur_start == 0,
            spec_tokens(line@) == spec_tokens_rec(
                line@,
                i as int,
                cur_start as int,
                cur@,
                toks@.map_values(|t: Token| t@),
            ),
            forall|k: int| 0 <= k < toks@.len() ==> (#[trigger] toks@[k]).start <= len,
        decreases len - i,
    {
        let ghost gi = i as int;
        let ghost gcs = cur_start as int;
        let ghost gcur = cur@;
        let ghost gacc = toks@.map_values(|t: Token| t@);
        let c = line[i];
        if space_char(c) {
            if cur.len() > 0 {
                let done = Token { start: cur_start, text: cur };
                proof {
                    assert(done@ == SpecTok { start: gcs, text: gcur });
                    assert(gacc.push(done@) =~= toks@.push(done).map_values(|t: Token| t@));
                    assert(spec_tokens_rec(line@, gi, gcs, gcur, gacc) == spec_tokens_rec(
                        line@,
                        gi + 1,
                        0,
                        Seq::empty(),
                        gacc.push(SpecTok { start: gcs, text: gcur }),
                    ));
                }
                toks.push(done);
                cur = Vec::new();
                cur_start = 0;
                proof {
                    assert(cur@ =~= Seq::<char>::empty());
                    assert(toks@.map_values(|t: Token| t@) == gacc.push(
                        SpecTok { start: gcs, text: gcur },
                    ));
                }
            } else {
                proof {
                    assert(spec_tokens_rec(line@, gi, gcs, gcur, gacc) == spec_tokens_rec(
                        line@,
                        gi + 1,
                        0,
                        Seq::empty(),
                        gacc,
                    ));
                    assert(gcur =~= Seq::<char>::empty());
                }
            }
        } else {
            if cur.len() == 0 {
                cur_start = i;
            }
            cur.push(c);
            proof {
                assert(cur@ == gcur.push(line@[gi]));
                assert(spec_tokens_rec(line@, gi, gcs, gcur, gacc) == spec_tokens_rec(
                    line@,
                    gi + 1,
                    if gcur.len() == 0 { gi } else { gcs },
                    gcur.push(line@[gi]),
                    gacc,
                ));
            }
        }
        i += 1;
        proof {
            assert(spec_tokens_rec(line@, gi, gcs, gcur, gacc) == spec_tokens_rec(
                line@,
                i as int,
                cur_start as int,
                cur@,
                toks@.map_values(|t: Token| t@),
            ));
        }
    }
    if cur.len() > 0 {
        let done = Token { start: cur_start, text: cur };
        proof {
            assert(toks@.map_values(|t: Token| t@).push(done@) =~= toks@.push(done).map_values(
                |t: Token| t@,
            ));
        }
        toks.push(done);
    }
    toks
}

} // verus!
