use vstd::prelude::*;
use crate::error::{DbError, ErrorKind};
use crate::text::{chars_of, string_of, trim, trim_chars, views};

verus! {

/// Lexical mode of the statement scanner. The modes exclude each other.
#[derive(Clone, Copy, PartialEq, Eq, Structural, Debug)]
pub enum Mode {
    Plain,
    InString,
    InIdentifier,
    InLineComment,
    InBlockComment,
}

/// State of the scan after a prefix of the script: the mode, the look-back
/// character, the pending statement text and the statements emitted so far.
pub type Scan = (Mode, char, Seq<char>, Seq<Seq<char>>);

/// Appends the pending text `b` (which ends in its `;`) as a statement,
/// trimmed, unless nothing but white space stands before the `;`.
pub open spec fn emit_terminated(out: Seq<Seq<char>>, b: Seq<char>) -> Seq<Seq<char>> {
    if trim(b).len() > 1 {
        out.push(trim(b))
    } else {
        out
    }
}

/// Drops the last pending character: the first character of a comment
/// delimiter, which was taken for text one step earlier.
pub open spec fn unpush(b: Seq<char>) -> Seq<char> {
    if b.len() > 0 {
        b.drop_last()
    } else {
        b
    }
}

/// One step of the scanner on the character `c`. A consumed comment delimiter
/// resets the look-back character to a space, so that `/*/` opens and does
/// not close a comment.
pub open spec fn step(st: Scan, c: char) -> Scan {
    let (m, prev, b, out) = st;
    match m {
        Mode::InLineComment => if c == '\n' {
            (Mode::Plain, c, b.push(c), out)
        } else {
            (m, c, b, out)
        },
        Mode::InBlockComment => if c == '/' && prev == '*' {
            (Mode::Plain, ' ', b, out)
        } else {
            (m, c, b, out)
        },
        Mode::InString => if c == '\'' && prev != '\\' {
            (Mode::Plain, c, b.push(c), out)
        } else {
            (m, c, b.push(c), out)
        },
        Mode::InIdentifier => if c == '"' && prev != '\\' {
            (Mode::Plain, c, b.push(c), out)
        } else {
            (m, c, b.push(c), out)
        },
        Mode::Plain => if c == '\'' {
            (Mode::InString, c, b.push(c), out)
        } else if c == '"' {
            (Mode::InIdentifier, c, b.push(c), out)
        } else if c == '-' && prev == '-' {
            (Mode::InLineComment, ' ', unpush(b), out)
        } else if c == '*' && prev == '/' {
            (Mode::InBlockComment, ' ', unpush(b), out)
        } else if c == ';' {
            (Mode::Plain, c, Seq::empty(), emit_terminated(out, b.push(c)))
        } else {
            (Mode::Plain, c, b.push(c), out)
        },
    }
}

/// The scan of a whole prefix, one character after the other.
pub open spec fn scan(s: Seq<char>) -> Scan
    decreases s.len(),
{
    if s.len() == 0 {
        (Mode::Plain, ' ', Seq::empty(), Seq::empty())
    } else {
        step(scan(s.drop_last()), s.last())
    }
}

/// The statements of a script, or the mode that was left open at its end.
pub open spec fn split_spec(s: Seq<char>) -> Result<Seq<Seq<char>>, Mode> {
    let (m, _p, b, out) = scan(s);
    match m {
        Mode::InString | Mode::InIdentifier | Mode::InBlockComment => Err(m),
        _ => Ok(
            if trim(b).len() > 0 {
                out.push(trim(b))
            } else {
                out
            },
        ),
    }
}

/// The message of the error for a construct left open.
pub open spec fn unclosed_message(m: Mode) -> Seq<char> {
    match m {
        Mode::InString => "Unclosed string literal in SQL statement"@,
        Mode::InIdentifier => "Unclosed quoted identifier in SQL statement"@,
        _ => "Unclosed block comment in SQL statement"@,
    }
}

/// Splits a SQL script into its statements. Each statement keeps its
/// terminating `;`, loses comment text and surrounding white space; empty
/// statements are dropped. Fails when the script ends inside a string
/// literal, a quoted identifier or a block comment.
pub fn split_sql_statements(sql: &str) -> (r: Result<Vec<String>, DbError>)
    ensures
        match split_spec(sql@) {
            Ok(stmts) => r is Ok && views(r->Ok_0@) == stmts,
            Err(m) => r is Err && r->Err_0@ == (ErrorKind::Parsing, unclosed_message(m)),
        },
{
    let cs = chars_of(sql);
    let mut mode = Mode::Plain;
    let mut prev = ' ';
    let mut buf: Vec<char> = Vec::new();
    let mut out: Vec<String> = Vec::new();
    let mut i: usize = 0;
    assert(cs@.take(0) =~= Seq::<char>::empty());
    while i < cs.len()
        invariant
            i <= cs@.len(),
            scan(cs@.take(i as int)) == (mode, prev, buf@, views(out@)),
        decreases cs@.len() - i,
    {
        let c = cs[i];
        assert(cs@.take(i + 1).drop_last() =~= cs@.take(i as int));
        let ghost before = views(out@);
        match mode {
            Mode::InLineComment => {
                if c == '\n' {
                    mode = Mode::Plain;
                    buf.push(c);
                }
                prev = c;
            },
            Mode::InBlockComment => {
                if c == '/' && prev == '*' {
                    mode = Mode::Plain;
                    prev = ' ';
                } else {
                    prev = c;
                }
            },
            Mode::InString => {
                if c == '\'' && prev != '\\' {
                    mode = Mode::Plain;
                }
                buf.push(c);
                prev = c;
            },
            Mode::InIdentifier => {
                if c == '"' && prev != '\\' {
                    mode = Mode::Plain;
                }
                buf.push(c);
                prev = c;
            },
            Mode::Plain => {
                if c == '\'' {
                    mode = Mode::InString;
                    buf.push(c);
                    prev = c;
                } else if c == '"' {
                    mode = Mode::InIdentifier;
                    buf.push(c);
                    prev = c;
                } else if c == '-' && prev == '-' {
                    mode = Mode::InLineComment;
                    buf.pop();
                    prev = ' ';
                } else if c == '*' && prev == '/' {
                    mode = Mode::InBlockComment;
                    buf.pop();
                    prev = ' ';
                } else if c == ';' {
                    buf.push(c);
                    let t = trim_chars(buf.as_slice());
                    if t.len() > 1 {
                        out.push(string_of(t.as_slice()));
                        assert(views(out@) =~= before.push(t@));
                    }
                    buf = Vec::new();
                    prev = c;
                } else {
                    buf.push(c);
                    prev = c;
                }
            },
        }
        i = i + 1;
    }
    assert(cs@.take(cs@.len() as int) =~= cs@);
    match mode {
        Mode::InString => Err(DbError::Parsing(String::from_str("Unclosed string literal in SQL statement"))),
        Mode::InIdentifier => Err(DbError::Parsing(String::from_str("Unclosed quoted identifier in SQL statement"))),
        Mode::InBlockComment => Err(DbError::Parsing(String::from_str("Unclosed block comment in SQL statement"))),
        _ => {
            let ghost before = views(out@);
            let t = trim_chars(buf.as_slice());
            if t.len() > 0 {
                out.push(string_of(t.as_slice()));
                assert(views(out@) =~= before.push(t@));
            }
            Ok(out)
        },
    }
}

} // verus!

verus! {

pub open spec fn is_comment(m: Mode) -> bool {
    m == Mode::InLineComment || m == Mode::InBlockComment
}

/// The scan of `s` is never inside a comment: the script has no comments.
pub open spec fn comment_free(s: Seq<char>) -> bool {
    forall|i: int| 0 <= i <= s.len() ==> !is_comment(#[trigger] scan(s.take(i)).0)
}

/// The statements, each followed by `;`.
pub open spec fn terminated(v: Seq<Seq<char>>) -> Seq<char>
    decreases v.len(),
{
    if v.len() == 0 {
        Seq::empty()
    } else {
        terminated(v.drop_last()) + v.last() + seq![';']
    }
}

/// The statements joined with `;` between each two.
pub open spec fn join_statements(v: Seq<Seq<char>>) -> Seq<char> {
    if v.len() == 0 {
        Seq::empty()
    } else {
        terminated(v.drop_last()) + v.last()
    }
}

/// A look-back character that cannot start a comment delimiter.
pub open spec fn quiet(c: char) -> bool {
    c != '-' && c != '/'
}

/// The scan state `st` of a script is mirrored by the scan of the text that
/// joins what it emitted so far and its pending text without leading white
/// space.
pub open spec fn mirrored(st: Scan) -> bool {
    let (m, prev, buf, out) = st;
    let t = crate::text::trim_start(buf);
    let tx = terminated(out) + t;
    let j = scan(tx);
    &&& !is_comment(m)
    &&& (m != Mode::Plain ==> t.len() > 0)
    &&& comment_free(tx)
    &&& j.0 == m
    &&& j.2 == t
    &&& j.3 == out
    &&& (t.len() > 0 ==> j.1 == prev)
    &&& (t.len() == 0 ==> quiet(prev) && quiet(j.1))
    &&& (out.len() > 0 ==> scan(join_statements(out)) == (Mode::Plain, ';', Seq::<char>::empty(), out))
}

proof fn lemma_trim_start_push(b: Seq<char>, c: char)
    ensures
        crate::text::trim_start(b.push(c)) == if crate::text::trim_start(b).len() == 0 && crate::text::is_space(c) {
            Seq::<char>::empty()
        } else {
            crate::text::trim_start(b).push(c)
        },
    decreases b.len(),
{
    if b.len() == 0 {
        assert(b.push(c) =~= seq![c]);
        assert(seq![c].drop_first() =~= Seq::<char>::empty());
        assert(crate::text::trim_start(b) == b);
        if crate::text::is_space(c) {
            assert(crate::text::trim_start(seq![c]) == crate::text::trim_start(Seq::<char>::empty()));
        } else {
            assert(crate::text::trim_start(seq![c]) == seq![c]);
        }
    } else if crate::text::is_space(b[0]) {
        assert(b.push(c)[0] == b[0]);
        assert(b.push(c).drop_first() =~= b.drop_first().push(c));
        assert(crate::text::trim_start(b) == crate::text::trim_start(b.drop_first()));
        assert(crate::text::trim_start(b.push(c)) == crate::text::trim_start(b.drop_first().push(c)));
        lemma_trim_start_push(b.drop_first(), c);
    } else {
        assert(b.push(c)[0] == b[0]);
        assert(crate::text::trim_start(b) == b);
        assert(crate::text::trim_start(b.push(c)) == b.push(c));
    }
}

proof fn lemma_trim_start_head(x: Seq<char>)
    ensures
        crate::text::trim_start(x).len() > 0 ==> !crate::text::is_space(crate::text::trim_start(x)[0]),
        crate::text::trim_start(crate::text::trim_start(x)) == crate::text::trim_start(x),
    decreases x.len(),
{
    if x.len() > 0 && crate::text::is_space(x[0]) {
        lemma_trim_start_head(x.drop_first());
    }
}

proof fn lemma_trim_end_parts(x: Seq<char>)
    ensures
        x == crate::text::trim_end(x) + x.skip(crate::text::trim_end(x).len() as int),
        forall|i: int| 0 <= i < x.skip(crate::text::trim_end(x).len() as int).len() ==> crate::text::is_space(
            #[trigger] x.skip(crate::text::trim_end(x).len() as int)[i],
        ),
        crate::text::trim_end(crate::text::trim_end(x)) == crate::text::trim_end(x),
        x.len() > 0 && !crate::text::is_space(x[0]) ==> crate::text::trim_end(x).len() > 0
            && crate::text::trim_end(x)[0] == x[0],
    decreases x.len(),
{
    if x.len() > 0 && crate::text::is_space(x.last()) {
        let y = x.drop_last();
        lemma_trim_end_parts(y);
        let k = crate::text::trim_end(y).len() as int;
        assert(crate::text::trim_end(x) == crate::text::trim_end(y));
        assert(k <= y.len()) by {
            assert(y.len() == (crate::text::trim_end(y) + y.skip(k)).len());
        };
        assert(x.skip(k) =~= y.skip(k).push(x.last()));
        assert(x =~= y.push(x.last()));
        assert(x =~= crate::text::trim_end(x) + x.skip(k));
        if x.len() == 1 {
            assert(y.len() == 0);
        } else {
            assert(y[0] == x[0]);
        }
    } else {
        assert(x.skip(x.len() as int) =~= Seq::<char>::empty());
        assert(x =~= x + Seq::<char>::empty());
    }
}

proof fn lemma_trim_terminated(b: Seq<char>)
    ensures
        crate::text::trim(b.push(';')) == crate::text::trim_start(b).push(';'),
{
    lemma_trim_start_push(b, ';');
    let y = crate::text::trim_start(b);
    assert(y.push(';').last() == ';');
}

proof fn lemma_comment_free_push(t: Seq<char>, c: char)
    requires
        comment_free(t),
        !is_comment(scan(t.push(c)).0),
    ensures
        comment_free(t.push(c)),
{
    assert forall|i: int| 0 <= i <= t.push(c).len() implies !is_comment(#[trigger] scan(t.push(c).take(i)).0) by {
        if i <= t.len() {
            assert(t.push(c).take(i) =~= t.take(i));
        } else {
            assert(t.push(c).take(i) =~= t.push(c));
        }
    };
}

proof fn lemma_mirror_step(st: Scan, c: char)
    requires
        mirrored(st),
        !is_comment(step(st, c).0),
    ensures
        mirrored(step(st, c)),
{
    let (m, prev, buf, out) = st;
    let t = crate::text::trim_start(buf);
    let tx = terminated(out) + t;
    let j = scan(tx);
    lemma_trim_start_push(buf, c);
    lemma_trim_start_head(buf);
    if m == Mode::Plain && c == ';' {
        lemma_trim_terminated(buf);
        if t.len() > 0 {
            let s1 = t.push(';');
            let out2 = out.push(s1);
            lemma_trim_terminated(t);
            assert(crate::text::trim(s1) == s1);
            assert(emit_terminated(out, buf.push(c)) == out2);
            assert(step(st, c) == (Mode::Plain, ';', Seq::<char>::empty(), out2));
            assert(tx.push(';').drop_last() =~= tx);
            assert(scan(tx.push(';')) == (Mode::Plain, ';', Seq::<char>::empty(), out2));
            let tx2 = tx.push(';').push(';');
            assert(tx2.drop_last() =~= tx.push(';'));
            assert(crate::text::trim(Seq::<char>::empty().push(';')) == seq![';']) by {
                lemma_trim_terminated(Seq::<char>::empty());
                assert(Seq::<char>::empty().push(';') =~= seq![';']);
            };
            assert(Seq::<char>::empty().push(';') =~= seq![';']);
            assert(scan(tx2) == (Mode::Plain, ';', Seq::<char>::empty(), out2));
            assert(out2.drop_last() =~= out);
            assert(terminated(out2) + crate::text::trim_start(Seq::<char>::empty()) =~= tx2);
            assert(join_statements(out2) =~= tx.push(';'));
            lemma_comment_free_push(tx, ';');
            lemma_comment_free_push(tx.push(';'), ';');
        } else {
            assert(crate::text::trim(buf.push(c)).len() == 1);
            assert(step(st, c) == (Mode::Plain, ';', Seq::<char>::empty(), out));
            assert(terminated(out) + crate::text::trim_start(Seq::<char>::empty()) =~= tx);
        }
    } else if m == Mode::Plain && t.len() == 0 && crate::text::is_space(c) {
        assert(step(st, c) == (Mode::Plain, c, buf.push(c), out));
    } else {
        let t2 = t.push(c);
        assert(crate::text::trim_start(buf.push(c)) == t2);
        assert(tx.push(c).drop_last() =~= tx);
        assert(terminated(out) + t2 =~= tx.push(c));
        assert(scan(tx.push(c)) == step(j, c));
        assert(step(j, c).0 == step(st, c).0);
        assert(step(st, c) == (step(st, c).0, c, buf.push(c), out));
        lemma_comment_free_push(tx, c);
    }
}

proof fn lemma_mirror_prefix(s: Seq<char>, n: int)
    requires
        comment_free(s),
        0 <= n <= s.len(),
    ensures
        mirrored(scan(s.take(n))),
    decreases n,
{
    if n == 0 {
        assert(s.take(0) =~= Seq::<char>::empty());
        assert(terminated(Seq::<Seq<char>>::empty()) + crate::text::trim_start(Seq::<char>::empty()) =~= Seq::<char>::empty());
        assert(comment_free(Seq::<char>::empty())) by {
            assert forall|i: int| 0 <= i <= 0 implies !is_comment(#[trigger] scan(Seq::<char>::empty().take(i)).0) by {
                assert(Seq::<char>::empty().take(i) =~= Seq::<char>::empty());
            };
        };
    } else {
        lemma_mirror_prefix(s, n - 1);
        assert(s.take(n).drop_last() =~= s.take(n - 1));
        assert(!is_comment(scan(s.take(n)).0));
        lemma_mirror_step(scan(s.take(n - 1)), s[n - 1]);
    }
}

proof fn lemma_space_tail(x: Seq<char>, w: Seq<char>)
    requires
        !is_comment(scan(x).0),
        forall|i: int| 0 <= i < w.len() ==> crate::text::is_space(#[trigger] w[i]),
    ensures
        scan(x + w).0 == scan(x).0,
        scan(x + w).2 == scan(x).2 + w,
        scan(x + w).3 == scan(x).3,
    decreases w.len(),
{
    if w.len() == 0 {
        assert(x + w =~= x);
    } else {
        let v = w.drop_last();
        lemma_space_tail(x, v);
        assert((x + w).drop_last() =~= x + v);
        assert((x + w).last() == w.last());
        assert(crate::text::is_space(w[w.len() - 1]));
        assert(scan(x).2 + w =~= (scan(x).2 + v).push(w.last()));
    }
}

/// Splitting is idempotent on scripts without comments: joining the
/// statements with `;` and splitting again gives the same statements.
pub proof fn lemma_split_idempotent(s: Seq<char>)
    requires
        comment_free(s),
        split_spec(s) is Ok,
    ensures
        split_spec(join_statements(split_spec(s)->Ok_0)) == split_spec(s),
{
    lemma_mirror_prefix(s, s.len() as int);
    assert(s.take(s.len() as int) =~= s);
    let (m, prev, buf, out) = scan(s);
    let t = crate::text::trim_start(buf);
    let tx = terminated(out) + t;
    assert(m == Mode::Plain);
    lemma_trim_start_head(buf);
    if t.len() > 0 {
        lemma_trim_end_parts(t);
        let u = crate::text::trim_end(t);
        let w = t.skip(u.len() as int);
        let x = terminated(out) + u;
        assert(tx =~= x + w);
        assert(tx.take(x.len() as int) =~= x);
        assert(!is_comment(scan(tx.take(x.len() as int)).0));
        lemma_space_tail(x, w);
        assert(scan(x).2 =~= (scan(x).2 + w).take(scan(x).2.len() as int));
        assert(scan(x).2 =~= u);
        lemma_trim_end_parts(u);
        assert(crate::text::trim_start(u) == u);
        assert(crate::text::trim(buf) == u);
        assert(split_spec(s) == Ok::<Seq<Seq<char>>, Mode>(out.push(u)));
        assert(out.push(u).drop_last() =~= out);
        assert(join_statements(out.push(u)) =~= x);
    } else {
        assert(crate::text::trim(buf).len() == 0);
        assert(split_spec(s) == Ok::<Seq<Seq<char>>, Mode>(out));
        if out.len() == 0 {
            assert(scan(Seq::<char>::empty()) == (Mode::Plain, ' ', Seq::<char>::empty(), Seq::<Seq<char>>::empty()));
        }
    }
}

} // verus!
