use vstd::prelude::*;
use crate::text::{chars_of, copy_range, push_text, string_of, trim, trim_chars};

verus! {

/// `s` without leading and trailing copies of `c`.
pub open spec fn strip_char(s: Seq<char>, c: char) -> Seq<char>
    decreases s.len(),
{
    if s.len() > 0 && s[0] == c {
        strip_char(s.drop_first(), c)
    } else if s.len() > 0 && s.last() == c {
        strip_char(s.drop_last(), c)
    } else {
        s
    }
}

/// Index of the first `c` in `s`, if any.
pub open spec fn find_char(s: Seq<char>, c: char) -> Option<int>
    decreases s.len(),
{
    if s.len() == 0 {
        None
    } else {
        match find_char(s.drop_last(), c) {
            Some(i) => Some(i),
            None => if s.last() == c {
                Some(s.len() - 1)
            } else {
                None
            },
        }
    }
}

/// The value that one line of an env file assigns to `name`: the line is
/// trimmed, blank lines and `#` comments assign nothing, the key is what
/// stands before the first `=`, trimmed; the value is what follows it,
/// trimmed and stripped of surrounding `"` and then `'` characters.
pub open spec fn env_line(l: Seq<char>, name: Seq<char>) -> Option<Seq<char>> {
    let t = trim(l);
    if t.len() == 0 || t[0] == '#' {
        None
    } else {
        match find_char(t, '=') {
            None => None,
            Some(k) => if trim(t.take(k)) == name {
                Some(strip_char(strip_char(trim(t.skip(k + 1)), '"'), '\''))
            } else {
                None
            },
        }
    }
}

/// Scan of an env file's text: the value found on an earlier line, if any,
/// and the current line.
pub open spec fn env_scan(s: Seq<char>, name: Seq<char>) -> (Option<Seq<char>>, Seq<char>)
    decreases s.len(),
{
    if s.len() == 0 {
        (None, Seq::empty())
    } else {
        let (found, cur) = env_scan(s.drop_last(), name);
        if found is Some {
            (found, cur)
        } else if s.last() == '\n' {
            (env_line(cur, name), Seq::empty())
        } else {
            (None, cur.push(s.last()))
        }
    }
}

/// The value assigned to `name` by the first line of `s` that assigns it.
pub open spec fn env_value_of(s: Seq<char>, name: Seq<char>) -> Option<Seq<char>> {
    let (found, cur) = env_scan(s, name);
    if found is Some {
        found
    } else {
        env_line(cur, name)
    }
}

fn strip_char_exec(s: &[char], c: char) -> (r: Vec<char>)
    ensures
        r@ == strip_char(s@, c),
{
    let mut lo: usize = 0;
    let mut hi: usize = s.len();
    assert(s@.subrange(0, s@.len() as int) =~= s@);
    while lo < hi && (s[lo] == c || s[hi - 1] == c)
        invariant
            lo <= hi <= s@.len(),
            strip_char(s@, c) == strip_char(s@.subrange(lo as int, hi as int), c),
        decreases hi - lo,
    {
        let ghost sub = s@.subrange(lo as int, hi as int);
        if s[lo] == c {
            assert(sub.drop_first() =~= s@.subrange(lo + 1, hi as int));
            lo = lo + 1;
        } else {
            assert(sub.drop_last() =~= s@.subrange(lo as int, hi - 1));
            hi = hi - 1;
        }
    }
    copy_range(s, lo, hi)
}

pub fn find_char_exec(s: &[char], c: char) -> (r: Option<usize>)
    ensures
        match r {
            Some(i) => find_char(s@, c) == Some(i as int) && i < s@.len(),
            None => find_char(s@, c) is None,
        },
{
    let mut i: usize = 0;
    while i < s.len()
        invariant
            i <= s@.len(),
            find_char(s@.take(i as int), c) is None,
        decreases s@.len() - i,
    {
        assert(s@.take(i + 1).drop_last() =~= s@.take(i as int));
        if s[i] == c {
            proof {
                lemma_find_prefix(s@, c, i + 1);
            }
            return Some(i);
        }
        i = i + 1;
    }
    assert(s@.take(s@.len() as int) =~= s@);
    None
}

/// The first `c` in a prefix is the first `c` of the whole.
proof fn lemma_find_prefix(s: Seq<char>, c: char, n: int)
    requires
        0 <= n <= s.len(),
        find_char(s.take(n), c) is Some,
    ensures
        find_char(s, c) == find_char(s.take(n), c),
    decreases s.len() - n,
{
    if n < s.len() {
        assert(s.take(n + 1).drop_last() =~= s.take(n));
        lemma_find_prefix(s, c, n + 1);
    } else {
        assert(s.take(n) =~= s);
    }
}

fn env_line_exec(l: &[char], name: &[char]) -> (r: Option<Vec<char>>)
    ensures
        match env_line(l@, name@) {
            Some(v) => r is Some && r->Some_0@ == v,
            None => r is None,
        },
{
    let t = trim_chars(l);
    if t.len() == 0 || t[0] == '#' {
        return None;
    }
    match find_char_exec(t.as_slice(), '=') {
        None => None,
        Some(k) => {
            let key_raw = copy_range(t.as_slice(), 0, k);
            let key = trim_chars(key_raw.as_slice());
            assert(key_raw@ =~= t@.take(k as int));
            if !same_chars(key.as_slice(), name) {
                return None;
            }
            let rest = copy_range(t.as_slice(), k + 1, t.len());
            assert(rest@ =~= t@.skip(k + 1));
            let v = trim_chars(rest.as_slice());
            let v = strip_char_exec(v.as_slice(), '"');
            Some(strip_char_exec(v.as_slice(), '\''))
        },
    }
}

pub fn same_chars(a: &[char], b: &[char]) -> (r: bool)
    ensures
        r == (a@ == b@),
{
    if a.len() != b.len() {
        return false;
    }
    let mut i: usize = 0;
    while i < a.len()
        invariant
            a@.len() == b@.len(),
            i <= a@.len(),
            a@.take(i as int) == b@.take(i as int),
        decreases a@.len() - i,
    {
        if a[i] != b[i] {
            return false;
        }
        assert(a@.take(i + 1) =~= a@.take(i as int).push(a@[i as int]));
        assert(b@.take(i + 1) =~= b@.take(i as int).push(b@[i as int]));
        i = i + 1;
    }
    assert(a@.take(a@.len() as int) =~= a@);
    assert(b@.take(b@.len() as int) =~= b@);
    true
}

/// The value that the env-file text `content` assigns to `name`, from the
/// first line that assigns it.
pub fn env_value(content: &str, name: &str) -> (r: Option<String>)
    ensures
        match env_value_of(content@, name@) {
            Some(v) => r is Some && r->Some_0@ == v,
            None => r is None,
        },
{
    let cs = chars_of(content);
    let nm = chars_of(name);
    let mut cur: Vec<char> = Vec::new();
    let mut i: usize = 0;
    assert(cs@.take(0) =~= Seq::<char>::empty());
    while i < cs.len()
        invariant
            cs@ == content@,
            nm@ == name@,
            i <= cs@.len(),
            env_scan(cs@.take(i as int), name@) == (None::<Seq<char>>, cur@),
        decreases cs@.len() - i,
    {
        assert(cs@.take(i + 1).drop_last() =~= cs@.take(i as int));
        if cs[i] == '\n' {
            match env_line_exec(cur.as_slice(), nm.as_slice()) {
                Some(v) => {
                    proof {
                        lemma_scan_keeps(cs@, name@, i + 1);
                    }
                    return Some(string_of(v.as_slice()));
                },
                None => {
                    cur = Vec::new();
                },
            }
        } else {
            cur.push(cs[i]);
        }
        i = i + 1;
    }
    assert(cs@.take(cs@.len() as int) =~= cs@);
    match env_line_exec(cur.as_slice(), nm.as_slice()) {
        Some(v) => Some(string_of(v.as_slice())),
        None => None,
    }
}

/// Once a value is found, the rest of the text does not change it.
proof fn lemma_scan_keeps(s: Seq<char>, name: Seq<char>, n: int)
    requires
        0 <= n <= s.len(),
        env_scan(s.take(n), name).0 is Some,
    ensures
        env_scan(s, name).0 == env_scan(s.take(n), name).0,
    decreases s.len() - n,
{
    if n < s.len() {
        assert(s.take(n + 1).drop_last() =~= s.take(n));
        lemma_scan_keeps(s, name, n + 1);
    } else {
        assert(s.take(n) =~= s);
    }
}

/// The database URL that an env file's text gives under `DATABASE_URL`.
/// Fails when no line assigns it, naming the file `path`, or when the value
/// is empty.
pub fn database_url_from_env(content: &str, path: &str) -> (r: Result<String, String>)
    ensures
        match env_value_of(content@, "DATABASE_URL"@) {
            None => r is Err && r->Err_0@ == "Database URL not found in file: "@ + path@,
            Some(v) => if v.len() == 0 {
                r is Err && r->Err_0@ == "Empty connection string"@
            } else {
                r is Ok && r->Ok_0@ == v
            },
        },
{
    match env_value(content, "DATABASE_URL") {
        None => {
            let mut out: Vec<char> = Vec::new();
            push_text(&mut out, "Database URL not found in file: ");
            push_text(&mut out, path);
            Err(string_of(out.as_slice()))
        },
        Some(v) => {
            if v.as_str().is_empty() {
                Err(String::from_str("Empty connection string"))
            } else {
                Ok(v)
            }
        },
    }
}

} // verus!

verus! {

/// Splits a project's database setting of the form `<env file>|<variable>`
/// into the env file's path and the variable's name, both trimmed. Without a
/// `|`, the whole setting, trimmed, is the path and the variable is
/// `DATABASE_URL`.
pub fn env_reference(db: &str) -> (r: (String, String))
    ensures
        match find_char(db@, '|') {
            Some(k) => r.0@ == trim(db@.take(k)) && r.1@ == trim(db@.skip(k + 1)),
            None => r.0@ == trim(db@) && r.1@ == "DATABASE_URL"@,
        },
{
    let cs = chars_of(db);
    match find_char_exec(cs.as_slice(), '|') {
        Some(k) => {
            let path = copy_range(cs.as_slice(), 0, k);
            let var = copy_range(cs.as_slice(), k + 1, cs.len());
            assert(path@ =~= db@.take(k as int));
            assert(var@ =~= db@.skip(k + 1));
            let p = trim_chars(path.as_slice());
            let v = trim_chars(var.as_slice());
            (string_of(p.as_slice()), string_of(v.as_slice()))
        },
        None => {
            let p = trim_chars(cs.as_slice());
            (string_of(p.as_slice()), String::from_str("DATABASE_URL"))
        },
    }
}

} // verus!
