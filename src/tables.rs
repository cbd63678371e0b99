use vstd::prelude::*;
use crate::env::{find_char, find_char_exec, same_chars};
use crate::text::{chars_of, copy_range, is_space, is_space_char, lower_of, skip_spaces, string_of, to_lower, trim, trim_chars, trim_start, views};

verus! {

pub open spec fn matches_at(s: Seq<char>, p: Seq<char>, i: int) -> bool {
    0 <= i && i + p.len() <= s.len() && s.subrange(i, i + p.len()) == p
}

/// Index of the first occurrence of `p` in `s` at or after `i`.
pub open spec fn find_from(s: Seq<char>, p: Seq<char>, i: int) -> Option<int>
    decreases s.len() - i,
{
    if i < 0 || i >= s.len() || i + p.len() > s.len() {
        None
    } else if matches_at(s, p, i) {
        Some(i)
    } else {
        find_from(s, p, i + 1)
    }
}

pub open spec fn find(s: Seq<char>, p: Seq<char>) -> Option<int> {
    find_from(s, p, 0)
}

/// Where the first of the patterns that occurs in `s` first occurs (the
/// patterns are tried in order), or the end of `s`.
pub open spec fn end_of(s: Seq<char>, pats: Seq<Seq<char>>) -> int
    decreases pats.len(),
{
    if pats.len() == 0 {
        s.len() as int
    } else {
        match find(s, pats[0]) {
            Some(i) => i,
            None => end_of(s, pats.drop_first()),
        }
    }
}

/// Non-overlapping occurrences of `p` in `s` from `start`, left to right.
pub open spec fn occurrences(s: Seq<char>, p: Seq<char>, start: int) -> Seq<int>
    decreases s.len() - start,
{
    if p.len() == 0 || start < 0 || start >= s.len() {
        Seq::empty()
    } else {
        match find_from(s, p, start) {
            None => Seq::empty(),
            Some(i) => if i >= start && i + p.len() <= s.len() {
                seq![i] + occurrences(s, p, i + p.len())
            } else {
                Seq::empty()
            },
        }
    }
}

/// Index of the first white space in `s`, or its length.
pub open spec fn space_end(s: Seq<char>) -> int
    decreases s.len(),
{
    if s.len() == 0 {
        0
    } else if space_end(s.drop_last()) < s.len() - 1 {
        space_end(s.drop_last())
    } else if is_space(s.last()) {
        s.len() - 1
    } else {
        s.len() as int
    }
}

/// The first white-space separated word of `s`.
pub open spec fn first_token(s: Seq<char>) -> Option<Seq<char>> {
    let u = trim_start(s);
    if u.len() == 0 {
        None
    } else {
        Some(u.take(space_end(u)))
    }
}

/// What follows the last `.` of `s`, or all of `s`.
pub open spec fn last_segment(s: Seq<char>) -> Seq<char>
    decreases s.len(),
{
    if s.len() == 0 {
        s
    } else if s.last() == '.' {
        Seq::empty()
    } else {
        last_segment(s.drop_last()).push(s.last())
    }
}

/// The name a table reference gives, if it has a word.
pub open spec fn ref_names(r: Seq<char>) -> Seq<Seq<char>> {
    match first_token(r) {
        Some(t) => seq![last_segment(t)],
        None => Seq::empty(),
    }
}

/// The comma-separated parts of `s`.
pub open spec fn comma_parts(s: Seq<char>) -> Seq<Seq<char>>
    decreases s.len(),
{
    if s.len() == 0 {
        seq![Seq::empty()]
    } else {
        let ps = comma_parts(s.drop_last());
        if s.last() == ',' {
            ps.push(Seq::empty())
        } else {
            ps.update(ps.len() - 1, ps.last().push(s.last()))
        }
    }
}

pub open spec fn names_of_parts(ps: Seq<Seq<char>>) -> Seq<Seq<char>>
    decreases ps.len(),
{
    if ps.len() == 0 {
        Seq::empty()
    } else {
        names_of_parts(ps.drop_last()) + ref_names(ps.last())
    }
}

pub open spec fn from_names(l: Seq<char>) -> Seq<Seq<char>> {
    match find(l, " from "@) {
        None => Seq::empty(),
        Some(i) => {
            let fs = l.skip(i + 6);
            let e = end_of(fs, seq![" where "@, " group by "@, " having "@, " order by "@, " limit "@]);
            names_of_parts(comma_parts(trim(fs.take(e))))
        },
    }
}

/// The name after a join keyword at `idx`: the word after the first space,
/// up to ` on ` or ` using `.
pub open spec fn join_name(l: Seq<char>, idx: int) -> Seq<Seq<char>> {
    let js = l.skip(idx);
    let sp = match find_char(js, ' ') {
        Some(k) => k + 1,
        None => 1,
    };
    let jc = js.skip(sp);
    ref_names(trim(jc.take(end_of(jc, seq![" on "@, " using "@]))))
}

pub open spec fn join_names(l: Seq<char>, idxs: Seq<int>) -> Seq<Seq<char>>
    decreases idxs.len(),
{
    if idxs.len() == 0 {
        Seq::empty()
    } else {
        join_names(l, idxs.drop_last()) + join_name(l, idxs.last())
    }
}

pub open spec fn join_indices(l: Seq<char>) -> Seq<int> {
    occurrences(l, "inner join"@, 0) + occurrences(l, "left join"@, 0) + occurrences(l, "right join"@, 0)
        + occurrences(l, "full join"@, 0) + occurrences(l, "join"@, 0)
}

/// The name after a keyword that names one table (`update `, `insert into `):
/// its first word, or the whole trimmed reference when it has none.
pub open spec fn single_name(l: Seq<char>, kw: Seq<char>, ends: Seq<Seq<char>>) -> Seq<Seq<char>> {
    match find(l, kw) {
        None => Seq::empty(),
        Some(i) => {
            let us = l.skip(i + kw.len());
            let tr = trim(us.take(end_of(us, ends)));
            let tok = match first_token(tr) {
                Some(t) => t,
                None => tr,
            };
            seq![last_segment(tok)]
        },
    }
}

/// Candidate table names of a lower-cased statement, in the order found:
/// after `from`, after each join, after `update`, after `insert into`.
pub open spec fn table_candidates(l: Seq<char>) -> Seq<Seq<char>> {
    from_names(l) + join_names(l, join_indices(l)) + single_name(l, "update "@, seq![" set "@])
        + single_name(l, "insert into "@, seq![" values "@, " select "@, "("@])
}

fn matches_at_exec(s: &[char], p: &[char], i: usize) -> (r: bool)
    requires
        i <= s@.len(),
    ensures
        r == matches_at(s@, p@, i as int),
{
    if p.len() > s.len() - i {
        return false;
    }
    let mut k: usize = 0;
    while k < p.len()
        invariant
            s@.len() <= usize::MAX,
            i <= s@.len(),
            i + p@.len() <= s@.len(),
            k <= p@.len(),
            s@.subrange(i as int, i + k) == p@.take(k as int),
        decreases p@.len() - k,
    {
        if s[i + k] != p[k] {
            assert(s@.subrange(i as int, i + p@.len())[k as int] != p@[k as int]);
            return false;
        }
        assert(s@.subrange(i as int, i + k + 1) =~= s@.subrange(i as int, i + k).push(s@[i + k]));
        assert(p@.take(k + 1) =~= p@.take(k as int).push(p@[k as int]));
        k = k + 1;
    }
    assert(p@.take(p@.len() as int) =~= p@);
    true
}

fn find_from_exec(s: &[char], p: &[char], start: usize) -> (r: Option<usize>)
    ensures
        match r {
            Some(i) => find_from(s@, p@, start as int) == Some(i as int) && start <= i && i + p@.len() <= s@.len(),
            None => find_from(s@, p@, start as int) is None,
        },
{
    let mut i = start;
    while i < s.len() && p.len() <= s.len() - i
        invariant
            start <= i,
            find_from(s@, p@, start as int) == find_from(s@, p@, i as int),
        decreases s@.len() - i,
    {
        if matches_at_exec(s, p, i) {
            return Some(i);
        }
        i = i + 1;
    }
    None
}

fn end_exec(s: &[char], pats: &Vec<Vec<char>>) -> (r: usize)
    ensures
        r as int == end_of(s@, pats@.map_values(|v: Vec<char>| v@)),
        r <= s@.len(),
{
    let ghost ps = pats@.map_values(|v: Vec<char>| v@);
    assert(ps.skip(0) =~= ps);
    let mut k: usize = 0;
    while k < pats.len()
        invariant
            k <= pats@.len(),
            ps == pats@.map_values(|v: Vec<char>| v@),
            end_of(s@, ps) == end_of(s@, ps.skip(k as int)),
        decreases pats@.len() - k,
    {
        assert(ps.skip(k as int)[0] == pats@[k as int]@);
        assert(ps.skip(k as int).drop_first() =~= ps.skip(k + 1));
        match find_from_exec(s, pats[k].as_slice(), 0) {
            Some(i) => {
                assert(end_of(s@, ps.skip(k as int)) == i as int);
                return i;
            },
            None => {},
        }
        k = k + 1;
    }
    assert(ps.skip(k as int) =~= Seq::<Seq<char>>::empty());
    s.len()
}

fn pattern_list(a: &str, b: &str, c: &str, d: &str, e: &str, n: usize) -> (r: Vec<Vec<char>>)
    requires
        1 <= n <= 5,
    ensures
        r@.map_values(|v: Vec<char>| v@) == seq![a@, b@, c@, d@, e@].take(n as int),
{
    let mut r: Vec<Vec<char>> = Vec::new();
    r.push(chars_of(a));
    if n > 1 {
        r.push(chars_of(b));
    }
    if n > 2 {
        r.push(chars_of(c));
    }
    if n > 3 {
        r.push(chars_of(d));
    }
    if n > 4 {
        r.push(chars_of(e));
    }
    assert(r@.map_values(|v: Vec<char>| v@) =~= seq![a@, b@, c@, d@, e@].take(n as int));
    r
}

fn space_end_exec(s: &[char]) -> (r: usize)
    ensures
        r as int == space_end(s@),
        r <= s@.len(),
{
    let mut i: usize = 0;
    assert(s@.take(0) =~= Seq::<char>::empty());
    while i < s.len() && !is_space_char(s[i])
        invariant
            i <= s@.len(),
            space_end(s@.take(i as int)) == i,
        decreases s@.len() - i,
    {
        assert(s@.take(i + 1).drop_last() =~= s@.take(i as int));
        i = i + 1;
    }
    proof {
        lemma_space_end_prefix(s@, i as int);
    }
    i
}

proof fn lemma_space_end_prefix(s: Seq<char>, i: int)
    requires
        0 <= i <= s.len(),
        space_end(s.take(i)) == i,
        i < s.len() ==> is_space(s[i]),
    ensures
        space_end(s) == i,
    decreases s.len() - i,
{
    if i < s.len() {
        lemma_space_end_keep(s, i, s.len() as int);
        assert(s.take(s.len() as int) =~= s);
    } else {
        assert(s.take(i) =~= s);
    }
}

proof fn lemma_space_end_keep(s: Seq<char>, i: int, n: int)
    requires
        0 <= i < n <= s.len(),
        space_end(s.take(i)) == i,
        is_space(s[i]),
    ensures
        space_end(s.take(n)) == i,
    decreases n - i,
{
    assert(s.take(n).drop_last() =~= s.take(n - 1));
    if n - 1 > i {
        lemma_space_end_keep(s, i, n - 1);
    } else {
        assert(s.take(n).last() == s[i]);
    }
}

fn last_segment_exec(s: &[char]) -> (r: Vec<char>)
    ensures
        r@ == last_segment(s@),
{
    let mut i = s.len();
    assert(s@.subrange(s@.len() as int, s@.len() as int) =~= Seq::<char>::empty());
    assert(s@.take(s@.len() as int) =~= s@);
    assert(last_segment(s@) + Seq::<char>::empty() =~= last_segment(s@));
    while i > 0 && s[i - 1] != '.'
        invariant
            i <= s@.len(),
            last_segment(s@) == last_segment(s@.take(i as int)) + s@.subrange(i as int, s@.len() as int),
        decreases i,
    {
        assert(s@.take(i as int).drop_last() =~= s@.take(i - 1));
        assert(s@.subrange(i - 1, s@.len() as int) =~= seq![s@[i - 1]] + s@.subrange(i as int, s@.len() as int));
        assert(last_segment(s@.take(i as int)) == last_segment(s@.take(i - 1)).push(s@[i - 1]));
        assert(last_segment(s@.take(i - 1)).push(s@[i - 1]) + s@.subrange(i as int, s@.len() as int)
            =~= last_segment(s@.take(i - 1)) + s@.subrange(i - 1, s@.len() as int));
        i = i - 1;
    }
    assert(s@.take(s@.len() as int) =~= s@);
    assert(last_segment(s@.take(i as int)) =~= Seq::<char>::empty());
    copy_range(s, i, s.len())
}

fn ref_names_exec(r: &[char], out: &mut Vec<Vec<char>>)
    ensures
        final(out)@.map_values(|v: Vec<char>| v@) == old(out)@.map_values(|v: Vec<char>| v@) + ref_names(r@),
{
    let lo = skip_spaces_all(r);
    if lo == r.len() {
        assert(trim_start(r@).len() == 0);
        return;
    }
    let u = copy_range(r, lo, r.len());
    let e = space_end_exec(u.as_slice());
    let tok = copy_range(u.as_slice(), 0, e);
    assert(tok@ =~= u@.take(e as int));
    let name = last_segment_exec(tok.as_slice());
    let ghost before = out@.map_values(|v: Vec<char>| v@);
    out.push(name);
    assert(out@.map_values(|v: Vec<char>| v@) =~= before + ref_names(r@));
}

fn skip_spaces_all(r: &[char]) -> (lo: usize)
    ensures
        lo <= r@.len(),
        trim_start(r@) == r@.subrange(lo as int, r@.len() as int),
{
    assert(r@.subrange(0, r@.len() as int) =~= r@);
    skip_spaces(r, 0)
}

fn single_name_exec(l: &[char], kw: &str, ends: &Vec<Vec<char>>, out: &mut Vec<Vec<char>>)
    ensures
        final(out)@.map_values(|v: Vec<char>| v@) == old(out)@.map_values(|v: Vec<char>| v@) + single_name(
            l@,
            kw@,
            ends@.map_values(|v: Vec<char>| v@),
        ),
{
    let k = chars_of(kw);
    let n = l.len();
    match find_from_exec(l, k.as_slice(), 0) {
        None => {
            assert(old(out)@.map_values(|v: Vec<char>| v@) + Seq::<Seq<char>>::empty() =~= old(out)@.map_values(|v: Vec<char>| v@));
        },
        Some(i) => {
            let us = copy_range(l, i + k.len(), l.len());
            assert(us@ =~= l@.skip(i + k@.len()));
            let e = end_exec(us.as_slice(), ends);
            let head = copy_range(us.as_slice(), 0, e);
            assert(head@ =~= us@.take(e as int));
            let tr = trim_chars(head.as_slice());
            let lo = skip_spaces_all(tr.as_slice());
            let tok = if lo == tr.len() {
                tr
            } else {
                let u = copy_range(tr.as_slice(), lo, tr.len());
                let se = space_end_exec(u.as_slice());
                let t = copy_range(u.as_slice(), 0, se);
                assert(t@ =~= u@.take(se as int));
                t
            };
            let name = last_segment_exec(tok.as_slice());
            let ghost before = out@.map_values(|v: Vec<char>| v@);
            out.push(name);
            assert(out@.map_values(|v: Vec<char>| v@) =~= before + seq![name@]);
        },
    }
}

/// Candidate table names of a statement that is already lower-cased, in the
/// order found (see `table_candidates`), duplicates included.
pub fn table_candidates_exec(l: &[char]) -> (r: Vec<Vec<char>>)
    ensures
        r@.map_values(|v: Vec<char>| v@) == table_candidates(l@),
{
    let mut out: Vec<Vec<char>> = Vec::new();
    // After FROM.
    let from_kw = chars_of(" from ");
    let n = l.len();
    proof {
        reveal_strlit(" from ");
    }
    match find_from_exec(l, from_kw.as_slice(), 0) {
        None => {},
        Some(i) => {
            let fs = copy_range(l, i + 6, l.len());
            assert(fs@ =~= l@.skip(i + 6));
            let ends = pattern_list(" where ", " group by ", " having ", " order by ", " limit ", 5);
            assert(seq![" where "@, " group by "@, " having "@, " order by "@, " limit "@].take(5) =~= seq![" where "@, " group by "@, " having "@, " order by "@, " limit "@]);
            let e = end_exec(fs.as_slice(), &ends);
            let head = copy_range(fs.as_slice(), 0, e);
            assert(head@ =~= fs@.take(e as int));
            let clause = trim_chars(head.as_slice());
            let mut part: Vec<char> = Vec::new();
            let mut k: usize = 0;
            assert(clause@.take(0) =~= Seq::<char>::empty());
            while k < clause.len()
                invariant
                    k <= clause@.len(),
                    comma_parts(clause@.take(k as int)).len() > 0,
                    part@ == comma_parts(clause@.take(k as int)).last(),
                    out@.map_values(|v: Vec<char>| v@) == names_of_parts(comma_parts(clause@.take(k as int)).drop_last()),
                decreases clause@.len() - k,
            {
                let ghost ps = comma_parts(clause@.take(k as int));
                assert(clause@.take(k + 1).drop_last() =~= clause@.take(k as int));
                if clause[k] == ',' {
                    ref_names_exec(part.as_slice(), &mut out);
                    part = Vec::new();
                    assert(comma_parts(clause@.take(k + 1)) == ps.push(Seq::empty()));
                    assert(ps.push(Seq::empty()).drop_last() =~= ps);
                    assert(ps == ps.drop_last().push(ps.last()));
                } else {
                    part.push(clause[k]);
                    assert(comma_parts(clause@.take(k + 1)).drop_last() =~= ps.drop_last());
                }
                k = k + 1;
            }
            assert(clause@.take(clause@.len() as int) =~= clause@);
            ref_names_exec(part.as_slice(), &mut out);
            let ghost ps = comma_parts(clause@);
            assert(ps == ps.drop_last().push(ps.last()));
        },
    }
    assert(out@.map_values(|v: Vec<char>| v@) =~= from_names(l@));
    // After each join keyword.
    let kws = pattern_list("inner join", "left join", "right join", "full join", "join", 5);
    let ghost five = seq!["inner join"@, "left join"@, "right join"@, "full join"@, "join"@];
    assert(five.take(5) =~= five);
    let mut all: Vec<usize> = Vec::new();
    let mut q: usize = 0;
    while q < 5
        invariant
            q <= 5,
            kws@.len() == 5,
            kws@.map_values(|v: Vec<char>| v@) == five,
            five == seq!["inner join"@, "left join"@, "right join"@, "full join"@, "join"@],
            ints(all@) == occ_upto(l@, five, q as int),
            forall|j: int| 0 <= j < all@.len() ==> #[trigger] all@[j] < l@.len(),
        decreases 5 - q,
    {
        assert(kws@.map_values(|v: Vec<char>| v@)[q as int] == kws@[q as int]@);
        assert(kws@[q as int]@ == five[q as int]);
        proof {
            reveal_strlit("inner join");
            reveal_strlit("left join");
            reveal_strlit("right join");
            reveal_strlit("full join");
            reveal_strlit("join");
        }
        let found = occurrences_exec(l, kws[q].as_slice());
        let ghost before = all@;
        let mut j: usize = 0;
        while j < found.len()
            invariant
                j <= found@.len(),
                all@ == before + found@.take(j as int),
                forall|k: int| 0 <= k < found@.len() ==> #[trigger] found@[k] < l@.len(),
                forall|k: int| 0 <= k < before.len() ==> #[trigger] before[k] < l@.len(),
            decreases found@.len() - j,
        {
            all.push(found[j]);
            assert(found@.take(j + 1) =~= found@.take(j as int).push(found@[j as int]));
            assert(all@ =~= before + found@.take(j + 1));
            j = j + 1;
        }
        assert(found@.take(found@.len() as int) =~= found@);
        assert(ints(all@) =~= ints(before) + ints(found@));
        q = q + 1;
    }
    assert(occ_upto(l@, five, 5) =~= join_indices(l@)) by {
        reveal_with_fuel(occ_upto, 6);
    };
    let mut j: usize = 0;
    while j < all.len()
        invariant
            j <= all@.len(),
            forall|k: int| 0 <= k < all@.len() ==> #[trigger] all@[k] < l@.len(),
            out@.map_values(|v: Vec<char>| v@) == from_names(l@) + join_names(l@, ints(all@.take(j as int))),
        decreases all@.len() - j,
    {
        let ghost before = out@.map_values(|v: Vec<char>| v@);
        join_name_exec(l, all[j], &mut out);
        assert(ints(all@.take(j + 1)).drop_last() =~= ints(all@.take(j as int)));
        assert(ints(all@.take(j + 1)).last() == all@[j as int] as int);
        assert(out@.map_values(|v: Vec<char>| v@) =~= from_names(l@) + join_names(l@, ints(all@.take(j + 1))));
        j = j + 1;
    }
    assert(all@.take(all@.len() as int) =~= all@);
    // After UPDATE and INSERT INTO.
    let set_end = pattern_list(" set ", "", "", "", "", 1);
    single_name_exec(l, "update ", &set_end, &mut out);
    let insert_end = pattern_list(" values ", " select ", "(", "", "", 3);
    single_name_exec(l, "insert into ", &insert_end, &mut out);
    proof {
        assert(seq![" set "@, ""@, ""@, ""@, ""@].take(1) =~= seq![" set "@]);
        assert(seq![" values "@, " select "@, "("@, ""@, ""@].take(3) =~= seq![" values "@, " select "@, "("@]);
    }
    assert(out@.map_values(|v: Vec<char>| v@) =~= table_candidates(l@));
    out
}

pub open spec fn ints(v: Seq<usize>) -> Seq<int> {
    v.map_values(|x: usize| x as int)
}

/// The occurrences of the first `q` patterns, one pattern after the other.
pub open spec fn occ_upto(l: Seq<char>, pats: Seq<Seq<char>>, q: int) -> Seq<int>
    decreases q,
{
    if q <= 0 {
        Seq::empty()
    } else {
        occ_upto(l, pats, q - 1) + occurrences(l, pats[q - 1], 0)
    }
}

fn occurrences_exec(l: &[char], p: &[char]) -> (r: Vec<usize>)
    requires
        p@.len() > 0,
    ensures
        ints(r@) == occurrences(l@, p@, 0),
        forall|k: int| 0 <= k < r@.len() ==> #[trigger] r@[k] < l@.len(),
{
    let mut r: Vec<usize> = Vec::new();
    let mut start: usize = 0;
    while start < l.len()
        invariant
            p@.len() > 0,
            occurrences(l@, p@, 0) == ints(r@) + occurrences(l@, p@, start as int),
            forall|k: int| 0 <= k < r@.len() ==> #[trigger] r@[k] < l@.len(),
        decreases l@.len() - start,
    {
        match find_from_exec(l, p, start) {
            None => {
                assert(occurrences(l@, p@, start as int) =~= Seq::<int>::empty());
                assert(ints(r@) + Seq::<int>::empty() =~= ints(r@));
                return r;
            },
            Some(i) => {
                let ghost before = ints(r@);
                r.push(i);
                assert(ints(r@) =~= before.push(i as int));
                assert(before + (seq![i as int] + occurrences(l@, p@, i + p@.len())) =~= ints(r@) + occurrences(l@, p@, i + p@.len()));
                start = i + p.len();
            },
        }
    }
    assert(occurrences(l@, p@, start as int) =~= Seq::<int>::empty());
    assert(ints(r@) + Seq::<int>::empty() =~= ints(r@));
    r
}

fn join_name_exec(l: &[char], idx: usize, out: &mut Vec<Vec<char>>)
    requires
        idx < l@.len(),
    ensures
        final(out)@.map_values(|v: Vec<char>| v@) == old(out)@.map_values(|v: Vec<char>| v@) + join_name(l@, idx as int),
{
    let js = copy_range(l, idx, l.len());
    assert(js@ =~= l@.skip(idx as int));
    let sp = match find_char_exec(js.as_slice(), ' ') {
        Some(k) => k + 1,
        None => 1,
    };
    let jc = copy_range(js.as_slice(), sp, js.len());
    assert(jc@ =~= js@.skip(sp as int));
    let ends = pattern_list(" on ", " using ", "", "", "", 2);
    assert(seq![" on "@, " using "@, ""@, ""@, ""@].take(2) =~= seq![" on "@, " using "@]);
    let e = end_exec(jc.as_slice(), &ends);
    let head = copy_range(jc.as_slice(), 0, e);
    assert(head@ =~= jc@.take(e as int));
    let tr = trim_chars(head.as_slice());
    ref_names_exec(tr.as_slice(), out);
}

/// The table names a lower-cased statement refers to, each once, in the
/// order first found.
pub fn extract_table_names_lowercase(l: &str) -> (r: Vec<String>)
    ensures
        views(r@).no_duplicates(),
        views(r@).to_set() == table_candidates(l@).to_set(),
{
    let cs = chars_of(l);
    let cands = table_candidates_exec(cs.as_slice());
    let ghost cv = cands@.map_values(|v: Vec<char>| v@);
    let mut out: Vec<String> = Vec::new();
    let mut i: usize = 0;
    while i < cands.len()
        invariant
            i <= cands@.len(),
            cv == cands@.map_values(|v: Vec<char>| v@),
            views(out@).no_duplicates(),
            views(out@).to_set() == cv.take(i as int).to_set(),
        decreases cands@.len() - i,
    {
        let mut seen = false;
        let mut k: usize = 0;
        while k < out.len()
            invariant
                i < cands@.len(),
                k <= out@.len(),
                !seen ==> forall|m: int| 0 <= m < k ==> #[trigger] views(out@)[m] != cands@[i as int]@,
                seen ==> views(out@).contains(cands@[i as int]@),
            decreases out@.len() - k,
        {
            let oc = chars_of(out[k].as_str());
            if same_chars(oc.as_slice(), cands[i].as_slice()) {
                assert(views(out@)[k as int] == cands@[i as int]@);
                seen = true;
            }
            k = k + 1;
        }
        let ghost old_out = views(out@);
        let ghost x = cv[i as int];
        assert(cands@[i as int]@ == x);
        assert(cv.take(i + 1) =~= cv.take(i as int).push(x));
        assert(cv.take(i + 1).to_set() =~= cv.take(i as int).to_set().insert(x)) by {
            assert forall|y: Seq<char>| cv.take(i + 1).contains(y) <==> cv.take(i as int).to_set().insert(x).contains(y) by {
                if cv.take(i + 1).contains(y) {
                    let w = choose|w: int| 0 <= w < cv.take(i + 1).len() && #[trigger] cv.take(i + 1)[w] == y;
                    if w < i {
                        assert(cv.take(i as int)[w] == y);
                    }
                }
                if cv.take(i as int).contains(y) {
                    let w = choose|w: int| 0 <= w < cv.take(i as int).len() && #[trigger] cv.take(i as int)[w] == y;
                    assert(cv.take(i + 1)[w] == y);
                }
                if y == x {
                    assert(cv.take(i + 1)[i as int] == y);
                }
            };
        };
        if !seen {
            out.push(string_of(cands[i].as_slice()));
            assert(views(out@) =~= old_out.push(x));
            assert(views(out@).to_set() =~= old_out.to_set().insert(x)) by {
                assert forall|y: Seq<char>| old_out.push(x).contains(y) <==> old_out.to_set().insert(x).contains(y) by {
                    if old_out.push(x).contains(y) {
                        let w = choose|w: int| 0 <= w < old_out.push(x).len() && #[trigger] old_out.push(x)[w] == y;
                        if w < old_out.len() {
                            assert(old_out[w] == y);
                        }
                    }
                    if old_out.contains(y) {
                        let w = choose|w: int| 0 <= w < old_out.len() && #[trigger] old_out[w] == y;
                        assert(old_out.push(x)[w] == y);
                    }
                    if y == x {
                        assert(old_out.push(x)[old_out.len() as int] == y);
                    }
                };
            };
            assert(views(out@).no_duplicates()) by {
                assert forall|a: int, b: int| 0 <= a < views(out@).len() && 0 <= b < views(out@).len() && a != b
                    implies views(out@)[a] != views(out@)[b] by {
                    if a < old_out.len() && b < old_out.len() {
                        assert(views(out@)[a] == old_out[a]);
                        assert(views(out@)[b] == old_out[b]);
                    } else if a < old_out.len() {
                        assert(views(out@)[a] == old_out[a]);
                    } else {
                        assert(views(out@)[b] == old_out[b]);
                    }
                };
            };
        } else {
            assert(old_out.to_set().contains(x));
            assert(old_out.to_set() =~= old_out.to_set().insert(x));
        }
        i = i + 1;
    }
    assert(cv.take(cv.len() as int) =~= cv);
    out
}

/// The table names a statement refers to, found after `from` (each
/// comma-separated reference), after each join keyword, after `update` and
/// after `insert into`, with any schema prefix removed. The statement is
/// compared in lower case; each name comes once.
pub fn extract_table_names(sql: &str) -> (r: Vec<String>)
    ensures
        views(r@).no_duplicates(),
        views(r@).to_set() == table_candidates(lower_of(sql@)).to_set(),
{
    let lower = to_lower(sql);
    extract_table_names_lowercase(lower.as_str())
}

} // verus!
