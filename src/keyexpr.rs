//! Key expressions: `/`-separated chunks, where a chunk `*` stands for exactly
//! one chunk and a chunk `**` for any number of chunks, none included.
use vstd::prelude::*;

verus! {

/// The chunks of `s`, cut at every `/` (an empty string is one empty chunk).
pub open spec fn chunks_of(s: Seq<char>) -> Seq<Seq<char>>
    decreases s.len(),
{
    if s.len() == 0 {
        seq![Seq::empty()]
    } else {
        let prev = chunks_of(s.drop_last());
        if s.last() == '/' {
            prev.push(Seq::empty())
        } else {
            prev.update(prev.len() - 1, prev.last().push(s.last()))
        }
    }
}

pub open spec fn is_single_wild(c: Seq<char>) -> bool {
    c == seq!['*']
}

pub open spec fn is_multi_wild(c: Seq<char>) -> bool {
    c == seq!['*', '*']
}

/// A chunk is non-empty, and is either a wildcard or free of the reserved
/// characters `*`, `#`, `?` and `$`.
pub open spec fn valid_chunk(c: Seq<char>) -> bool {
    &&& c.len() > 0
    &&& (is_single_wild(c) || is_multi_wild(c) || plain_chunk(c))
}

/// No reserved character in `c`.
pub open spec fn plain_chunk(c: Seq<char>) -> bool {
    forall|i: int| 0 <= i < c.len() ==> !reserved_char(#[trigger] c[i])
}

pub open spec fn reserved_char(x: char) -> bool {
    x == '*' || x == '#' || x == '?' || x == '$'
}

/// A well-formed key expression: every chunk valid (so no empty chunk, no
/// leading or trailing `/`, and not the empty string).
pub open spec fn valid_key_expr(s: Seq<char>) -> bool {
    forall|i: int| 0 <= i < chunks_of(s).len() ==> valid_chunk(#[trigger] chunks_of(s)[i])
}

/// Whether the chunk list `p` (a pattern) covers the chunk list `k`.
pub open spec fn chunks_match(p: Seq<Seq<char>>, k: Seq<Seq<char>>) -> bool
    decreases p.len() + k.len(),
{
    if p.len() == 0 {
        k.len() == 0
    } else if is_multi_wild(p[0]) {
        chunks_match(p.drop_first(), k) || (k.len() > 0 && chunks_match(p, k.drop_first()))
    } else if k.len() == 0 {
        false
    } else if is_single_wild(p[0]) {
        chunks_match(p.drop_first(), k.drop_first())
    } else {
        p[0] == k[0] && chunks_match(p.drop_first(), k.drop_first())
    }
}

/// Whether the pattern `pattern` intersects the concrete key `key`.
pub open spec fn key_matches(pattern: Seq<char>, key: Seq<char>) -> bool {
    chunks_match(chunks_of(pattern), chunks_of(key))
}

/// The key expression `prefix/suffix`.
pub open spec fn joined(prefix: Seq<char>, suffix: Seq<char>) -> Seq<char> {
    prefix + seq!['/'] + suffix
}

pub open spec fn has_wildcard(s: Seq<char>) -> bool {
    exists|i: int| 0 <= i < s.len() && s[i] == '*'
}

pub open spec fn chunk_views(v: Seq<Vec<char>>) -> Seq<Seq<char>> {
    v.map_values(|c: Vec<char>| c@)
}

/// Cuts `s` into its chunks.
pub fn split_chunks(s: &String) -> (r: Vec<Vec<char>>)
    ensures
        chunk_views(r@) == chunks_of(s@),
{
    let n = s.as_str().unicode_len();
    let mut done: Vec<Vec<char>> = Vec::new();
    let mut cur: Vec<char> = Vec::new();
    let mut i: usize = 0;
    while i < n
        invariant
            n == s@.len(),
            i <= n,
            chunk_views(done@).push(cur@) == chunks_of(s@.subrange(0, i as int)),
        decreases n - i,
    {
        let c = s.as_str().get_char(i);
        proof {
            let t = s@.subrange(0, i as int + 1);
            assert(t.drop_last() =~= s@.subrange(0, i as int));
            assert(t.last() == c);
        }
        if c == '/' {
            let ghost before = chunk_views(done@);
            let ghost cv = cur@;
            done.push(cur);
            cur = Vec::new();
            proof {
                assert(chunk_views(done@) =~= before.push(cv));
            }
        } else {
            let ghost before = chunk_views(done@);
            let ghost old_cur = cur@;
            cur.push(c);
            proof {
                assert(before.push(old_cur).update(before.len() as int, old_cur.push(c))
                    =~= before.push(cur@));
                assert(chunk_views(done@).push(cur@) =~= before.push(cur@));
            }
        }
        i = i + 1;
    }
    let ghost before = chunk_views(done@);
    done.push(cur);
    proof {
        assert(s@.subrange(0, n as int) =~= s@);
        assert(chunk_views(done@) =~= before.push(cur@));
    }
    done
}

fn chunk_eq(a: &Vec<char>, b: &Vec<char>) -> (r: bool)
    ensures
        r == (a@ == b@),
{
    if a.len() != b.len() {
        return false;
    }
    let mut i: usize = 0;
    while i < a.len()
        invariant
            a@.len() == b@.len(),
            i <= a@.len(),
            forall|j: int| 0 <= j < i ==> a@[j] == b@[j],
        decreases a.len() - i,
    {
        if a[i] != b[i] {
            return false;
        }
        i = i + 1;
    }
    assert(a@ =~= b@);
    true
}

fn chunk_is_single_wild(c: &Vec<char>) -> (r: bool)
    ensures
        r == is_single_wild(c@),
{
    let r = c.len() == 1 && c[0] == '*';
    if r {
        assert(c@ =~= seq!['*']);
    }
    r
}

fn chunk_is_multi_wild(c: &Vec<char>) -> (r: bool)
    ensures
        r == is_multi_wild(c@),
{
    let r = c.len() == 2 && c[0] == '*' && c[1] == '*';
    if r {
        assert(c@ =~= seq!['*', '*']);
    }
    r
}

fn chunk_is_valid(c: &Vec<char>) -> (r: bool)
    ensures
        r == valid_chunk(c@),
{
    if c.len() == 0 {
        return false;
    }
    if chunk_is_single_wild(c) || chunk_is_multi_wild(c) {
        return true;
    }
    assert(!is_single_wild(c@) && !is_multi_wild(c@));
    let mut i: usize = 0;
    while i < c.len()
        invariant
            i <= c@.len(),
            c@.len() > 0,
            !is_single_wild(c@) && !is_multi_wild(c@),
            forall|j: int| 0 <= j < i ==> !reserved_char(#[trigger] c@[j]),
        decreases c.len() - i,
    {
        let x = c[i];
        if x == '*' || x == '#' || x == '?' || x == '$' {
            assert(c@[i as int] == x);
            assert(reserved_char(c@[i as int]));
            return false;
        }
        i = i + 1;
    }
    true
}

/// Whether `s` is a well-formed key expression.
pub fn is_valid_key_expr(s: &String) -> (r: bool)
    ensures
        r == valid_key_expr(s@),
{
    let cs = split_chunks(s);
    let mut i: usize = 0;
    while i < cs.len()
        invariant
            chunk_views(cs@) == chunks_of(s@),
            i <= cs@.len(),
            forall|j: int| 0 <= j < i ==> valid_chunk(#[trigger] chunks_of(s@)[j]),
        decreases cs.len() - i,
    {
        if !chunk_is_valid(&cs[i]) {
            assert(chunks_of(s@)[i as int] == cs@[i as int]@);
            return false;
        }
        assert(chunks_of(s@)[i as int] == cs@[i as int]@);
        i = i + 1;
    }
    true
}

fn match_from(p: &Vec<Vec<char>>, i: usize, k: &Vec<Vec<char>>, j: usize) -> (r: bool)
    requires
        i <= p@.len(),
        j <= k@.len(),
    ensures
        r == chunks_match(
            chunk_views(p@).subrange(i as int, p@.len() as int),
            chunk_views(k@).subrange(j as int, k@.len() as int),
        ),
    decreases p@.len() - i + k@.len() - j,
{
    let ghost ps = chunk_views(p@).subrange(i as int, p@.len() as int);
    let ghost ks = chunk_views(k@).subrange(j as int, k@.len() as int);
    if i == p.len() {
        return j == k.len();
    }
    assert(ps[0] == p@[i as int]@);
    assert(ps.drop_first() =~= chunk_views(p@).subrange(i + 1, p@.len() as int));
    if chunk_is_multi_wild(&p[i]) {
        if match_from(p, i + 1, k, j) {
            return true;
        }
        if j == k.len() {
            return false;
        }
        assert(ks.drop_first() =~= chunk_views(k@).subrange(j + 1, k@.len() as int));
        return match_from(p, i, k, j + 1);
    }
    if j == k.len() {
        return false;
    }
    assert(ks[0] == k@[j as int]@);
    assert(ks.drop_first() =~= chunk_views(k@).subrange(j + 1, k@.len() as int));
    if chunk_is_single_wild(&p[i]) {
        return match_from(p, i + 1, k, j + 1);
    }
    chunk_eq(&p[i], &k[j]) && match_from(p, i + 1, k, j + 1)
}

/// Whether the pattern `pattern` intersects the concrete key `key`.
pub fn key_expr_matches(pattern: &String, key: &String) -> (r: bool)
    ensures
        r == key_matches(pattern@, key@),
{
    let p = split_chunks(pattern);
    let k = split_chunks(key);
    assert(chunk_views(p@).subrange(0, p@.len() as int) =~= chunk_views(p@));
    assert(chunk_views(k@).subrange(0, k@.len() as int) =~= chunk_views(k@));
    match_from(&p, 0, &k, 0)
}

/// The key expression `prefix/suffix`.
pub fn join_key_expr(prefix: &String, suffix: &String) -> (r: String)
    ensures
        r@ == joined(prefix@, suffix@),
{
    let sep = "/";
    proof {
        reveal_strlit("/");
    }
    let r = prefix.clone().concat(sep).concat(suffix.as_str());
    assert(r@ =~= joined(prefix@, suffix@));
    r
}

/// Whether `s` holds a `*` anywhere.
pub fn contains_wildcard(s: &String) -> (r: bool)
    ensures
        r == has_wildcard(s@),
{
    let n = s.as_str().unicode_len();
    let mut i: usize = 0;
    while i < n
        invariant
            n == s@.len(),
            i <= n,
            forall|j: int| 0 <= j < i ==> s@[j] != '*',
        decreases n - i,
    {
        if s.as_str().get_char(i) == '*' {
            return true;
        }
        i = i + 1;
    }
    false
}

} // verus!
