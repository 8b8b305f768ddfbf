//! Character-level helpers shared by both grammars: trimming, quote
//! stripping, splitting into lines, words and comma-separated items.
use vstd::prelude::*;
use vstd::slice::{slice_subrange, slice_to_vec};

verus! {

/// Blank characters: spaces, tabs and line ends.
pub open spec fn is_blank(c: char) -> bool {
    c == ' ' || c == '\t' || c == '\r' || c == '\n'
}

pub open spec fn trim_start(s: Seq<char>) -> Seq<char>
    decreases s.len(),
{
    if s.len() > 0 && is_blank(s[0]) {
        trim_start(s.drop_first())
    } else {
        s
    }
}

pub open spec fn trim_end(s: Seq<char>) -> Seq<char>
    decreases s.len(),
{
    if s.len() > 0 && is_blank(s.last()) {
        trim_end(s.drop_last())
    } else {
        s
    }
}

/// `s` without its leading and trailing blanks.
pub open spec fn trim(s: Seq<char>) -> Seq<char> {
    trim_end(trim_start(s))
}

/// Whether `s` is wrapped in a pair of double quotes.
pub open spec fn is_quoted(s: Seq<char>) -> bool {
    s.len() >= 2 && s[0] == '"' && s.last() == '"'
}

/// Trimmed text with one pair of surrounding double quotes removed.
pub open spec fn normalize(s: Seq<char>) -> Seq<char> {
    let t = trim(s);
    if is_quoted(t) {
        t.subrange(1, t.len() - 1)
    } else {
        t
    }
}

/// Pieces of `s` between occurrences of `sep`; always at least one piece.
pub open spec fn split(s: Seq<char>, sep: char) -> Seq<Seq<char>>
    decreases s.len(),
{
    if s.len() == 0 {
        seq![Seq::empty()]
    } else {
        let p = split(s.drop_last(), sep);
        if s.last() == sep {
            p.push(Seq::empty())
        } else {
            p.update(p.len() - 1, p.last().push(s.last()))
        }
    }
}

/// Words finished so far and the word being read, left to right.
pub open spec fn words_acc(s: Seq<char>) -> (Seq<Seq<char>>, Seq<char>)
    decreases s.len(),
{
    if s.len() == 0 {
        (Seq::empty(), Seq::empty())
    } else {
        let (done, cur) = words_acc(s.drop_last());
        if is_blank(s.last()) {
            if cur.len() > 0 {
                (done.push(cur), Seq::empty())
            } else {
                (done, Seq::empty())
            }
        } else {
            (done, cur.push(s.last()))
        }
    }
}

/// The maximal runs of non-blank characters of `s`, in order.
pub open spec fn words(s: Seq<char>) -> Seq<Seq<char>> {
    let (done, cur) = words_acc(s);
    if cur.len() > 0 {
        done.push(cur)
    } else {
        done
    }
}

/// Trimmed pieces, leaving out the empty ones.
pub open spec fn non_empty_trimmed(ps: Seq<Seq<char>>) -> Seq<Seq<char>>
    decreases ps.len(),
{
    if ps.len() == 0 {
        Seq::empty()
    } else {
        let rest = non_empty_trimmed(ps.drop_last());
        let t = trim(ps.last());
        if t.len() > 0 {
            rest.push(t)
        } else {
            rest
        }
    }
}

/// The non-empty trimmed items of a comma-separated list.
pub open spec fn list_items(s: Seq<char>) -> Seq<Seq<char>> {
    non_empty_trimmed(split(s, ','))
}

/// Index of the first occurrence of `c` in `s`.
pub open spec fn find_char(s: Seq<char>, c: char) -> Option<int>
    decreases s.len(),
{
    if s.len() == 0 {
        None
    } else {
        match find_char(s.drop_last(), c) {
            Some(i) => Some(i),
            None => if s.last() == c {
                Some(s.len() - 1)
            } else {
                None
            },
        }
    }
}

pub proof fn lemma_find_char(s: Seq<char>, c: char)
    ensures
        match find_char(s, c) {
            Some(i) => 0 <= i < s.len() && s[i] == c && forall|j: int| 0 <= j < i ==> s[j] != c,
            None => forall|j: int| 0 <= j < s.len() ==> s[j] != c,
        },
    decreases s.len(),
{
    if s.len() > 0 {
        lemma_find_char(s.drop_last(), c);
        assert(forall|j: int| 0 <= j < s.len() - 1 ==> s.drop_last()[j] == s[j]);
    }
}

/// What pushing a character vector does to the deep view.
pub proof fn lemma_deep_push(before: Vec<Vec<char>>, after: Vec<Vec<char>>, x: Vec<char>)
    requires
        after@ == before@.push(x),
    ensures
        after.deep_view() == before.deep_view().push(x@),
{
    assert forall|i: int| 0 <= i < after@.len() implies #[trigger] after@[i].deep_view() == after@[i]@ by {
        assert(after@[i].deep_view() =~= after@[i]@);
    }
    assert forall|i: int| 0 <= i < before@.len() implies #[trigger] before@[i].deep_view() == before@[i]@ by {
        assert(before@[i].deep_view() =~= before@[i]@);
    }
    assert(x.deep_view() =~= x@);
    assert(after.deep_view() =~= before.deep_view().push(x@));
}

/// An element of the deep view is the view of the element.
pub proof fn lemma_deep_index(v: Vec<Vec<char>>, i: int)
    requires
        0 <= i < v@.len(),
    ensures
        v.deep_view()[i] == v@[i]@,
{
    assert(v@[i].deep_view() =~= v@[i]@);
}

/// The characters of the text, in order.
pub fn chars_of(s: &str) -> (r: Vec<char>)
    ensures
        r@ == s@,
{
    let mut out: Vec<char> = Vec::new();
    for c in it: s.chars()
        invariant
            out@ == it.seq().subrange(0, it.index() as int),
    {
        out.push(c);
    }
    out
}

/// Relies on `String::push`: appends one character.
#[verifier::external_body]
fn push_char(s: &mut String, c: char)
    ensures
        final(s)@ == old(s)@.push(c),
{
    s.push(c)
}

/// A `String` holding the given characters.
pub fn string_of(v: &[char]) -> (r: String)
    ensures
        r@ == v@,
{
    let mut r = String::new();
    let mut i: usize = 0;
    while i < v.len()
        invariant
            i <= v@.len(),
            r@ == v@.subrange(0, i as int),
        decreases v@.len() - i,
    {
        push_char(&mut r, v[i]);
        i = i + 1;
        assert(r@ =~= v@.subrange(0, i as int));
    }
    assert(r@ =~= v@);
    r
}

/// The characters `from..to` of `v`.
pub fn chars_in(v: &[char], from: usize, to: usize) -> (r: Vec<char>)
    requires
        from <= to <= v@.len(),
    ensures
        r@ == v@.subrange(from as int, to as int),
{
    slice_to_vec(slice_subrange(v, from, to))
}

pub fn is_blank_char(c: char) -> (r: bool)
    ensures
        r == is_blank(c),
{
    c == ' ' || c == '\t' || c == '\r' || c == '\n'
}

proof fn lemma_trim_start_skip(s: Seq<char>, i: int)
    requires
        0 <= i < s.len(),
        is_blank(s[i]),
        trim_start(s.subrange(i, s.len() as int)) == trim_start(s),
    ensures
        trim_start(s.subrange(i + 1, s.len() as int)) == trim_start(s),
{
    let t = s.subrange(i, s.len() as int);
    assert(t.drop_first() =~= s.subrange(i + 1, s.len() as int));
}

proof fn lemma_trim_end_skip(s: Seq<char>, j: int)
    requires
        0 < j <= s.len(),
        is_blank(s[j - 1]),
        trim_end(s.subrange(0, j)) == trim_end(s),
    ensures
        trim_end(s.subrange(0, j - 1)) == trim_end(s),
{
    let t = s.subrange(0, j);
    assert(t.drop_last() =~= s.subrange(0, j - 1));
}

/// Bounds `(a, b)` such that `v[a..b]` is `v` trimmed.
pub fn trim_bounds(v: &[char]) -> (r: (usize, usize))
    ensures
        r.0 <= r.1 <= v@.len(),
        v@.subrange(r.0 as int, r.1 as int) == trim(v@),
{
    let mut a: usize = 0;
    assert(v@.subrange(0, v@.len() as int) =~= v@);
    while a < v.len() && is_blank_char(v[a])
        invariant
            a <= v@.len(),
            trim_start(v@.subrange(a as int, v@.len() as int)) == trim_start(v@),
        decreases v@.len() - a,
    {
        proof {
            lemma_trim_start_skip(v@, a as int);
        }
        a = a + 1;
    }
    let ghost t = v@.subrange(a as int, v@.len() as int);
    assert(trim_start(t) == t);
    let mut b: usize = v.len();
    assert(t.subrange(0, t.len() as int) =~= t);
    while b > a && is_blank_char(v[b - 1])
        invariant
            a <= b <= v@.len(),
            t == v@.subrange(a as int, v@.len() as int),
            trim_end(t.subrange(0, b - a)) == trim_end(t),
        decreases b,
    {
        proof {
            lemma_trim_end_skip(t, b - a);
            assert(t.subrange(0, b - a - 1) =~= t.subrange(0, (b - 1 - a) as int));
        }
        b = b - 1;
    }
    let ghost u = t.subrange(0, b - a);
    assert(u =~= v@.subrange(a as int, b as int));
    assert(trim_end(u) == u);
    (a, b)
}

/// `v` without leading and trailing blanks.
pub fn trimmed(v: &[char]) -> (r: Vec<char>)
    ensures
        r@ == trim(v@),
        r@.len() <= v@.len(),
{
    let (a, b) = trim_bounds(v);
    chars_in(v, a, b)
}

/// `v` trimmed, with one pair of surrounding double quotes removed.
pub fn normalized(v: &[char]) -> (r: Vec<char>)
    ensures
        r@ == normalize(v@),
{
    let t = trimmed(v);
    let n = t.len();
    if n >= 2 && t[0] == '"' && t[n - 1] == '"' {
        chars_in(&t, 1, n - 1)
    } else {
        t
    }
}

/// Trims spaces and one pair of surrounding double quotes from a string.
pub fn normalize_parsed(source: &str) -> (r: String)
    ensures
        r@ == normalize(source@),
{
    let v = chars_of(source);
    let n = normalized(&v);
    string_of(&n)
}

/// Index of the first `c` in `v`.
pub fn find(v: &[char], c: char) -> (r: Option<usize>)
    ensures
        match r {
            Some(i) => find_char(v@, c) == Some(i as int),
            None => find_char(v@, c) is None,
        },
{
    let mut i: usize = 0;
    while i < v.len()
        invariant
            i <= v@.len(),
            find_char(v@.subrange(0, i as int), c) is None,
        decreases v@.len() - i,
    {
        let ghost p = v@.subrange(0, i as int + 1);
        assert(p.drop_last() =~= v@.subrange(0, i as int));
        if v[i] == c {
            proof {
                lemma_find_prefix(v@, i as int + 1, c);
            }
            return Some(i);
        }
        i = i + 1;
    }
    assert(v@.subrange(0, v@.len() as int) =~= v@);
    None
}

/// A first occurrence inside a prefix is the first occurrence overall.
proof fn lemma_find_prefix(s: Seq<char>, k: int, c: char)
    requires
        0 <= k <= s.len(),
        find_char(s.subrange(0, k), c) is Some,
    ensures
        find_char(s, c) == find_char(s.subrange(0, k), c),
    decreases s.len() - k,
{
    if k < s.len() {
        let p = s.subrange(0, k + 1);
        assert(p.drop_last() =~= s.subrange(0, k));
        lemma_find_prefix(s, k + 1, c);
    } else {
        assert(s.subrange(0, k) =~= s);
    }
}

/// The pieces of `v` between occurrences of `sep`.
pub fn split_on(v: &[char], sep: char) -> (r: Vec<Vec<char>>)
    ensures
        r.deep_view() == split(v@, sep),
{
    let mut done: Vec<Vec<char>> = Vec::new();
    let mut cur: Vec<char> = Vec::new();
    let mut i: usize = 0;
    assert(v@.subrange(0, 0) =~= Seq::<char>::empty());
    assert(done.deep_view().push(cur@) =~= split(Seq::<char>::empty(), sep));
    while i < v.len()
        invariant
            i <= v@.len(),
            done.deep_view().push(cur@) == split(v@.subrange(0, i as int), sep),
        decreases v@.len() - i,
    {
        let ghost pre = v@.subrange(0, i as int + 1);
        assert(pre.drop_last() =~= v@.subrange(0, i as int));
        let ghost old_done = done.deep_view();
        let ghost old_cur = cur@;
        let c = v[i];
        if c == sep {
            let piece = cur;
            cur = Vec::new();
            let ghost before = done;
            done.push(piece);
            proof {
                lemma_deep_push(before, done, piece);
            }
            assert(done.deep_view().push(cur@) =~= old_done.push(old_cur).push(Seq::empty()));
        } else {
            cur.push(c);
            assert(done.deep_view() =~= old_done);
            assert(done.deep_view().push(cur@) =~= old_done.push(old_cur).update(
                old_done.len() as int,
                old_cur.push(c),
            ));
        }
        i = i + 1;
    }
    assert(v@.subrange(0, v@.len() as int) =~= v@);
    let ghost before = done;
    let ghost last = cur;
    done.push(cur);
    proof {
        lemma_deep_push(before, done, last);
    }
    done
}

/// The words of `v`: maximal runs of non-blank characters.
pub fn words_of(v: &[char]) -> (r: Vec<Vec<char>>)
    ensures
        r.deep_view() == words(v@),
{
    let mut done: Vec<Vec<char>> = Vec::new();
    let mut cur: Vec<char> = Vec::new();
    let mut i: usize = 0;
    assert(v@.subrange(0, 0) =~= Seq::<char>::empty());
    assert(done.deep_view() =~= Seq::<Seq<char>>::empty());
    while i < v.len()
        invariant
            i <= v@.len(),
            (done.deep_view(), cur@) == words_acc(v@.subrange(0, i as int)),
        decreases v@.len() - i,
    {
        let ghost pre = v@.subrange(0, i as int + 1);
        assert(pre.drop_last() =~= v@.subrange(0, i as int));
        let ghost old_done = done.deep_view();
        let ghost old_cur = cur@;
        let c = v[i];
        if is_blank_char(c) {
            if cur.len() > 0 {
                let piece = cur;
                cur = Vec::new();
                let ghost before = done;
                done.push(piece);
                proof {
                    lemma_deep_push(before, done, piece);
                }
            }
            assert(cur@ =~= Seq::<char>::empty());
        } else {
            cur.push(c);
            assert(done.deep_view() =~= old_done);
        }
        i = i + 1;
    }
    assert(v@.subrange(0, v@.len() as int) =~= v@);
    if cur.len() > 0 {
        let ghost before = done;
        let ghost last = cur;
        done.push(cur);
        proof {
            lemma_deep_push(before, done, last);
        }
    }
    done
}

/// The non-empty trimmed items of the comma-separated list `v`.
pub fn list_items_of(v: &[char]) -> (r: Vec<Vec<char>>)
    ensures
        r.deep_view() == list_items(v@),
{
    let pieces = split_on(v, ',');
    let ghost ps = pieces.deep_view();
    let mut out: Vec<Vec<char>> = Vec::new();
    let mut i: usize = 0;
    assert(ps.subrange(0, 0) =~= Seq::<Seq<char>>::empty());
    assert(out.deep_view() =~= Seq::<Seq<char>>::empty());
    while i < pieces.len()
        invariant
            i <= ps.len(),
            ps == pieces.deep_view(),
            out.deep_view() == non_empty_trimmed(ps.subrange(0, i as int)),
        decreases ps.len() - i,
    {
        let ghost pre = ps.subrange(0, i as int + 1);
        assert(pre.drop_last() =~= ps.subrange(0, i as int));
        let ghost old_out = out.deep_view();
        assert(pieces@[i as int].deep_view() =~= pieces@[i as int]@);
        let t = trimmed(pieces[i].as_slice());
        if t.len() > 0 {
            let ghost before = out;
            let ghost item = t;
            out.push(t);
            proof {
                lemma_deep_push(before, out, item);
            }
        }
        i = i + 1;
    }
    assert(ps.subrange(0, ps.len() as int) =~= ps);
    out
}

/// Whether `v` holds exactly the characters of `s`.
pub fn chars_eq(v: &[char], s: &str) -> (r: bool)
    ensures
        r == (v@ == s@),
{
    let w = chars_of(s);
    if v.len() != w.len() {
        return false;
    }
    let mut i: usize = 0;
    while i < v.len()
        invariant
            i <= v@.len(),
            v@.len() == w@.len(),
            w@ == s@,
            v@.subrange(0, i as int) == w@.subrange(0, i as int),
        decreases v@.len() - i,
    {
        if v[i] != w[i] {
            assert(v@[i as int] != w@[i as int]);
            return false;
        }
        i = i + 1;
        assert(v@.subrange(0, i as int) =~= w@.subrange(0, i as int));
    }
    assert(v@ =~= v@.subrange(0, i as int));
    assert(w@ =~= w@.subrange(0, i as int));
    true
}

} // verus!
