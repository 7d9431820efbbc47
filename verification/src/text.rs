//! Character-level text primitives: whitespace, scanning, trimming,
//! splitting and joining, substring search.
use vstd::prelude::*;
use vstd::string::*;

verus! {

/// Unicode `White_Space`, the property that `char::is_whitespace` tests.
pub open spec fn is_ws(c: char) -> bool {
    let u = c as u32;
    ||| 0x09 <= u <= 0x0d
    ||| u == 0x20
    ||| u == 0x85
    ||| u == 0xa0
    ||| u == 0x1680
    ||| 0x2000 <= u <= 0x200a
    ||| u == 0x2028
    ||| u == 0x2029
    ||| u == 0x202f
    ||| u == 0x205f
    ||| u == 0x3000
}

/// Whether `c` is Unicode whitespace.
pub fn is_whitespace(c: char) -> (r: bool)
    ensures
        r == is_ws(c),
{
    let u = c as u32;
    (0x09 <= u && u <= 0x0d) || u == 0x20 || u == 0x85 || u == 0xa0 || u == 0x1680 || (0x2000
        <= u && u <= 0x200a) || u == 0x2028 || u == 0x2029 || u == 0x202f || u == 0x205f || u
        == 0x3000
}

/// The first index at or after `i` whose character is whitespace exactly when `ws`
/// is false; the length of `s` when there is none.
pub open spec fn scan(s: Seq<char>, i: int, ws: bool) -> int
    decreases s.len() - i,
{
    if 0 <= i < s.len() && is_ws(s[i]) == ws {
        scan(s, i + 1, ws)
    } else {
        i
    }
}

/// The first index at or after `i` that holds `c`; the length of `s` when there is none.
pub open spec fn index_of(s: Seq<char>, c: char, i: int) -> int
    decreases s.len() - i,
{
    if 0 <= i < s.len() && s[i] != c {
        index_of(s, c, i + 1)
    } else {
        i
    }
}

/// Going down from `j`, the first index whose predecessor is not whitespace.
pub open spec fn scan_back(s: Seq<char>, j: int) -> int
    decreases j,
{
    if 0 < j <= s.len() && is_ws(s[j - 1]) {
        scan_back(s, j - 1)
    } else {
        j
    }
}

/// `s` without its leading whitespace.
pub open spec fn trim_start_spec(s: Seq<char>) -> Seq<char> {
    s.skip(scan(s, 0, true))
}

/// `s` without its trailing whitespace.
pub open spec fn trim_end_spec(s: Seq<char>) -> Seq<char> {
    s.take(scan_back(s, s.len() as int))
}

/// `s` without leading and trailing whitespace.
pub open spec fn trim_spec(s: Seq<char>) -> Seq<char> {
    trim_end_spec(trim_start_spec(s))
}

/// Whether `needle` occurs in `hay` as a contiguous run.
pub open spec fn contains_seq(hay: Seq<char>, needle: Seq<char>) -> bool {
    exists|i: int| 0 <= i <= hay.len() - needle.len() && #[trigger] hay.subrange(i, i + needle.len()) == needle
}

/// `s` cut at every `sep`, as `str::split` with a `char` pattern cuts it.
pub open spec fn split_spec(s: Seq<char>, sep: char) -> Seq<Seq<char>>
    decreases s.len(),
{
    if s.len() == 0 {
        seq![Seq::<char>::empty()]
    } else {
        let p = split_spec(s.drop_last(), sep);
        if s.last() == sep {
            p.push(Seq::<char>::empty())
        } else {
            p.update(p.len() - 1, p.last().push(s.last()))
        }
    }
}

/// The parts joined with `sep` between each two of them.
pub open spec fn join_spec(parts: Seq<Seq<char>>, sep: char) -> Seq<char>
    decreases parts.len(),
{
    if parts.len() == 0 {
        Seq::<char>::empty()
    } else if parts.len() == 1 {
        parts[0]
    } else {
        join_spec(parts.drop_last(), sep) + seq![sep] + parts.last()
    }
}

pub proof fn lemma_scan(s: Seq<char>, i: int, ws: bool)
    requires
        0 <= i <= s.len(),
    ensures
        i <= scan(s, i, ws) <= s.len(),
        forall|j: int| i <= j < scan(s, i, ws) ==> is_ws(#[trigger] s[j]) == ws,
        scan(s, i, ws) < s.len() ==> is_ws(s[scan(s, i, ws)]) != ws,
    decreases s.len() - i,
{
    if i < s.len() && is_ws(s[i]) == ws {
        lemma_scan(s, i + 1, ws);
    }
}

pub proof fn lemma_index_of(s: Seq<char>, c: char, i: int)
    requires
        0 <= i <= s.len(),
    ensures
        i <= index_of(s, c, i) <= s.len(),
        forall|j: int| i <= j < index_of(s, c, i) ==> #[trigger] s[j] != c,
        index_of(s, c, i) < s.len() ==> s[index_of(s, c, i)] == c,
    decreases s.len() - i,
{
    if i < s.len() && s[i] != c {
        lemma_index_of(s, c, i + 1);
    }
}

pub proof fn lemma_scan_back(s: Seq<char>, j: int)
    requires
        0 <= j <= s.len(),
    ensures
        0 <= scan_back(s, j) <= j,
        forall|k: int| scan_back(s, j) <= k < j ==> is_ws(#[trigger] s[k]),
        scan_back(s, j) > 0 ==> !is_ws(s[scan_back(s, j) - 1]),
    decreases j,
{
    if 0 < j && is_ws(s[j - 1]) {
        lemma_scan_back(s, j - 1);
    }
}

/// The characters of `s`, in order.
pub fn chars_of(s: &str) -> (v: Vec<char>)
    ensures
        v@ == s@,
{
    let mut v: Vec<char> = Vec::new();
    for c in it: s.chars()
        invariant
            v@ == it.seq().take(it.index() as int),
            it.seq() == s@,
    {
        v.push(c);
    }
    v
}

/// Appends one character to a string (`String::push`).
#[verifier::external_body]
pub(crate) fn push_char(s: &mut String, c: char)
    ensures
        final(s)@ == old(s)@.push(c),
{
    s.push(c);
}

/// A string of the characters `v[from..to]`.
pub fn string_of(v: &Vec<char>, from: usize, to: usize) -> (r: String)
    requires
        from <= to <= v.len(),
    ensures
        r@ == v@.subrange(from as int, to as int),
{
    let mut r = String::new();
    let mut k = from;
    while k < to
        invariant
            from <= k <= to <= v.len(),
            r@ == v@.subrange(from as int, k as int),
        decreases to - k,
    {
        push_char(&mut r, v[k]);
        k += 1;
        assert(r@ =~= v@.subrange(from as int, k as int));
    }
    r
}

/// `scan` on a vector of characters.
pub fn scan_chars(v: &Vec<char>, i: usize, ws: bool) -> (r: usize)
    requires
        i <= v.len(),
    ensures
        r == scan(v@, i as int, ws),
        i <= r <= v.len(),
{
    proof {
        lemma_scan(v@, i as int, ws);
    }
    let mut j = i;
    while j < v.len() && is_whitespace(v[j]) == ws
        invariant
            i <= j <= v.len(),
            scan(v@, j as int, ws) == scan(v@, i as int, ws),
        decreases v.len() - j,
    {
        j += 1;
    }
    j
}

/// `index_of` on a vector of characters.
pub fn index_of_char(v: &Vec<char>, c: char, i: usize) -> (r: usize)
    requires
        i <= v.len(),
    ensures
        r == index_of(v@, c, i as int),
        i <= r <= v.len(),
{
    proof {
        lemma_index_of(v@, c, i as int);
    }
    let mut j = i;
    while j < v.len() && v[j] != c
        invariant
            i <= j <= v.len(),
            index_of(v@, c, j as int) == index_of(v@, c, i as int),
        decreases v.len() - j,
    {
        j += 1;
    }
    j
}

/// `s` without its leading whitespace (`str::trim_start`).
pub fn trim_start(s: &str) -> (r: &str)
    ensures
        r@ == trim_start_spec(s@),
{
    let v = chars_of(s);
    let a = scan_chars(&v, 0, true);
    s.substring_char(a, v.len())
}

/// `s` without its trailing whitespace (`str::trim_end`).
pub fn trim_end(s: &str) -> (r: &str)
    ensures
        r@ == trim_end_spec(s@),
{
    let v = chars_of(s);
    let mut j = v.len();
    while j > 0 && is_whitespace(v[j - 1])
        invariant
            j <= v.len(),
            scan_back(v@, j as int) == scan_back(v@, v.len() as int),
        decreases j,
    {
        j -= 1;
    }
    s.substring_char(0, j)
}

/// `s` without leading and trailing whitespace (`str::trim`).
pub fn trim(s: &str) -> (r: &str)
    ensures
        r@ == trim_spec(s@),
{
    trim_end(trim_start(s))
}

/// Whether two strings hold the same characters.
pub fn str_eq(a: &str, b: &str) -> (r: bool)
    ensures
        r == (a@ == b@),
{
    let va = chars_of(a);
    let vb = chars_of(b);
    chars_eq(&va, &vb)
}

/// Whether two character vectors are equal.
pub fn chars_eq(va: &Vec<char>, vb: &Vec<char>) -> (r: bool)
    ensures
        r == (va@ == vb@),
{
    if va.len() != vb.len() {
        return false;
    }
    let mut i: usize = 0;
    while i < va.len()
        invariant
            va.len() == vb.len(),
            i <= va.len(),
            forall|k: int| 0 <= k < i ==> va@[k] == vb@[k],
        decreases va.len() - i,
    {
        if va[i] != vb[i] {
            return false;
        }
        i += 1;
    }
    assert(va@ =~= vb@);
    true
}

/// Whether `needle` occurs in `hay`.
pub fn contains_chars(hay: &Vec<char>, needle: &Vec<char>) -> (r: bool)
    ensures
        r == contains_seq(hay@, needle@),
{
    if needle.len() > hay.len() {
        return false;
    }
    let last = hay.len() - needle.len();
    let mut i: usize = 0;
    while i <= last
        invariant
            last == hay.len() - needle.len(),
            i <= last + 1,
            forall|k: int|
                0 <= k < i ==> #[trigger] hay@.subrange(k, k + needle@.len()) != needle@,
        decreases last + 1 - i,
    {
        let mut j: usize = 0;
        let mut same = true;
        while j < needle.len()
            invariant
                last == hay.len() - needle.len(),
                i <= last,
                j <= needle.len(),
                same == (forall|k: int| 0 <= k < j ==> hay@[i + k] == needle@[k]),
            decreases needle.len() - j,
        {
            if hay[i + j] != needle[j] {
                same = false;
            }
            j += 1;
        }
        if same {
            assert(hay@.subrange(i as int, i + needle@.len()) =~= needle@);
            return true;
        }
        assert(hay@.subrange(i as int, i + needle@.len()) != needle@) by {
            let k = choose|k: int| 0 <= k < needle.len() && hay@[i + k] != needle@[k];
            assert(hay@.subrange(i as int, i + needle@.len())[k] == hay@[i + k]);
        }
        i += 1;
    }
    assert(!contains_seq(hay@, needle@));
    false
}

/// The parts of `v` between the occurrences of `sep` (`str::split` with a `char`).
pub fn split_chars(v: &Vec<char>, sep: char) -> (parts: Vec<Vec<char>>)
    ensures
        parts@.len() == split_spec(v@, sep).len(),
        forall|k: int| 0 <= k < parts@.len() ==> #[trigger] parts@[k]@ == split_spec(v@, sep)[k],
{
    let mut parts: Vec<Vec<char>> = Vec::new();
    let mut cur: Vec<char> = Vec::new();
    let mut i: usize = 0;
    while i < v.len()
        invariant
            i <= v.len(),
            split_spec(v@.take(i as int), sep).len() == parts@.len() + 1,
            forall|k: int|
                0 <= k < parts@.len() ==> #[trigger] parts@[k]@ == split_spec(
                    v@.take(i as int),
                    sep,
                )[k],
            cur@ == split_spec(v@.take(i as int), sep).last(),
        decreases v.len() - i,
    {
        let c = v[i];
        proof {
            assert(v@.take(i + 1).drop_last() =~= v@.take(i as int));
            assert(v@.take(i + 1).last() == c);
        }
        if c == sep {
            let done = cur;
            parts.push(done);
            cur = Vec::new();
        } else {
            cur.push(c);
        }
        i += 1;
    }
    assert(v@.take(v.len() as int) =~= v@);
    parts.push(cur);
    parts
}

pub proof fn lemma_split_nonempty(s: Seq<char>, sep: char)
    ensures
        split_spec(s, sep).len() >= 1,
    decreases s.len(),
{
    if s.len() > 0 {
        lemma_split_nonempty(s.drop_last(), sep);
    }
}

/// Every part that `split_spec` gives is free of the separator.
pub proof fn lemma_split_parts_free(s: Seq<char>, sep: char)
    ensures
        forall|k: int, j: int|
            0 <= k < split_spec(s, sep).len() && 0 <= j < split_spec(s, sep)[k].len()
                ==> #[trigger] split_spec(s, sep)[k][j] != sep,
    decreases s.len(),
{
    lemma_split_nonempty(s, sep);
    if s.len() > 0 {
        lemma_split_parts_free(s.drop_last(), sep);
        lemma_split_nonempty(s.drop_last(), sep);
        let p = split_spec(s.drop_last(), sep);
        let q = split_spec(s, sep);
        assert forall|k: int, j: int| 0 <= k < q.len() && 0 <= j < q[k].len() implies #[trigger] q[k][j]
            != sep by {
            if s.last() == sep {
                if k < p.len() {
                    assert(q[k] == p[k]);
                }
            } else {
                if k < p.len() - 1 {
                    assert(q[k] == p[k]);
                } else {
                    assert(q[k] == p.last().push(s.last()));
                    if j < p.last().len() {
                        assert(q[k][j] == p[k][j]);
                    }
                }
            }
        }
    }
}

/// Joining the parts of a split gives back the text.
pub proof fn lemma_join_split(s: Seq<char>, sep: char)
    ensures
        join_spec(split_spec(s, sep), sep) == s,
    decreases s.len(),
{
    if s.len() > 0 {
        lemma_join_split(s.drop_last(), sep);
        lemma_split_nonempty(s.drop_last(), sep);
        let p = split_spec(s.drop_last(), sep);
        let q = split_spec(s, sep);
        if s.last() == sep {
            assert(q.drop_last() =~= p);
            assert(join_spec(q, sep) =~= s);
        } else {
            if p.len() == 1 {
                assert(join_spec(q, sep) =~= s);
            } else {
                assert(q.drop_last() =~= p.drop_last());
                assert(q.last() == p.last().push(s.last()));
                assert(join_spec(p, sep) == join_spec(p.drop_last(), sep) + seq![sep] + p.last());
                assert(join_spec(q, sep) == join_spec(q.drop_last(), sep) + seq![sep] + q.last());
                assert(join_spec(q, sep) =~= join_spec(p, sep).push(s.last()));
                assert(s.drop_last().push(s.last()) =~= s);
            }
        }
    }
}

/// Appending text free of the separator extends the last part.
pub proof fn lemma_split_append_free(y: Seq<char>, b: Seq<char>, sep: char)
    requires
        forall|j: int| 0 <= j < b.len() ==> #[trigger] b[j] != sep,
    ensures
        split_spec(y + b, sep) == split_spec(y, sep).update(
            split_spec(y, sep).len() - 1,
            split_spec(y, sep).last() + b,
        ),
    decreases b.len(),
{
    lemma_split_nonempty(y, sep);
    let p = split_spec(y, sep);
    if b.len() == 0 {
        assert(y + b =~= y);
        assert(p.update(p.len() - 1, p.last() + b) =~= p);
    } else {
        lemma_split_append_free(y, b.drop_last(), sep);
        assert((y + b).drop_last() =~= y + b.drop_last());
        assert((y + b).last() == b.last());
        let q = split_spec(y + b.drop_last(), sep);
        let x = p.last() + b.drop_last();
        assert(q == p.update(p.len() - 1, x));
        assert(q.len() == p.len());
        assert(q.last() == x);
        assert(b[b.len() - 1] != sep);
        assert(split_spec(y + b, sep) == q.update(q.len() - 1, q.last().push(b.last())));
        assert(x.push(b.last()) =~= p.last() + b);
        assert(q.update(q.len() - 1, x.push(b.last())) =~= p.update(p.len() - 1, p.last() + b));
        assert(split_spec(y + b, sep) =~= p.update(p.len() - 1, p.last() + b));
    }
}

/// Splitting parts that were joined gives them back, when no part holds the
/// separator.
pub proof fn lemma_split_join(ps: Seq<Seq<char>>, sep: char)
    requires
        ps.len() >= 1,
        forall|k: int, j: int| 0 <= k < ps.len() && 0 <= j < ps[k].len() ==> #[trigger] ps[k][j] != sep,
    ensures
        split_spec(join_spec(ps, sep), sep) == ps,
    decreases ps.len(),
{
    if ps.len() == 1 {
        let e = Seq::<char>::empty();
        assert(split_spec(e, sep) =~= seq![e]);
        assert forall|j: int| 0 <= j < ps[0].len() implies #[trigger] ps[0][j] != sep by {
            assert(ps[0][j] != sep);
        }
        lemma_split_append_free(e, ps[0], sep);
        assert(e + ps[0] =~= ps[0]);
        assert(split_spec(join_spec(ps, sep), sep) =~= ps);
    } else {
        let a = join_spec(ps.drop_last(), sep);
        let last = ps.last();
        assert forall|k: int, j: int|
            0 <= k < ps.drop_last().len() && 0 <= j < ps.drop_last()[k].len() implies #[trigger] ps.drop_last()[k][j]
            != sep by {
            assert(ps.drop_last()[k] == ps[k]);
        }
        lemma_split_join(ps.drop_last(), sep);
        lemma_split_nonempty(a, sep);
        let y = a + seq![sep];
        assert(y.drop_last() =~= a);
        assert(split_spec(y, sep) == split_spec(a, sep).push(Seq::<char>::empty()));
        assert forall|j: int| 0 <= j < last.len() implies #[trigger] last[j] != sep by {
            assert(ps[ps.len() - 1][j] != sep);
        }
        lemma_split_append_free(y, last, sep);
        assert(join_spec(ps, sep) == y + last);
        assert(Seq::<char>::empty() + last =~= last);
        assert(split_spec(join_spec(ps, sep), sep) =~= ps);
    }
}

/// Whether `s` starts with `c`.
pub fn starts_with_char(s: &str, c: char) -> (r: bool)
    ensures
        r == (s@.len() > 0 && s@[0] == c),
{
    let v = chars_of(s);
    v.len() > 0 && v[0] == c
}

/// The strings joined with `sep` between each two of them (`join` on a slice
/// of strings).
pub fn join_with(parts: &Vec<String>, sep: char) -> (r: String)
    ensures
        r@ == join_spec(parts@.map_values(|p: String| p@), sep),
{
    let ghost views = parts@.map_values(|p: String| p@);
    let mut out = String::new();
    let mut i: usize = 0;
    while i < parts.len()
        invariant
            i <= parts.len(),
            views == parts@.map_values(|p: String| p@),
            out@ == join_spec(views.take(i as int), sep),
        decreases parts.len() - i,
    {
        if i > 0 {
            push_char(&mut out, sep);
        }
        out.append(parts[i].as_str());
        proof {
            assert(views.take(i + 1).drop_last() =~= views.take(i as int));
            assert(views.take(i + 1).last() == parts@[i as int]@);
            if i == 0 {
                assert(out@ =~= join_spec(views.take(1), sep));
            }
        }
        i += 1;
    }
    assert(views.take(parts.len() as int) =~= views);
    out
}

} // verus!
