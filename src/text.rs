//! Character-level helpers over `str` and `String`, stated over `Seq<char>`.
use vstd::prelude::*;

verus! {

/// Appends one character.
///
/// Relies on `String::push`: the character is added at the end.
#[verifier::external_body]
pub(crate) fn push_char(s: &mut String, c: char)
    ensures
        final(s)@ == old(s)@.push(c),
{
    s.push(c);
}

/// The characters of `s`, one per element.
pub fn chars_of(s: &str) -> (v: Vec<char>)
    ensures
        v@ == s@,
{
    let mut v: Vec<char> = Vec::new();
    for c in it: s.chars()
        invariant
            it.seq() == s@,
            v@ == it.seq().take(it.index() as int),
    {
        assert(it.seq().take(it.index() + 1) =~= v@.push(c));
        v.push(c);
    }
    assert(v@ =~= s@);
    v
}

/// `p` is a prefix of `s`.
pub open spec fn has_prefix(s: Seq<char>, p: Seq<char>) -> bool {
    p.len() <= s.len() && s.subrange(0, p.len() as int) == p
}

/// Whether `a` and `b` hold the same characters.
pub fn eq_str(a: &str, b: &str) -> (r: bool)
    ensures
        r == (a@ == b@),
{
    a.to_owned() == b.to_owned()
}

/// Whether `p` is a prefix of the characters `s`.
fn seq_starts_with(s: &Vec<char>, p: &str) -> (r: bool)
    ensures
        r == has_prefix(s@, p@),
{
    let pc = chars_of(p);
    if pc.len() > s.len() {
        return false;
    }
    let mut i: usize = 0;
    while i < pc.len()
        invariant
            pc@ == p@,
            pc.len() <= s.len(),
            i <= pc.len(),
            forall|j: int| 0 <= j < i ==> s@[j] == pc@[j],
        decreases pc.len() - i,
    {
        if s[i] != pc[i] {
            assert(s@.subrange(0, pc.len() as int)[i as int] != p@[i as int]);
            return false;
        }
        i = i + 1;
    }
    assert(s@.subrange(0, pc.len() as int) =~= p@);
    true
}

/// Whether `p` is a prefix of `s`.
pub fn starts_with(s: &str, p: &str) -> (r: bool)
    ensures
        r == has_prefix(s@, p@),
{
    let sc = chars_of(s);
    seq_starts_with(&sc, p)
}

/// The Unicode `White_Space` property, as `char::is_whitespace` documents it.
pub open spec fn is_ws(c: char) -> bool {
    let u = c as u32;
    (0x09 <= u <= 0x0d) || u == 0x20 || u == 0x85 || u == 0xa0 || u == 0x1680 || (0x2000 <= u
        <= 0x200a) || u == 0x2028 || u == 0x2029 || u == 0x202f || u == 0x205f || u == 0x3000
}

/// Whether `c` is white space.
pub fn is_whitespace(c: char) -> (r: bool)
    ensures
        r == is_ws(c),
{
    let u = c as u32;
    (0x09 <= u && u <= 0x0d) || u == 0x20 || u == 0x85 || u == 0xa0 || u == 0x1680 || (0x2000
        <= u && u <= 0x200a) || u == 0x2028 || u == 0x2029 || u == 0x202f || u == 0x205f || u
        == 0x3000
}

/// `s` without its leading white space.
pub open spec fn trim_start(s: Seq<char>) -> Seq<char>
    decreases s.len(),
{
    if s.len() > 0 && is_ws(s[0]) {
        trim_start(s.drop_first())
    } else {
        s
    }
}

/// `s` without its trailing white space.
pub open spec fn trim_end(s: Seq<char>) -> Seq<char>
    decreases s.len(),
{
    if s.len() > 0 && is_ws(s.last()) {
        trim_end(s.drop_last())
    } else {
        s
    }
}

/// `s` without leading and trailing white space.
pub open spec fn trim(s: Seq<char>) -> Seq<char> {
    trim_end(trim_start(s))
}

/// Removing leading white space from a suffix that starts at a non-space
/// leaves it as it is.
proof fn lemma_trim_start_at(s: Seq<char>, i: int)
    requires
        0 <= i <= s.len(),
        forall|j: int| 0 <= j < i ==> is_ws(s[j]),
    ensures
        trim_start(s) == trim_start(s.subrange(i, s.len() as int)),
    decreases i,
{
    if i > 0 {
        lemma_trim_start_at(s.drop_first(), i - 1);
        assert(s.drop_first().subrange(i - 1, s.len() - 1) =~= s.subrange(i, s.len() as int));
    } else {
        assert(s.subrange(0, s.len() as int) =~= s);
    }
}

proof fn lemma_trim_end_at(s: Seq<char>, k: int)
    requires
        0 <= k <= s.len(),
        forall|j: int| k <= j < s.len() ==> is_ws(s[j]),
    ensures
        trim_end(s) == trim_end(s.subrange(0, k)),
    decreases s.len() - k,
{
    if k < s.len() {
        lemma_trim_end_at(s.drop_last(), k);
        assert(s.drop_last().subrange(0, k) =~= s.subrange(0, k));
    } else {
        assert(s.subrange(0, k) =~= s);
    }
}

/// `s` without leading and trailing white space.
pub fn trim_str(s: &str) -> (r: &str)
    ensures
        r@ == trim(s@),
{
    let cs = chars_of(s);
    let n = cs.len();
    let mut i: usize = 0;
    while i < n && is_whitespace(cs[i])
        invariant
            cs@ == s@,
            n == cs.len(),
            i <= n,
            forall|j: int| 0 <= j < i ==> is_ws(s@[j]),
        decreases n - i,
    {
        i = i + 1;
    }
    proof {
        lemma_trim_start_at(s@, i as int);
    }
    let ghost mid = s@.subrange(i as int, n as int);
    assert(trim_start(mid) == mid);
    let mut k: usize = n;
    while k > i && is_whitespace(cs[k - 1])
        invariant
            cs@ == s@,
            n == cs.len(),
            i <= k <= n,
            mid == s@.subrange(i as int, n as int),
            forall|j: int| k <= j < n ==> is_ws(s@[j]),
        decreases k,
    {
        k = k - 1;
    }
    proof {
        lemma_trim_end_at(mid, k - i);
        assert(mid.subrange(0, k - i) =~= s@.subrange(i as int, k as int));
        if k > i {
            assert(!is_ws(mid.subrange(0, k - i).last()));
        }
    }
    s.substring_char(i, k)
}

/// The index of the first `c` in `s`, or the length of `s` when there is none.
pub open spec fn first_index(s: Seq<char>, c: char) -> nat
    decreases s.len(),
{
    if s.len() == 0 {
        0
    } else if s[0] == c {
        0
    } else {
        1 + first_index(s.drop_first(), c)
    }
}

/// `first_index` is the one index with no `c` before it and a `c`, or the
/// end, at it.
proof fn lemma_first_index_is(s: Seq<char>, c: char, i: int)
    requires
        0 <= i <= s.len(),
        forall|j: int| 0 <= j < i ==> s[j] != c,
        i == s.len() || s[i] == c,
    ensures
        first_index(s, c) == i,
    decreases i,
{
    if i > 0 {
        lemma_first_index_is(s.drop_first(), c, i - 1);
    }
}

/// With no `c` in `s`, `first_index` is the length of `s`.
pub proof fn lemma_first_index_absent(s: Seq<char>, c: char)
    requires
        !s.contains(c),
    ensures
        first_index(s, c) == s.len(),
{
    lemma_first_index_is(s, c, s.len() as int);
}

/// The index of the first `c` in `s`, or the length of `s` when there is none.
pub fn find_char(s: &Vec<char>, c: char) -> (r: usize)
    ensures
        r == first_index(s@, c),
        r <= s.len(),
        forall|j: int| 0 <= j < r ==> s@[j] != c,
        r < s.len() ==> s@[r as int] == c,
{
    let mut i: usize = 0;
    while i < s.len() && s[i] != c
        invariant
            i <= s.len(),
            forall|j: int| 0 <= j < i ==> s@[j] != c,
        decreases s.len() - i,
    {
        i = i + 1;
    }
    proof {
        lemma_first_index_is(s@, c, i as int);
    }
    i
}

/// `s` with each occurrence of `p` replaced by `w`, scanning from the left
/// without overlap (as `str::replace` does).
pub open spec fn replace_all(s: Seq<char>, p: Seq<char>, w: Seq<char>) -> Seq<char>
    recommends
        p.len() > 0,
    decreases s.len(),
{
    if s.len() == 0 {
        s
    } else if p.len() > 0 && has_prefix(s, p) {
        w + replace_all(s.subrange(p.len() as int, s.len() as int), p, w)
    } else {
        seq![s[0]] + replace_all(s.drop_first(), p, w)
    }
}

/// `s` with each occurrence of the non-empty `p` replaced by `w`.
pub fn replace_str(s: &str, p: &str, w: &str) -> (r: String)
    requires
        p@.len() > 0,
    ensures
        r@ == replace_all(s@, p@, w@),
{
    let cs = chars_of(s);
    let pc = chars_of(p);
    let n = cs.len();
    let m = pc.len();
    let mut out = String::new();
    let mut i: usize = 0;
    assert(s@.subrange(0, n as int) =~= s@);
    assert(out@ + replace_all(s@, p@, w@) =~= replace_all(s@, p@, w@));
    while i < n
        invariant
            cs@ == s@,
            pc@ == p@,
            n == cs.len(),
            m == pc.len(),
            m > 0,
            i <= n,
            out@ + replace_all(s@.subrange(i as int, n as int), p@, w@) == replace_all(s@, p@, w@),
        decreases n - i,
    {
        let ghost rest = s@.subrange(i as int, n as int);
        let mut hit = m <= n - i;
        let mut j: usize = 0;
        while hit && j < m
            invariant
                cs@ == s@,
                pc@ == p@,
                n == cs.len(),
                m == pc.len(),
                i < n,
                j <= m,
                hit ==> m <= n - i,
                hit ==> forall|k: int| 0 <= k < j ==> s@[i + k] == p@[k],
                !hit ==> !has_prefix(rest, p@),
                rest == s@.subrange(i as int, n as int),
            decreases m - j + (if hit { 1int } else { 0int }),
        {
            if cs[i + j] != pc[j] {
                assert(rest.subrange(0, m as int)[j as int] != p@[j as int]);
                hit = false;
            } else {
                j = j + 1;
            }
        }
        if hit {
            assert(rest.subrange(0, m as int) =~= p@);
            assert(rest.subrange(m as int, rest.len() as int) =~= s@.subrange(
                (i + m) as int,
                n as int,
            ));
            out.append(w);
            assert(out@ + replace_all(s@.subrange((i + m) as int, n as int), p@, w@) =~= replace_all(s@, p@, w@));
            i = i + m;
        } else {
            assert(rest.drop_first() =~= s@.subrange(i + 1, n as int));
            push_char(&mut out, cs[i]);
            assert(out@ + replace_all(s@.subrange(i + 1, n as int), p@, w@) =~= replace_all(s@, p@, w@));
            i = i + 1;
        }
    }
    assert(s@.subrange(n as int, n as int) =~= Seq::<char>::empty());
    assert(out@ + Seq::<char>::empty() =~= out@);
    out
}

/// The pieces of `s` between occurrences of `sep`, as `str::split` gives
/// them: `k` separators give `k + 1` pieces, empty ones included.
pub open spec fn split_on(s: Seq<char>, sep: char) -> Seq<Seq<char>>
    decreases s.len(),
{
    if s.len() == 0 {
        seq![Seq::<char>::empty()]
    } else {
        let p = split_on(s.drop_last(), sep);
        if s.last() == sep {
            p.push(Seq::<char>::empty())
        } else {
            p.update(p.len() - 1, p.last().push(s.last()))
        }
    }
}

/// The character sequences of a list of string slices.
pub open spec fn str_views(v: Seq<&str>) -> Seq<Seq<char>> {
    v.map_values(|t: &str| t@)
}

/// The pieces of `s` between occurrences of `sep`.
pub fn split_str(s: &str, sep: char) -> (r: Vec<&str>)
    ensures
        str_views(r@) == split_on(s@, sep),
{
    let cs = chars_of(s);
    let n = cs.len();
    let mut parts: Vec<&str> = Vec::new();
    let mut start: usize = 0;
    assert(s@.take(0) =~= Seq::<char>::empty());
    assert(str_views(parts@).push(s@.subrange(0, 0)) =~= seq![Seq::<char>::empty()]);
    for i in 0..n
        invariant
            cs@ == s@,
            n == cs.len(),
            start <= i,
            split_on(s@.take(i as int), sep) == str_views(parts@).push(
                s@.subrange(start as int, i as int),
            ),
    {
        let ghost prev = s@.take(i as int);
        assert(s@.take(i + 1).drop_last() =~= prev);
        if cs[i] == sep {
            let piece = s.substring_char(start, i);
            let ghost before = parts@;
            parts.push(piece);
            assert(str_views(parts@) =~= str_views(before).push(piece@)) by {
                assert(parts@ =~= before.push(piece));
            }
            assert(s@.subrange((i + 1) as int, (i + 1) as int) =~= Seq::<char>::empty());
            start = i + 1;
        } else {
            assert(s@.subrange(start as int, i + 1) =~= s@.subrange(start as int, i as int).push(
                cs@[i as int],
            ));
            assert(split_on(s@.take(i + 1), sep) =~= str_views(parts@).push(
                s@.subrange(start as int, i + 1),
            ));
        }
    }
    let last = s.substring_char(start, n);
    let ghost before = parts@;
    parts.push(last);
    assert(s@.take(n as int) =~= s@);
    assert(str_views(parts@) =~= str_views(before).push(last@)) by {
        assert(parts@ =~= before.push(last));
    }
    parts
}

/// The number of characters before the first white space of `s` (all of
/// them when it has none).
pub open spec fn word_len(s: Seq<char>) -> nat
    decreases s.len(),
{
    if s.len() == 0 || is_ws(s[0]) {
        0
    } else {
        1 + word_len(s.drop_first())
    }
}

proof fn lemma_word_len_is(s: Seq<char>, k: int)
    requires
        0 <= k <= s.len(),
        forall|j: int| 0 <= j < k ==> !is_ws(s[j]),
        k == s.len() || is_ws(s[k]),
    ensures
        word_len(s) == k,
    decreases k,
{
    if k > 0 {
        lemma_word_len_is(s.drop_first(), k - 1);
    }
}

/// The first index at or after `from` that holds no white space (or the
/// length), with what lies between stripped by `trim_start`.
pub fn skip_ws(cs: &Vec<char>, from: usize) -> (r: usize)
    requires
        from <= cs.len(),
    ensures
        from <= r <= cs.len(),
        trim_start(cs@.subrange(from as int, cs.len() as int)) == cs@.subrange(
            r as int,
            cs.len() as int,
        ),
{
    let mut i = from;
    while i < cs.len() && is_whitespace(cs[i])
        invariant
            from <= i <= cs.len(),
            forall|j: int| from <= j < i ==> is_ws(cs@[j]),
        decreases cs.len() - i,
    {
        i = i + 1;
    }
    let ghost s = cs@.subrange(from as int, cs.len() as int);
    proof {
        lemma_trim_start_at(s, i - from);
        assert(s.subrange(i - from, s.len() as int) =~= cs@.subrange(i as int, cs.len() as int));
    }
    i
}

/// The end of the word that starts at `from`: the first white space at or
/// after it, or the length.
pub fn word_end(cs: &Vec<char>, from: usize) -> (r: usize)
    requires
        from <= cs.len(),
    ensures
        r == from + word_len(cs@.subrange(from as int, cs.len() as int)),
        r <= cs.len(),
{
    let mut i = from;
    while i < cs.len() && !is_whitespace(cs[i])
        invariant
            from <= i <= cs.len(),
            forall|j: int| from <= j < i ==> !is_ws(cs@[j]),
        decreases cs.len() - i,
    {
        i = i + 1;
    }
    proof {
        lemma_word_len_is(cs@.subrange(from as int, cs.len() as int), i - from);
    }
    i
}

/// `s` without the trailing run of `c`.
pub open spec fn trim_end_char(s: Seq<char>, c: char) -> Seq<char>
    decreases s.len(),
{
    if s.len() > 0 && s.last() == c {
        trim_end_char(s.drop_last(), c)
    } else {
        s
    }
}

proof fn lemma_trim_end_char_at(s: Seq<char>, c: char, k: int)
    requires
        0 <= k <= s.len(),
        forall|j: int| k <= j < s.len() ==> s[j] == c,
    ensures
        trim_end_char(s, c) == trim_end_char(s.subrange(0, k), c),
    decreases s.len() - k,
{
    if k < s.len() {
        lemma_trim_end_char_at(s.drop_last(), c, k);
        assert(s.drop_last().subrange(0, k) =~= s.subrange(0, k));
    } else {
        assert(s.subrange(0, k) =~= s);
    }
}

/// `s` without its trailing run of `c` (as `str::trim_end_matches`).
pub fn trim_end_matches_char(s: &str, c: char) -> (r: &str)
    ensures
        r@ == trim_end_char(s@, c),
{
    let cs = chars_of(s);
    let mut k: usize = cs.len();
    while k > 0 && cs[k - 1] == c
        invariant
            cs@ == s@,
            k <= cs.len(),
            forall|j: int| k <= j < cs.len() ==> s@[j] == c,
        decreases k,
    {
        k = k - 1;
    }
    proof {
        lemma_trim_end_char_at(s@, c, k as int);
    }
    s.substring_char(0, k)
}

/// `s` with each character `c` written as `f(c)`.
pub open spec fn flat_map_chars(s: Seq<char>, f: spec_fn(char) -> Seq<char>) -> Seq<char>
    decreases s.len(),
{
    if s.len() == 0 {
        Seq::empty()
    } else {
        flat_map_chars(s.drop_last(), f) + f(s.last())
    }
}

/// `flat_map_chars` seen from the front.
pub proof fn lemma_flat_map_first(s: Seq<char>, f: spec_fn(char) -> Seq<char>)
    requires
        s.len() > 0,
    ensures
        flat_map_chars(s, f) == f(s[0]) + flat_map_chars(s.drop_first(), f),
    decreases s.len(),
{
    if s.len() == 1 {
        assert(s.drop_first() =~= Seq::<char>::empty());
        assert(s.drop_last() =~= Seq::<char>::empty());
        assert(flat_map_chars(s.drop_last(), f) =~= Seq::<char>::empty());
        assert(s.last() == s[0]);
        assert(flat_map_chars(s, f) =~= f(s[0]));
        assert(f(s[0]) + Seq::<char>::empty() =~= f(s[0]));
    } else {
        lemma_flat_map_first(s.drop_last(), f);
        assert(s.drop_last().drop_first() =~= s.drop_first().drop_last());
        assert(s.drop_first().last() == s.last());
        assert(flat_map_chars(s, f) =~= f(s[0]) + flat_map_chars(s.drop_first(), f));
    }
}

/// Writing each character as itself changes nothing.
pub proof fn lemma_flat_map_identity(s: Seq<char>, f: spec_fn(char) -> Seq<char>)
    requires
        forall|c: char| #[trigger] f(c) == seq![c],
    ensures
        flat_map_chars(s, f) == s,
    decreases s.len(),
{
    if s.len() > 0 {
        lemma_flat_map_identity(s.drop_last(), f);
        assert(s.drop_last().push(s.last()) =~= s);
        assert(s.drop_last() + seq![s.last()] =~= s);
    }
}

/// A replacement pattern that starts with a backslash finds nothing to
/// replace in text without backslashes, even where a match would run on.
proof fn lemma_replace_skips(a: Seq<char>, b: Seq<char>, p: Seq<char>, w: Seq<char>)
    requires
        p.len() > 0,
        p[0] == '\\',
        !a.contains('\\'),
    ensures
        replace_all(a + b, p, w) == a + replace_all(b, p, w),
    decreases a.len(),
{
    if a.len() > 0 {
        let s = a + b;
        assert(s[0] == a[0]);
        assert(a[0] != '\\') by {
            assert(a.contains(a[0]) || a[0] != '\\');
        }
        assert(!has_prefix(s, p)) by {
            if has_prefix(s, p) {
                assert(s.subrange(0, p.len() as int)[0] == p[0]);
            }
        }
        assert(s.drop_first() =~= a.drop_first() + b);
        assert(!a.drop_first().contains('\\')) by {
            if a.drop_first().contains('\\') {
                let k = choose|k: int| 0 <= k < a.drop_first().len() && a.drop_first()[k] == '\\';
                assert(a[k + 1] == '\\');
            }
        }
        lemma_replace_skips(a.drop_first(), b, p, w);
        assert(seq![a[0]] + (a.drop_first() + replace_all(b, p, w)) =~= a + replace_all(b, p, w));
    } else {
        assert(a + b =~= b);
        assert(a + replace_all(b, p, w) =~= replace_all(b, p, w));
    }
}

/// The way one character is written: as itself (no backslash), or as a
/// backslash and three further characters none of which is a backslash.
pub open spec fn simple_code(c: char, e: Seq<char>) -> bool {
    (e == seq![c] && c != '\\') || (e.len() == 4 && e[0] == '\\' && e[1] != '\\' && e[2] != '\\'
        && e[3] != '\\')
}

/// Replacing a four-character backslash code in text where every
/// character is written as a [`simple_code`] replaces exactly the
/// characters written as that code.
pub proof fn lemma_replace_codes(
    x: Seq<char>,
    f: spec_fn(char) -> Seq<char>,
    g: spec_fn(char) -> Seq<char>,
    p: Seq<char>,
    w: Seq<char>,
)
    requires
        p.len() == 4,
        p[0] == '\\',
        forall|c: char| simple_code(c, #[trigger] f(c)),
        forall|c: char| #[trigger] g(c) == if f(c) == p { w } else { f(c) },
    ensures
        replace_all(flat_map_chars(x, f), p, w) == flat_map_chars(x, g),
    decreases x.len(),
{
    if x.len() == 0 {
        assert(flat_map_chars(x, f) =~= Seq::<char>::empty());
    } else {
        let c = x[0];
        let e = f(c);
        let rest = flat_map_chars(x.drop_first(), f);
        lemma_flat_map_first(x, f);
        lemma_flat_map_first(x, g);
        lemma_replace_codes(x.drop_first(), f, g, p, w);
        assert(simple_code(c, e));
        if e == seq![c] && c != '\\' {
            assert(!e.contains('\\')) by {
                if e.contains('\\') {
                    let k = choose|k: int| 0 <= k < e.len() && e[k] == '\\';
                    assert(k == 0);
                }
            }
            lemma_replace_skips(e, rest, p, w);
            assert(e != p);
        } else {
            let s = e + rest;
            assert(s.subrange(0, 4) =~= e);
            if e == p {
                assert(has_prefix(s, p));
                assert(s.subrange(4, s.len() as int) =~= rest);
            } else {
                assert(!has_prefix(s, p));
                let t = e.drop_first();
                assert(s.drop_first() =~= t + rest);
                assert(!t.contains('\\')) by {
                    if t.contains('\\') {
                        let k = choose|k: int| 0 <= k < t.len() && t[k] == '\\';
                        assert(e[k + 1] == '\\');
                    }
                }
                lemma_replace_skips(t, rest, p, w);
                assert(seq![e[0]] + (t + replace_all(rest, p, w)) =~= e + replace_all(rest, p, w));
            }
        }
    }
}

} // verus!
