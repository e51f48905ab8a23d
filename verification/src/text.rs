//! Text primitives: Unicode white space, trimming, the first word of a
//! text, splitting on runs of white space, and joining with one space.

use vstd::prelude::*;

verus! {

/// The Unicode `White_Space` property: the characters that `str::trim`
/// removes and that the class `\s` of a regular expression matches.
pub open spec fn is_white_space(c: char) -> bool {
    ||| ('\u{9}' <= c && c <= '\u{d}')
    ||| c == ' '
    ||| c == '\u{85}'
    ||| c == '\u{a0}'
    ||| c == '\u{1680}'
    ||| ('\u{2000}' <= c && c <= '\u{200a}')
    ||| c == '\u{2028}'
    ||| c == '\u{2029}'
    ||| c == '\u{202f}'
    ||| c == '\u{205f}'
    ||| c == '\u{3000}'
}

/// Number of leading characters of `s` whose white-space-ness is `white`.
pub open spec fn run_len(s: Seq<char>, white: bool) -> nat
    decreases s.len(),
{
    if s.len() > 0 && is_white_space(s[0]) == white {
        1 + run_len(s.drop_first(), white)
    } else {
        0
    }
}

/// Number of trailing white-space characters of `s`.
pub open spec fn trailing_white_len(s: Seq<char>) -> nat
    decreases s.len(),
{
    if s.len() > 0 && is_white_space(s.last()) {
        1 + trailing_white_len(s.drop_last())
    } else {
        0
    }
}

/// `s` without its leading white space.
pub open spec fn trim_start(s: Seq<char>) -> Seq<char> {
    s.skip(run_len(s, true) as int)
}

/// `s` without its trailing white space.
pub open spec fn trim_end(s: Seq<char>) -> Seq<char> {
    s.take(s.len() - trailing_white_len(s))
}

/// `s` without leading and trailing white space.
pub open spec fn trimmed(s: Seq<char>) -> Seq<char> {
    trim_end(trim_start(s))
}

/// The characters of `s` before its first white-space character.
pub open spec fn first_word(s: Seq<char>) -> Seq<char> {
    s.take(run_len(s, false) as int)
}

/// What is left of `s` once its first word is cut off and the remainder trimmed.
pub open spec fn rest_after_first_word(s: Seq<char>) -> Seq<char> {
    trimmed(s.skip(run_len(s, false) as int))
}

/// The pieces of `s` between the maximal runs of white space, in order.
/// A leading (trailing) run yields an empty first (last) piece; a text
/// without white space, the empty text included, is a single piece.
pub open spec fn split_white(s: Seq<char>) -> Seq<Seq<char>>
    decreases s.len(),
{
    let w = run_len(s, false);
    if w >= s.len() {
        seq![s]
    } else {
        let rest = s.skip(w as int);
        let g = run_len(rest, true);
        proof {
            lemma_run_len_bound(s, false);
            lemma_run_len_bound(rest, true);
        }
        seq![s.take(w as int)] + split_white(rest.skip(g as int))
    }
}

/// The parts put one after another, with a single space between neighbours.
pub open spec fn join_with_space(parts: Seq<Seq<char>>) -> Seq<char>
    decreases parts.len(),
{
    if parts.len() == 0 {
        Seq::empty()
    } else if parts.len() == 1 {
        parts[0]
    } else {
        join_with_space(parts.drop_last()) + seq![' '] + parts.last()
    }
}

/// `p` is a prefix of `s`.
pub open spec fn starts_with(s: Seq<char>, p: Seq<char>) -> bool {
    p.len() <= s.len() && s.take(p.len() as int) == p
}

/// The texts that a sequence of strings holds.
pub open spec fn texts(v: Seq<String>) -> Seq<Seq<char>> {
    v.map_values(|x: String| x@)
}

pub proof fn lemma_run_len_bound(s: Seq<char>, white: bool)
    ensures
        run_len(s, white) <= s.len(),
        s.len() > 0 && is_white_space(s[0]) == white ==> run_len(s, white) >= 1,
    decreases s.len(),
{
    if s.len() > 0 && is_white_space(s[0]) == white {
        lemma_run_len_bound(s.drop_first(), white);
    }
}

/// A run ends exactly where the first character of the other kind stands.
pub proof fn lemma_run_len_is(s: Seq<char>, white: bool, k: int)
    requires
        0 <= k <= s.len(),
        forall|j: int| 0 <= j < k ==> is_white_space(#[trigger] s[j]) == white,
        k == s.len() || is_white_space(s[k]) != white,
    ensures
        run_len(s, white) == k,
    decreases k,
{
    if k > 0 {
        let t = s.drop_first();
        assert forall|j: int| 0 <= j < k - 1 implies is_white_space(#[trigger] t[j]) == white by {
            assert(t[j] == s[j + 1]);
        }
        if k - 1 < t.len() {
            assert(t[k - 1] == s[k]);
        }
        lemma_run_len_is(t, white, k - 1);
    }
}

/// The trailing run of white space ends exactly where the last non-white character stands.
pub proof fn lemma_trailing_white_len_is(s: Seq<char>, m: int)
    requires
        0 <= m <= s.len(),
        forall|j: int| s.len() - m <= j < s.len() ==> is_white_space(#[trigger] s[j]),
        m == s.len() || !is_white_space(s[s.len() - m - 1]),
    ensures
        trailing_white_len(s) == m,
    decreases m,
{
    if m > 0 {
        let t = s.drop_last();
        assert forall|j: int| t.len() - (m - 1) <= j < t.len() implies is_white_space(
            #[trigger] t[j],
        ) by {
            assert(t[j] == s[j]);
        }
        if m - 1 < t.len() {
            assert(t[t.len() - (m - 1) - 1] == s[s.len() - m - 1]);
        }
        assert(is_white_space(s[s.len() - 1]));
        lemma_trailing_white_len_is(t, m - 1);
    }
}

/// Tells whether `c` is a Unicode white-space character.
pub fn is_white_space_char(c: char) -> (r: bool)
    ensures
        r == is_white_space(c),
{
    ('\u{9}' <= c && c <= '\u{d}') || c == ' ' || c == '\u{85}' || c == '\u{a0}' || c
        == '\u{1680}' || ('\u{2000}' <= c && c <= '\u{200a}') || c == '\u{2028}' || c
        == '\u{2029}' || c == '\u{202f}' || c == '\u{205f}' || c == '\u{3000}'
}

/// The index where the run of characters of kind `white` that starts at `from` ends.
pub fn run_end(s: &str, from: usize, white: bool) -> (end: usize)
    requires
        from <= s@.len(),
    ensures
        end == from + run_len(s@.skip(from as int), white),
        from <= end <= s@.len(),
{
    let n = s.unicode_len();
    let mut i = from;
    while i < n && is_white_space_char(s.get_char(i)) == white
        invariant
            n == s@.len(),
            from <= i <= n,
            forall|j: int| from <= j < i ==> is_white_space(#[trigger] s@[j]) == white,
        decreases n - i,
    {
        i = i + 1;
    }
    proof {
        let t = s@.skip(from as int);
        assert forall|j: int| 0 <= j < i - from implies is_white_space(#[trigger] t[j]) == white by {
            assert(t[j] == s@[from + j]);
        }
        if i < n {
            assert(t[i - from] == s@[i as int]);
        }
        lemma_run_len_is(t, white, i - from);
    }
    i
}

/// `s` without leading and trailing white space, as `str::trim` gives it.
pub fn trim(s: &str) -> (r: &str)
    ensures
        r@ == trimmed(s@),
{
    let n = s.unicode_len();
    let a = run_end(s, 0, true);
    let mut b = n;
    while b > a && is_white_space_char(s.get_char(b - 1))
        invariant
            n == s@.len(),
            a <= b <= n,
            forall|j: int| b <= j < n ==> is_white_space(#[trigger] s@[j]),
        decreases b,
    {
        b = b - 1;
    }
    proof {
        assert(s@.skip(0) =~= s@);
        let t = s@.skip(a as int);
        let m = n - b;
        assert forall|j: int| t.len() - m <= j < t.len() implies is_white_space(#[trigger] t[j]) by {
            assert(t[j] == s@[a + j]);
        }
        if m < t.len() {
            assert(t[t.len() - m - 1] == s@[b - 1]);
        }
        lemma_trailing_white_len_is(t, m);
        assert(trim_end(t) =~= s@.subrange(a as int, b as int));
    }
    s.substring_char(a, b)
}

/// The end of the first word of `s`: the index of its first white-space character, or its length.
pub fn first_word_end(s: &str) -> (end: usize)
    ensures
        end == run_len(s@, false),
        end <= s@.len(),
{
    let e = run_end(s, 0, false);
    assert(s@.skip(0) =~= s@);
    e
}

/// The pieces of `s` between runs of white space, as splitting on the
/// regular expression `\s+` yields them.
pub fn split_white_space(s: &str) -> (r: Vec<String>)
    ensures
        texts(r@) == split_white(s@),
{
    let n = s.unicode_len();
    let mut pieces: Vec<String> = Vec::new();
    let mut i: usize = 0;
    assert(s@.skip(0) =~= s@);
    loop
        invariant_except_break
            n == s@.len(),
            i <= n,
            texts(pieces@) + split_white(s@.skip(i as int)) == split_white(s@),
        ensures
            texts(pieces@) == split_white(s@),
        decreases n - i,
    {
        let j = run_end(s, i, false);
        let piece = String::from_str(s.substring_char(i, j));
        let ghost t = s@.skip(i as int);
        let ghost before = texts(pieces@);
        pieces.push(piece);
        proof {
            assert(texts(pieces@) =~= before.push(s@.subrange(i as int, j as int)));
            lemma_run_len_bound(t, false);
        }
        if j == n {
            proof {
                assert(t.take(t.len() as int) =~= t);
                assert(t =~= s@.subrange(i as int, j as int));
                assert(split_white(t) == seq![t]);
                assert(texts(pieces@) =~= before + split_white(t));
            }
            break ;
        }
        let k = run_end(s, j, true);
        proof {
            let w = run_len(t, false);
            let rest = t.skip(w as int);
            assert(rest =~= s@.skip(j as int));
            assert(rest.skip(run_len(rest, true) as int) =~= s@.skip(k as int));
            assert(t.take(w as int) =~= s@.subrange(i as int, j as int));
            assert(rest[0] == s@[j as int]);
            assert(!(is_white_space(s@[j as int]) == false)) by {
                assert(t[w as int] == s@[j as int]);
                if w < t.len() {
                    lemma_run_len_is_stop(t, false);
                }
            }
            lemma_run_len_bound(rest, true);
            assert(split_white(t) == seq![t.take(w as int)] + split_white(s@.skip(k as int)));
            assert(texts(pieces@) + split_white(s@.skip(k as int)) =~= before + split_white(t));
        }
        i = k;
    }
    pieces
}

/// The character at which a run stops has the other kind.
pub proof fn lemma_run_len_is_stop(s: Seq<char>, white: bool)
    ensures
        run_len(s, white) < s.len() ==> is_white_space(s[run_len(s, white) as int]) != white,
    decreases s.len(),
{
    if s.len() > 0 && is_white_space(s[0]) == white {
        lemma_run_len_is_stop(s.drop_first(), white);
        if run_len(s, white) < s.len() {
            assert(s.drop_first()[run_len(s.drop_first(), white) as int] == s[run_len(s, white) as int]);
        }
    }
}

/// Whether `p` is a prefix of `s`.
pub fn text_starts_with(s: &str, p: &str) -> (r: bool)
    ensures
        r == starts_with(s@, p@),
{
    let n = s.unicode_len();
    let m = p.unicode_len();
    if m > n {
        return false;
    }
    let mut i: usize = 0;
    while i < m
        invariant
            n == s@.len(),
            m == p@.len(),
            m <= n,
            i <= m,
            forall|j: int| 0 <= j < i ==> s@[j] == p@[j],
        decreases m - i,
    {
        if s.get_char(i) != p.get_char(i) {
            assert(s@.take(m as int)[i as int] != p@[i as int]);
            return false;
        }
        i = i + 1;
    }
    assert(s@.take(m as int) =~= p@);
    true
}

/// Whether the two texts are equal.
pub fn text_eq(a: &str, b: &str) -> (r: bool)
    ensures
        r == (a@ == b@),
{
    if a.unicode_len() != b.unicode_len() {
        return false;
    }
    assert(a@.take(b@.len() as int) =~= a@);
    text_starts_with(a, b)
}

/// The first word of `s` and what follows it, trimmed.
pub fn split_first_word(s: &str) -> (r: (String, String))
    ensures
        r.0@ == first_word(s@),
        r.1@ == rest_after_first_word(s@),
{
    let n = s.unicode_len();
    let w = first_word_end(s);
    let first = String::from_str(s.substring_char(0, w));
    let rest = String::from_str(trim(s.substring_char(w, n)));
    assert(s@.subrange(0, w as int) =~= s@.take(w as int));
    assert(s@.subrange(w as int, n as int) =~= s@.skip(w as int));
    (first, rest)
}

/// The parts joined with a single space between neighbours.
pub fn join_space(parts: &Vec<String>) -> (r: String)
    ensures
        r@ == join_with_space(texts(parts@)),
{
    let mut r = String::new();
    let mut i: usize = 0;
    while i < parts.len()
        invariant
            i <= parts@.len(),
            r@ == join_with_space(texts(parts@).take(i as int)),
        decreases parts@.len() - i,
    {
        let ghost prev = texts(parts@).take(i as int);
        if i > 0 {
            r.append(" ");
        }
        r.append(parts[i].as_str());
        proof {
            let next = texts(parts@).take(i + 1);
            assert(next.drop_last() =~= prev);
            if i == 0 {
                assert(r@ =~= next[0]);
            } else {
                reveal_strlit(" ");
                assert(r@ =~= join_with_space(prev) + seq![' '] + next.last());
            }
        }
        i = i + 1;
    }
    assert(texts(parts@).take(parts@.len() as int) =~= texts(parts@));
    r
}

/// `s` has no white space at either end.
pub open spec fn is_trimmed(s: Seq<char>) -> bool {
    s.len() == 0 || (!is_white_space(s[0]) && !is_white_space(s.last()))
}

pub proof fn lemma_run_len_prefix(s: Seq<char>, white: bool)
    ensures
        forall|j: int| 0 <= j < run_len(s, white) ==> is_white_space(#[trigger] s[j]) == white,
    decreases s.len(),
{
    if s.len() > 0 && is_white_space(s[0]) == white {
        let t = s.drop_first();
        lemma_run_len_prefix(t, white);
        lemma_run_len_bound(t, white);
        assert forall|j: int| 0 <= j < run_len(s, white) implies is_white_space(#[trigger] s[j])
            == white by {
            if j > 0 {
                assert(s[j] == t[j - 1]);
            }
        }
    }
}

pub proof fn lemma_trailing_white_len_facts(s: Seq<char>)
    ensures
        trailing_white_len(s) <= s.len(),
        trailing_white_len(s) < s.len() ==> !is_white_space(s[s.len() - trailing_white_len(s) - 1]),
    decreases s.len(),
{
    if s.len() > 0 && is_white_space(s.last()) {
        let t = s.drop_last();
        lemma_trailing_white_len_facts(t);
        if trailing_white_len(s) < s.len() {
            assert(t[t.len() - trailing_white_len(t) - 1] == s[s.len() - trailing_white_len(s) - 1]);
        }
    }
}

/// Trimming leaves no white space at either end.
pub proof fn lemma_trimmed_is_trimmed(s: Seq<char>)
    ensures
        is_trimmed(trimmed(s)),
{
    lemma_run_len_bound(s, true);
    lemma_run_len_is_stop(s, true);
    let t = trim_start(s);
    if t.len() > 0 {
        assert(t[0] == s[run_len(s, true) as int]);
    }
    lemma_trailing_white_len_facts(t);
    let u = trimmed(s);
    if u.len() > 0 {
        assert(u[0] == t[0]);
        assert(u.last() == t[t.len() - trailing_white_len(t) - 1]);
    }
}

/// A text with no white space at either end is its own trimming.
pub proof fn lemma_trimmed_of_trimmed(s: Seq<char>)
    requires
        is_trimmed(s),
    ensures
        trimmed(s) == s,
{
    if s.len() > 0 {
        lemma_run_len_is(s, true, 0);
        assert(s.skip(0) =~= s);
        lemma_trailing_white_len_is(s, 0);
        assert(s.take(s.len() as int) =~= s);
    } else {
        lemma_run_len_is(s, true, 0);
        lemma_trailing_white_len_is(s, 0);
        assert(s.skip(0) =~= s);
        assert(s.take(0) =~= s);
    }
}

/// The pieces of a text hold no white space; every piece but the first and
/// the last is non-empty; a text that starts (ends) with a non-white
/// character has a first (last) piece that starts (ends) with it.
pub proof fn lemma_split_white_pieces(s: Seq<char>)
    ensures
        split_white(s).len() >= 1,
        forall|i: int, j: int|
            0 <= i < split_white(s).len() && 0 <= j < split_white(s)[i].len() ==> !is_white_space(
                #[trigger] split_white(s)[i][j],
            ),
        forall|i: int| 1 <= i < split_white(s).len() - 1 ==> (#[trigger] split_white(s)[i]).len() > 0,
        s.len() > 0 && !is_white_space(s[0]) ==> split_white(s)[0].len() > 0 && split_white(s)[0][0]
            == s[0],
        s.len() > 0 && !is_white_space(s.last()) ==> split_white(s).last().len() > 0 && split_white(
            s,
        ).last().last() == s.last(),
    decreases s.len(),
{
    let p = split_white(s);
    let w = run_len(s, false);
    lemma_run_len_bound(s, false);
    lemma_run_len_prefix(s, false);
    if w >= s.len() {
        assert(p == seq![s]);
        assert forall|i: int, j: int| 0 <= i < p.len() && 0 <= j < p[i].len() implies !is_white_space(
            #[trigger] p[i][j],
        ) by {
            assert(p[i] == s);
        }
    } else {
        let rest = s.skip(w as int);
        let g = run_len(rest, true);
        lemma_run_len_bound(rest, true);
        lemma_run_len_prefix(rest, true);
        lemma_run_len_is_stop(rest, true);
        lemma_run_len_is_stop(s, false);
        assert(rest[0] == s[w as int]);
        let s2 = rest.skip(g as int);
        let q = split_white(s2);
        lemma_split_white_pieces(s2);
        let first = s.take(w as int);
        assert(p == seq![first] + q);
        assert forall|i: int, j: int| 0 <= i < p.len() && 0 <= j < p[i].len() implies !is_white_space(
            #[trigger] p[i][j],
        ) by {
            if i == 0 {
                assert(p[i] == first);
                assert(first[j] == s[j]);
            } else {
                assert(p[i] == q[i - 1]);
            }
        }
        if s2.len() == 0 {
            assert(q == seq![s2]);
        } else {
            assert(s2[0] == rest[g as int]);
        }
        assert forall|i: int| 1 <= i < p.len() - 1 implies (#[trigger] p[i]).len() > 0 by {
            assert(p[i] == q[i - 1]);
        }
        if s.len() > 0 && !is_white_space(s[0]) {
            assert(w >= 1);
            assert(p[0] == first);
            assert(first[0] == s[0]);
        }
        if s.len() > 0 && !is_white_space(s.last()) {
            if s2.len() == 0 {
                assert(g == rest.len());
                assert(rest[rest.len() - 1] == s.last());
            } else {
                assert(s2.last() == s.last());
            }
            assert(p.last() == q.last());
        }
    }
}

/// The joined text starts with the first character of the first part and
/// ends with the last character of the last part.
pub proof fn lemma_join_ends(parts: Seq<Seq<char>>)
    requires
        parts.len() > 0,
        parts[0].len() > 0,
    ensures
        join_with_space(parts).len() > 0,
        join_with_space(parts)[0] == parts[0][0],
        parts.last().len() > 0 ==> join_with_space(parts).last() == parts.last().last(),
    decreases parts.len(),
{
    if parts.len() > 1 {
        let d = parts.drop_last();
        assert(d[0] == parts[0]);
        lemma_join_ends(d);
    }
}

} // verus!
