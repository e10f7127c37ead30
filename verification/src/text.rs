//! Text helpers on `Seq<char>` models: whitespace trimming, splitting,
//! joining and substring replacement, each with a spec function that says
//! what the result is.
use vstd::prelude::*;

verus! {

/// The characters of `s`, in order.
pub fn chars_of(s: &str) -> (v: Vec<char>)
    ensures
        v@ == s@,
{
    broadcast use vstd::string::group_string_axioms;

    let mut v: Vec<char> = Vec::new();
    for c in it: s.chars()
        invariant
            it.seq() == s@,
            v@ == s@.take(it.index()),
    {
        v.push(c);
    }
    v
}

/// Calls `String::push`, which appends one character to the end of the string.
#[verifier::external_body]
pub(crate) fn push_char(s: &mut String, c: char)
    ensures
        final(s)@ == old(s)@.push(c),
{
    s.push(c);
}

/// A new string holding `v[lo..hi]`.
pub fn string_from_chars(v: &Vec<char>, lo: usize, hi: usize) -> (r: String)
    requires
        lo <= hi <= v.len(),
    ensures
        r@ == v@.subrange(lo as int, hi as int),
{
    let mut r = String::new();
    let mut i = lo;
    while i < hi
        invariant
            lo <= i <= hi <= v.len(),
            r@ == v@.subrange(lo as int, i as int),
        decreases hi - i,
    {
        push_char(&mut r, v[i]);
        assert(v@.subrange(lo as int, i + 1) == v@.subrange(lo as int, i as int).push(v@[i as int]));
        i = i + 1;
    }
    r
}

/// Whether `a` and `b` hold the same text.
pub fn same_text(a: &str, b: &str) -> (r: bool)
    ensures
        r == (a@ == b@),
{
    let va = chars_of(a);
    let vb = chars_of(b);
    if va.len() != vb.len() {
        return false;
    }
    let mut i: usize = 0;
    while i < va.len()
        invariant
            va@ == a@,
            vb@ == b@,
            va.len() == vb.len(),
            i <= va.len(),
            forall|j: int| 0 <= j < i ==> va@[j] == vb@[j],
        decreases va.len() - i,
    {
        if va[i] != vb[i] {
            return false;
        }
        i = i + 1;
    }
    assert(va@ == vb@);
    true
}

/// The Unicode `White_Space` property, the set of characters that
/// `char::is_whitespace` and `str::trim` treat as whitespace.
pub open spec fn is_white_space(c: char) -> bool {
    ||| ('\t' <= c && c <= '\r')
    ||| c == ' '
    ||| c == '\u{85}'
    ||| c == '\u{a0}'
    ||| c == '\u{1680}'
    ||| ('\u{2000}' <= c && c <= '\u{200a}')
    ||| c == '\u{2028}'
    ||| c == '\u{2029}'
    ||| c == '\u{202f}'
    ||| c == '\u{205f}'
    ||| c == '\u{3000}'
}

/// Whether `c` is whitespace.
pub fn is_white_space_char(c: char) -> (r: bool)
    ensures
        r == is_white_space(c),
{
    ('\t' <= c && c <= '\r') || c == ' ' || c == '\u{85}' || c == '\u{a0}' || c == '\u{1680}'
        || ('\u{2000}' <= c && c <= '\u{200a}') || c == '\u{2028}' || c == '\u{2029}'
        || c == '\u{202f}' || c == '\u{205f}' || c == '\u{3000}'
}

/// `s` without its leading whitespace.
pub open spec fn trim_start_ws(s: Seq<char>) -> Seq<char>
    decreases s.len(),
{
    if s.len() > 0 && is_white_space(s[0]) {
        trim_start_ws(s.drop_first())
    } else {
        s
    }
}

/// `s` without its trailing whitespace.
pub open spec fn trim_end_ws(s: Seq<char>) -> Seq<char>
    decreases s.len(),
{
    if s.len() > 0 && is_white_space(s.last()) {
        trim_end_ws(s.drop_last())
    } else {
        s
    }
}

/// `s` without leading and trailing whitespace, as `str::trim` gives it.
pub open spec fn trimmed(s: Seq<char>) -> Seq<char> {
    trim_end_ws(trim_start_ws(s))
}

proof fn lemma_trim_start_clean(s: Seq<char>)
    ensures
        trim_start_ws(s).len() == 0 || !is_white_space(trim_start_ws(s)[0]),
        trim_start_ws(s).len() <= s.len(),
        trim_start_ws(s) == s.skip(s.len() - trim_start_ws(s).len()),
        forall|j: int| 0 <= j < s.len() - trim_start_ws(s).len() ==> is_white_space(#[trigger] s[j]),
    decreases s.len(),
{
    if s.len() > 0 && is_white_space(s[0]) {
        lemma_trim_start_clean(s.drop_first());
        let t = trim_start_ws(s.drop_first());
        assert(s.drop_first().skip(s.drop_first().len() - t.len()) == s.skip(s.len() - t.len()));
        assert forall|j: int| 0 <= j < s.len() - t.len() implies is_white_space(#[trigger] s[j]) by {
            if j > 0 {
                assert(s[j] == s.drop_first()[j - 1]);
            }
        }
    } else {
        assert(s.skip(0) == s);
    }
}

proof fn lemma_trim_end_clean(s: Seq<char>)
    ensures
        trim_end_ws(s).len() == 0 || !is_white_space(trim_end_ws(s).last()),
        trim_end_ws(s).len() <= s.len(),
        trim_end_ws(s) == s.take(trim_end_ws(s).len() as int),
        forall|j: int| trim_end_ws(s).len() <= j < s.len() ==> is_white_space(#[trigger] s[j]),
    decreases s.len(),
{
    if s.len() > 0 && is_white_space(s.last()) {
        lemma_trim_end_clean(s.drop_last());
        let t = trim_end_ws(s.drop_last());
        assert(s.drop_last().take(t.len() as int) == s.take(t.len() as int));
        assert forall|j: int| t.len() <= j < s.len() implies is_white_space(#[trigger] s[j]) by {
            if j < s.len() - 1 {
                assert(s[j] == s.drop_last()[j]);
            }
        }
    } else {
        assert(s.take(s.len() as int) == s);
    }
}

/// Whether every character of `s` is whitespace.
pub open spec fn all_white(s: Seq<char>) -> bool {
    forall|j: int| 0 <= j < s.len() ==> is_white_space(#[trigger] s[j])
}

/// Whether `t` is what is left of `s` when whitespace, and only whitespace,
/// is taken off its two ends, all of it: `t` is a contiguous part of `s`,
/// everything before and after it is whitespace, and `t` neither begins nor
/// ends with whitespace.
pub open spec fn is_outer_trim(s: Seq<char>, t: Seq<char>) -> bool {
    &&& t.len() == 0 || (!is_white_space(t[0]) && !is_white_space(t.last()))
    &&& exists|k: int|
        #![trigger s.take(k)]
        0 <= k && k + t.len() <= s.len() && all_white(s.take(k)) && s.subrange(k, k + t.len()) == t
            && all_white(s.skip(k + t.len()))
}

/// Trimming takes whitespace, and only whitespace, off both ends: the result
/// is a contiguous part of the text with nothing but whitespace around it,
/// and it neither begins nor ends with whitespace.
pub proof fn lemma_trimmed_is_outer_trim(s: Seq<char>)
    ensures
        is_outer_trim(s, trimmed(s)),
{
    let a = trim_start_ws(s);
    lemma_trim_start_clean(s);
    lemma_trim_end_clean(a);
    lemma_trimmed_clean(s);
    let t = trim_end_ws(a);
    let k = s.len() - a.len();
    assert(s.subrange(k, k + t.len()) == t) by {
        assert(a.take(t.len() as int) == s.subrange(k, k + t.len()));
    }
    assert(all_white(s.take(k))) by {
        assert forall|j: int| 0 <= j < s.take(k).len() implies is_white_space(#[trigger] s.take(k)[j]) by {
            assert(s.take(k)[j] == s[j]);
        }
    }
    assert(all_white(s.skip(k + t.len()))) by {
        assert forall|j: int| 0 <= j < s.skip(k + t.len()).len() implies is_white_space(
            #[trigger] s.skip(k + t.len())[j],
        ) by {
            assert(s.skip(k + t.len())[j] == a[t.len() + j]);
        }
    }
}

proof fn lemma_trim_start_after_white(s: Seq<char>, k: int)
    requires
        0 <= k <= s.len(),
        all_white(s.take(k)),
        k == s.len() || !is_white_space(s[k]),
    ensures
        trim_start_ws(s) == s.skip(k),
    decreases k,
{
    if k == 0 {
        assert(s.skip(0) == s);
    } else {
        assert(s.take(k)[0] == s[0]);
        let d = s.drop_first();
        assert(all_white(d.take(k - 1))) by {
            assert forall|j: int| 0 <= j < d.take(k - 1).len() implies is_white_space(#[trigger] d.take(k - 1)[j]) by {
                assert(d.take(k - 1)[j] == s.take(k)[j + 1]);
            }
        }
        if k < s.len() {
            assert(d[k - 1] == s[k]);
        }
        lemma_trim_start_after_white(d, k - 1);
        assert(d.skip(k - 1) == s.skip(k));
    }
}

proof fn lemma_trim_end_before_white(s: Seq<char>, m: int)
    requires
        0 <= m <= s.len(),
        all_white(s.skip(m)),
        m == 0 || !is_white_space(s[m - 1]),
    ensures
        trim_end_ws(s) == s.take(m),
    decreases s.len() - m,
{
    if m == s.len() {
        assert(s.take(m) == s);
    } else {
        assert(s.skip(m)[s.len() - 1 - m] == s.last());
        let d = s.drop_last();
        assert(all_white(d.skip(m))) by {
            assert forall|j: int| 0 <= j < d.skip(m).len() implies is_white_space(#[trigger] d.skip(m)[j]) by {
                assert(d.skip(m)[j] == s.skip(m)[j]);
            }
        }
        if m > 0 {
            assert(d[m - 1] == s[m - 1]);
        }
        lemma_trim_end_before_white(d, m);
        assert(d.take(m) == s.take(m));
    }
}

/// Only one text is what is left of `s` when its outer whitespace is taken
/// off, and trimming gives that text: whatever `t` is a contiguous part of
/// `s` with only whitespace around it, and neither begins nor ends with
/// whitespace, is the trimmed text.
pub proof fn lemma_outer_trim_is_trimmed(s: Seq<char>, t: Seq<char>)
    requires
        is_outer_trim(s, t),
    ensures
        t == trimmed(s),
{
    let k = choose|k: int|
        #![trigger s.take(k)]
        0 <= k && k + t.len() <= s.len() && all_white(s.take(k)) && s.subrange(k, k + t.len()) == t
            && all_white(s.skip(k + t.len()));
    if t.len() == 0 {
        assert(all_white(s)) by {
            assert forall|j: int| 0 <= j < s.len() implies is_white_space(#[trigger] s[j]) by {
                if j < k {
                    assert(s.take(k)[j] == s[j]);
                } else {
                    assert(s.skip(k)[j - k] == s[j]);
                }
            }
        }
        assert(s.take(s.len() as int) == s);
        lemma_trim_start_after_white(s, s.len() as int);
        assert(s.skip(s.len() as int) == Seq::<char>::empty());
    } else {
        assert(s[k] == t[0]);
        lemma_trim_start_after_white(s, k);
        let a = s.skip(k);
        assert(all_white(a.skip(t.len() as int))) by {
            assert(a.skip(t.len() as int) == s.skip(k + t.len()));
        }
        assert(a[t.len() - 1] == t.last());
        lemma_trim_end_before_white(a, t.len() as int);
        assert(a.take(t.len() as int) == t);
    }
}

/// Text that neither begins nor ends with whitespace is left as it is by
/// trimming, whatever it holds inside, newlines included.
pub proof fn lemma_trim_keeps_clean_text(s: Seq<char>)
    requires
        s.len() == 0 || (!is_white_space(s[0]) && !is_white_space(s.last())),
    ensures
        trimmed(s) == s,
{
    lemma_trim_start_of_clean(s);
    lemma_trim_end_of_clean(s);
}

proof fn lemma_trim_start_of_clean(s: Seq<char>)
    requires
        s.len() == 0 || !is_white_space(s[0]),
    ensures
        trim_start_ws(s) == s,
{
}

proof fn lemma_trim_end_of_clean(s: Seq<char>)
    requires
        s.len() == 0 || !is_white_space(s.last()),
    ensures
        trim_end_ws(s) == s,
{
}

/// Trimmed text neither begins nor ends with whitespace, and trimming it
/// again changes nothing.
pub proof fn lemma_trimmed_clean(s: Seq<char>)
    ensures
        trimmed(s).len() == 0 || (!is_white_space(trimmed(s)[0]) && !is_white_space(trimmed(s).last())),
        trimmed(trimmed(s)) == trimmed(s),
{
    let a = trim_start_ws(s);
    lemma_trim_start_clean(s);
    lemma_trim_end_clean(a);
    let t = trim_end_ws(a);
    if t.len() > 0 {
        assert(t[0] == a.take(t.len() as int)[0]);
    }
    lemma_trim_start_of_clean(t);
    lemma_trim_end_of_clean(t);
}

/// `s` with leading and trailing whitespace removed.
pub fn trim(s: &str) -> (r: String)
    ensures
        r@ == trimmed(s@),
{
    let v = chars_of(s);
    let n = v.len();
    let mut lo: usize = 0;
    assert(v@.skip(0) == v@);
    while lo < n && is_white_space_char(v[lo])
        invariant
            v@ == s@,
            n == v.len(),
            lo <= n,
            trim_start_ws(v@) == trim_start_ws(v@.skip(lo as int)),
        decreases n - lo,
    {
        assert(v@.skip(lo as int).drop_first() == v@.skip(lo + 1));
        lo = lo + 1;
    }
    assert(trim_start_ws(v@) == v@.subrange(lo as int, n as int)) by {
        assert(v@.skip(lo as int) == v@.subrange(lo as int, n as int));
    }
    let mut hi: usize = n;
    while hi > lo && is_white_space_char(v[hi - 1])
        invariant
            v@ == s@,
            n == v.len(),
            lo <= hi <= n,
            trim_end_ws(v@.subrange(lo as int, n as int)) == trim_end_ws(
                v@.subrange(lo as int, hi as int),
            ),
        decreases hi,
    {
        assert(v@.subrange(lo as int, hi as int).drop_last() == v@.subrange(
            lo as int,
            hi - 1,
        ));
        hi = hi - 1;
    }
    string_from_chars(&v, lo, hi)
}

/// `s` with every trailing `c` removed, as `str::trim_end_matches(c)` gives it.
pub open spec fn strip_trailing(s: Seq<char>, c: char) -> Seq<char>
    decreases s.len(),
{
    if s.len() > 0 && s.last() == c {
        strip_trailing(s.drop_last(), c)
    } else {
        s
    }
}

/// After removing every trailing `c`, the text does not end with `c`, and it
/// is the beginning of the text it came from.
pub proof fn lemma_strip_trailing_clean(s: Seq<char>, c: char)
    ensures
        strip_trailing(s, c).len() == 0 || strip_trailing(s, c).last() != c,
        strip_trailing(s, c).is_prefix_of(s),
    decreases s.len(),
{
    if s.len() > 0 && s.last() == c {
        lemma_strip_trailing_clean(s.drop_last(), c);
        let t = strip_trailing(s.drop_last(), c);
        assert(s.drop_last().take(t.len() as int) == s.take(t.len() as int));
    } else {
        assert(s.take(s.len() as int) == s);
    }
}

/// `s` with every trailing `c` removed.
pub fn trim_end_matches_char(s: &str, c: char) -> (r: String)
    ensures
        r@ == strip_trailing(s@, c),
{
    let v = chars_of(s);
    let mut hi: usize = v.len();
    assert(v@.subrange(0, hi as int) == v@);
    while hi > 0 && v[hi - 1] == c
        invariant
            v@ == s@,
            hi <= v.len(),
            strip_trailing(v@, c) == strip_trailing(v@.subrange(0, hi as int), c),
        decreases hi,
    {
        assert(v@.subrange(0, hi as int).drop_last() == v@.subrange(0, hi - 1));
        hi = hi - 1;
    }
    string_from_chars(&v, 0, hi)
}

/// Filtering a sequence with one more element at its end keeps that
/// element at the end exactly when it passes the test.
pub proof fn lemma_filter_push<A>(x: Seq<A>, e: A, p: spec_fn(A) -> bool)
    ensures
        x.push(e).filter(p) == (if p(e) { x.filter(p).push(e) } else { x.filter(p) }),
{
    reveal(Seq::filter);
    assert(x.push(e).drop_last() == x);
}

/// The views of a sequence of strings.
pub open spec fn views(v: Seq<String>) -> Seq<Seq<char>> {
    v.map_values(|x: String| x@)
}

/// The fields of `s` between occurrences of `sep`, as `str::split(sep)`
/// yields them: always at least one field, and empty fields kept.
pub open spec fn split_on(s: Seq<char>, sep: char) -> Seq<Seq<char>>
    decreases s.len(),
{
    if s.len() == 0 {
        seq![Seq::<char>::empty()]
    } else {
        let front = split_on(s.drop_last(), sep);
        if s.last() == sep {
            front.push(Seq::<char>::empty())
        } else {
            front.update(front.len() - 1, front.last().push(s.last()))
        }
    }
}

/// `split_on` never yields an empty list of fields.
pub proof fn lemma_split_on_nonempty(s: Seq<char>, sep: char)
    ensures
        split_on(s, sep).len() >= 1,
    decreases s.len(),
{
    if s.len() > 0 {
        lemma_split_on_nonempty(s.drop_last(), sep);
    }
}

/// The fields of `s` between occurrences of `sep`.
pub fn split_char(s: &str, sep: char) -> (r: Vec<String>)
    ensures
        views(r@) == split_on(s@, sep),
{
    let v = chars_of(s);
    let n = v.len();
    let mut done: Vec<String> = Vec::new();
    let mut cur = String::new();
    let mut i: usize = 0;
    assert(v@.take(0) == Seq::<char>::empty());
    while i < n
        invariant
            v@ == s@,
            n == v.len(),
            i <= n,
            split_on(v@.take(i as int), sep) == views(done@).push(cur@),
        decreases n - i,
    {
        let c = v[i];
        assert(v@.take(i + 1).drop_last() == v@.take(i as int));
        assert(v@.take(i + 1).last() == c);
        proof {
            lemma_split_on_nonempty(v@.take(i as int), sep);
        }
        if c == sep {
            let ghost old_done = views(done@);
            done.push(cur);
            cur = String::new();
            assert(views(done@) == old_done.push(views(done@).last()));
        } else {
            let ghost old_done = views(done@);
            push_char(&mut cur, c);
            assert(views(done@) == old_done);
        }
        i = i + 1;
    }
    assert(v@.take(n as int) == v@);
    let ghost d = views(done@);
    done.push(cur);
    assert(views(done@) == d.push(cur@));
    done
}

/// `parts` with `sep` between each two neighbours, as `[String]::join(sep)` gives it.
pub open spec fn join_with(parts: Seq<Seq<char>>, sep: Seq<char>) -> Seq<char>
    decreases parts.len(),
{
    if parts.len() == 0 {
        Seq::<char>::empty()
    } else if parts.len() == 1 {
        parts[0]
    } else {
        join_with(parts.drop_last(), sep) + sep + parts.last()
    }
}

/// The strings of `parts` with `sep` between each two neighbours.
pub fn join_strings(parts: &Vec<String>, sep: &str) -> (r: String)
    ensures
        r@ == join_with(views(parts@), sep@),
{
    let mut r = String::new();
    let mut i: usize = 0;
    while i < parts.len()
        invariant
            i <= parts.len(),
            r@ == join_with(views(parts@).take(i as int), sep@),
        decreases parts.len() - i,
    {
        assert(views(parts@).take(i + 1).drop_last() == views(parts@).take(i as int));
        if i != 0 {
            r.append(sep);
        }
        r.append(parts[i].as_str());
        i = i + 1;
    }
    assert(views(parts@).take(parts.len() as int) == views(parts@));
    r
}

/// Whether `p` occurs in `s` starting at index `i`.
pub open spec fn occurs_at(s: Seq<char>, p: Seq<char>, i: int) -> bool {
    0 <= i && i + p.len() <= s.len() && s.subrange(i, i + p.len()) == p
}

/// Whether `p` occurs somewhere in `s`, as `str::contains(p)` tells it.
pub open spec fn occurs_in(s: Seq<char>, p: Seq<char>) -> bool {
    exists|i: int| occurs_at(s, p, i)
}

/// `s` with each occurrence of `p`, taken left to right without overlap,
/// replaced by `r`, as `str::replace(p, r)` gives it. An empty `p` occurs
/// before each character and at the end.
pub open spec fn replace_all(s: Seq<char>, p: Seq<char>, r: Seq<char>) -> Seq<char>
    decreases s.len(),
{
    if p.len() == 0 {
        if s.len() == 0 {
            r
        } else {
            r + seq![s[0]] + replace_all(s.drop_first(), p, r)
        }
    } else if s.len() < p.len() {
        s
    } else if s.take(p.len() as int) == p {
        r + replace_all(s.skip(p.len() as int), p, r)
    } else {
        seq![s[0]] + replace_all(s.drop_first(), p, r)
    }
}

/// Replacing a pattern that does not occur leaves the text as it was.
pub proof fn lemma_replace_absent(s: Seq<char>, p: Seq<char>, r: Seq<char>)
    requires
        !occurs_in(s, p),
    ensures
        replace_all(s, p, r) == s,
    decreases s.len(),
{
    if p.len() == 0 {
        assert(s.subrange(0, 0) == p);
        assert(occurs_at(s, p, 0));
    } else if s.len() < p.len() {
    } else {
        if s.take(p.len() as int) == p {
            assert(occurs_at(s, p, 0));
        }
        assert forall|i: int| !occurs_at(s.drop_first(), p, i) by {
            if occurs_at(s.drop_first(), p, i) {
                assert(s.subrange(i + 1, i + 1 + p.len()) == s.drop_first().subrange(i, i + p.len()));
                assert(occurs_at(s, p, i + 1));
            }
        }
        lemma_replace_absent(s.drop_first(), p, r);
        assert(s == seq![s[0]] + s.drop_first());
    }
}

/// Whether `p` occurs in `v` at index `i`.
fn matches_at(v: &Vec<char>, p: &Vec<char>, i: usize) -> (b: bool)
    ensures
        b == occurs_at(v@, p@, i as int),
{
    if i > v.len() || p.len() > v.len() - i {
        return false;
    }
    let mut k: usize = 0;
    while k < p.len()
        invariant
            i + p.len() <= v.len(),
            k <= p.len(),
            forall|j: int| 0 <= j < k ==> v@[i + j] == p@[j],
        decreases p.len() - k,
    {
        if v[i + k] != p[k] {
            assert(v@.subrange(i as int, i + p.len())[k as int] != p@[k as int]);
            return false;
        }
        k = k + 1;
    }
    assert(v@.subrange(i as int, i + p.len()) == p@);
    true
}

/// Whether `pat` occurs in `s`.
pub fn contains_text(s: &str, pat: &str) -> (b: bool)
    ensures
        b == occurs_in(s@, pat@),
{
    let v = chars_of(s);
    let p = chars_of(pat);
    if p.len() == 0 {
        assert(v@.subrange(0, 0) == p@);
        assert(occurs_at(v@, p@, 0));
        return true;
    }
    let mut i: usize = 0;
    while i < v.len()
        invariant
            v@ == s@,
            p@ == pat@,
            p.len() > 0,
            forall|j: int| 0 <= j < i ==> !occurs_at(v@, p@, j),
        decreases v.len() - i,
    {
        if matches_at(&v, &p, i) {
            return true;
        }
        i = i + 1;
    }
    assert forall|j: int| !occurs_at(v@, p@, j) by {
        if j >= i {
            assert(!occurs_at(v@, p@, j));
        }
    }
    false
}

/// `s` with each occurrence of `pat` replaced by `rep`.
pub fn replace_text(s: &str, pat: &str, rep: &str) -> (r: String)
    ensures
        r@ == replace_all(s@, pat@, rep@),
{
    let v = chars_of(s);
    let p = chars_of(pat);
    let n = v.len();
    let m = p.len();
    let mut r = String::new();
    let mut i: usize = 0;
    assert(v@.skip(0) == v@);
    if m == 0 {
        while i < n
            invariant
                v@ == s@,
                p@ == pat@,
                n == v.len(),
                m == p.len(),
                m == 0,
                i <= n,
                replace_all(v@, p@, rep@) == r@ + replace_all(v@.skip(i as int), p@, rep@),
            decreases n - i,
        {
            assert(v@.skip(i as int).drop_first() == v@.skip(i + 1));
            assert(v@.skip(i as int)[0] == v@[i as int]);
            r.append(rep);
            push_char(&mut r, v[i]);
            i = i + 1;
        }
        assert(v@.skip(n as int) == Seq::<char>::empty());
        r.append(rep);
        return r;
    }
    while i < n
        invariant
            v@ == s@,
            p@ == pat@,
            n == v.len(),
            m == p.len(),
            m > 0,
            i <= n,
            replace_all(v@, p@, rep@) == r@ + replace_all(v@.skip(i as int), p@, rep@),
        decreases n - i,
    {
        let ghost rest = v@.skip(i as int);
        if m > n - i {
            let tail = string_from_chars(&v, i, n);
            assert(tail@ == rest);
            r.append(tail.as_str());
            i = n;
            assert(v@.skip(n as int) == Seq::<char>::empty());
        } else if matches_at(&v, &p, i) {
            assert(rest.take(m as int) == v@.subrange(i as int, i + m));
            assert(rest.skip(m as int) == v@.skip(i + m));
            r.append(rep);
            i = i + m;
        } else {
            assert(rest.take(m as int) == v@.subrange(i as int, i + m));
            assert(rest.drop_first() == v@.skip(i + 1));
            push_char(&mut r, v[i]);
            i = i + 1;
        }
    }
    assert(v@.skip(n as int) == Seq::<char>::empty());
    r
}

/// Appending text without the separator extends the last field alone.
pub proof fn lemma_split_on_append_free(x: Seq<char>, n: Seq<char>, sep: char)
    requires
        !n.contains(sep),
    ensures
        split_on(x + n, sep) == split_on(x, sep).update(
            split_on(x, sep).len() - 1,
            split_on(x, sep).last() + n,
        ),
    decreases n.len(),
{
    lemma_split_on_nonempty(x, sep);
    let f = split_on(x, sep);
    if n.len() == 0 {
        assert(x + n == x);
        assert(f.last() + n == f.last());
        assert(f.update(f.len() - 1, f.last()) == f);
    } else {
        let m = n.drop_last();
        assert(!m.contains(sep)) by {
            if m.contains(sep) {
                let k = choose|k: int| 0 <= k < m.len() && m[k] == sep;
                assert(n[k] == sep);
            }
        }
        assert(n[n.len() - 1] != sep);
        lemma_split_on_append_free(x, m, sep);
        assert((x + n).drop_last() == x + m);
        assert((x + n).last() == n.last());
        lemma_split_on_nonempty(x + m, sep);
        let g = split_on(x + m, sep);
        assert(g.len() == f.len());
        assert(g.last() == f.last() + m);
        assert((f.last() + m).push(n.last()) == f.last() + n);
        assert(split_on(x + n, sep) == g.update(g.len() - 1, g.last().push(n.last())));
        assert(g.update(g.len() - 1, g.last().push(n.last())) == f.update(
            f.len() - 1,
            f.last() + n,
        ));
    }
}

/// Replacing a non-empty pattern in the pattern itself gives the replacement.
pub proof fn lemma_replace_whole(p: Seq<char>, r: Seq<char>)
    requires
        p.len() > 0,
    ensures
        replace_all(p, p, r) == r,
{
    assert(p.take(p.len() as int) == p);
    assert(p.skip(p.len() as int) == Seq::<char>::empty());
    assert(replace_all(Seq::<char>::empty(), p, r) == Seq::<char>::empty());
    assert(r + Seq::<char>::empty() == r);
}

/// Joining the fields of a split with the separator gives the text back.
pub proof fn lemma_join_of_split(s: Seq<char>, sep: char)
    ensures
        join_with(split_on(s, sep), seq![sep]) == s,
    decreases s.len(),
{
    lemma_split_on_nonempty(s, sep);
    if s.len() == 0 {
        assert(split_on(s, sep) == seq![Seq::<char>::empty()]);
    } else {
        let t = s.drop_last();
        let ch = s.last();
        lemma_join_of_split(t, sep);
        lemma_split_on_nonempty(t, sep);
        let f = split_on(t, sep);
        assert(s == t.push(ch));
        if ch == sep {
            let g = f.push(Seq::<char>::empty());
            assert(g.drop_last() == f);
            assert(join_with(g, seq![sep]) == join_with(f, seq![sep]) + seq![sep] + Seq::<char>::empty());
        } else {
            let g = f.update(f.len() - 1, f.last().push(ch));
            if f.len() == 1 {
                assert(join_with(f, seq![sep]) == f[0]);
                assert(join_with(g, seq![sep]) == g[0]);
            } else {
                assert(g.drop_last() == f.drop_last());
                assert(join_with(g, seq![sep]) == join_with(f.drop_last(), seq![sep]) + seq![sep] + f.last().push(ch));
                assert(join_with(f, seq![sep]) == join_with(f.drop_last(), seq![sep]) + seq![sep] + f.last());
            }
        }
    }
}

/// Every part occurs in the joined text, where it begins after the parts
/// before it and their separators.
pub proof fn lemma_join_holds_every_part(parts: Seq<Seq<char>>, sep: Seq<char>, i: int)
    requires
        0 <= i < parts.len(),
    ensures
        occurs_in(join_with(parts, sep), parts[i]),
    decreases parts.len(),
{
    let j = join_with(parts, sep);
    if parts.len() == 1 {
        assert(j.subrange(0, parts[0].len() as int) == parts[0]);
        assert(occurs_at(j, parts[i], 0));
    } else if i == parts.len() - 1 {
        let k = j.len() - parts.last().len();
        assert(j.subrange(k, k + parts[i].len()) == parts[i]);
        assert(occurs_at(j, parts[i], k));
    } else {
        let front = parts.drop_last();
        assert(front[i] == parts[i]);
        lemma_join_holds_every_part(front, sep, i);
        let jf = join_with(front, sep);
        let k = choose|k: int| occurs_at(jf, parts[i], k);
        assert(j.subrange(k, k + parts[i].len()) == jf.subrange(k, k + parts[i].len()));
        assert(occurs_at(j, parts[i], k));
    }
}

} // verus!
