//! Character-level string operations with exact specifications.
//!
//! Every operation here works on the `Seq<char>` view of a string.  The
//! specifications mirror the behaviour of the corresponding `str` methods
//! (`trim`, `trim_end_matches`, `trim_start_matches`, `starts_with`,
//! `contains`, `replace`, `split_whitespace`, `split`).

use vstd::prelude::*;

verus! {

// ───────────────────────── specifications ─────────────────────────

/// Unicode `White_Space`, the set that `char::is_whitespace` tests.
pub open spec fn is_ws(c: char) -> bool {
    let u = c as u32;
    ||| 9 <= u <= 13
    ||| u == 32
    ||| u == 0x85
    ||| u == 0xA0
    ||| u == 0x1680
    ||| 0x2000 <= u <= 0x200A
    ||| u == 0x2028
    ||| u == 0x2029
    ||| u == 0x202F
    ||| u == 0x205F
    ||| u == 0x3000
}

/// `s` without its leading whitespace.
pub open spec fn trim_start(s: Seq<char>) -> Seq<char>
    decreases s.len(),
{
    if s.len() > 0 && is_ws(s[0]) {
        trim_start(s.drop_first())
    } else {
        s
    }
}

/// `s` without its trailing whitespace.
pub open spec fn trim_end(s: Seq<char>) -> Seq<char>
    decreases s.len(),
{
    if s.len() > 0 && is_ws(s.last()) {
        trim_end(s.drop_last())
    } else {
        s
    }
}

/// `s` without leading and trailing whitespace (`str::trim`).
pub open spec fn trim(s: Seq<char>) -> Seq<char> {
    trim_end(trim_start(s))
}

/// `s` without any trailing occurrences of `c` (`str::trim_end_matches(c)`).
pub open spec fn trim_end_char(s: Seq<char>, c: char) -> Seq<char>
    decreases s.len(),
{
    if s.len() > 0 && s.last() == c {
        trim_end_char(s.drop_last(), c)
    } else {
        s
    }
}

/// `p` is a prefix of `s`.
pub open spec fn starts_with(s: Seq<char>, p: Seq<char>) -> bool {
    p.len() <= s.len() && s.take(p.len() as int) == p
}

/// `s` with the repeated prefix `p` removed (`str::trim_start_matches(p)`).
pub open spec fn trim_start_pat(s: Seq<char>, p: Seq<char>) -> Seq<char>
    decreases s.len(),
{
    if p.len() > 0 && starts_with(s, p) {
        trim_start_pat(s.skip(p.len() as int), p)
    } else {
        s
    }
}

/// `p` occurs somewhere in `s`.
pub open spec fn contains(s: Seq<char>, p: Seq<char>) -> bool {
    exists|i: int| 0 <= i && i + p.len() <= s.len() && #[trigger] s.subrange(i, i + p.len()) == p
}

/// Every non-overlapping occurrence of `p` in `s`, scanning from the left,
/// replaced by `r` (`str::replace` with a non-empty pattern).
pub open spec fn replace(s: Seq<char>, p: Seq<char>, r: Seq<char>) -> Seq<char>
    decreases s.len(),
{
    if p.len() == 0 || s.len() == 0 {
        s
    } else if starts_with(s, p) {
        r + replace(s.skip(p.len() as int), p, r)
    } else {
        seq![s[0]] + replace(s.drop_first(), p, r)
    }
}

/// The part of `s` after the last `c`, or all of `s` where there is none
/// (the last piece of `str::split(c)`).
pub open spec fn after_last(s: Seq<char>, c: char) -> Seq<char>
    decreases s.len(),
{
    if s.len() == 0 {
        s
    } else if s.last() == c {
        Seq::empty()
    } else {
        after_last(s.drop_last(), c).push(s.last())
    }
}

/// The part of `s` before the first `c`, or all of `s` where there is none
/// (the first piece of `str::split(c)`).
pub open spec fn before_first(s: Seq<char>, c: char) -> Seq<char>
    decreases s.len(),
{
    if s.len() == 0 {
        s
    } else if s[0] == c {
        Seq::empty()
    } else {
        seq![s[0]] + before_first(s.drop_first(), c)
    }
}

/// The maximal runs of non-whitespace characters of `s`, in order
/// (`str::split_whitespace`).
pub open spec fn words(s: Seq<char>) -> Seq<Seq<char>>
    decreases s.len(),
{
    if s.len() == 0 {
        Seq::empty()
    } else if is_ws(s.last()) {
        words(s.drop_last())
    } else {
        let w = words(s.drop_last());
        if s.len() == 1 || is_ws(s[s.len() - 2]) {
            w.push(seq![s.last()])
        } else {
            w.update(w.len() - 1, w.last().push(s.last()))
        }
    }
}

/// The pieces of `s` between occurrences of `c` (`str::split(c)`); there is
/// always at least one piece.
pub open spec fn split_on(s: Seq<char>, c: char) -> Seq<Seq<char>>
    decreases s.len(),
{
    if s.len() == 0 {
        seq![Seq::empty()]
    } else {
        let w = split_on(s.drop_last(), c);
        if s.last() == c {
            w.push(Seq::empty())
        } else {
            w.update(w.len() - 1, w.last().push(s.last()))
        }
    }
}

/// The views of a sequence of strings.
pub open spec fn views(v: Seq<String>) -> Seq<Seq<char>> {
    v.map_values(|w: String| w@)
}

// ───────────────────────── lemmas ─────────────────────────

proof fn lemma_trim_start_skip(s: Seq<char>, i: int)
    requires
        0 <= i <= s.len(),
        forall|k: int| 0 <= k < i ==> is_ws(#[trigger] s[k]),
        i == s.len() || !is_ws(s[i]),
    ensures
        trim_start(s) == s.skip(i),
    decreases i,
{
    if i == 0 {
        assert(s.skip(0) == s);
    } else {
        let t = s.drop_first();
        assert forall|k: int| 0 <= k < i - 1 implies is_ws(#[trigger] t[k]) by {
            assert(t[k] == s[k + 1]);
        }
        lemma_trim_start_skip(t, i - 1);
        assert(t.skip(i - 1) == s.skip(i));
    }
}

proof fn lemma_trim_end_take(s: Seq<char>, j: int)
    requires
        0 <= j <= s.len(),
        forall|k: int| j <= k < s.len() ==> is_ws(#[trigger] s[k]),
        j == 0 || !is_ws(s[j - 1]),
    ensures
        trim_end(s) == s.take(j),
    decreases s.len() - j,
{
    if j == s.len() {
        assert(s.take(j) == s);
    } else {
        let t = s.drop_last();
        assert forall|k: int| j <= k < t.len() implies is_ws(#[trigger] t[k]) by {
            assert(t[k] == s[k]);
        }
        lemma_trim_end_take(t, j);
        assert(t.take(j) == s.take(j));
    }
}

proof fn lemma_trim_end_char_take(s: Seq<char>, c: char, j: int)
    requires
        0 <= j <= s.len(),
        forall|k: int| j <= k < s.len() ==> #[trigger] s[k] == c,
        j == 0 || s[j - 1] != c,
    ensures
        trim_end_char(s, c) == s.take(j),
    decreases s.len() - j,
{
    if j == s.len() {
        assert(s.take(j) == s);
    } else {
        let t = s.drop_last();
        assert forall|k: int| j <= k < t.len() implies #[trigger] t[k] == c by {
            assert(t[k] == s[k]);
        }
        lemma_trim_end_char_take(t, c, j);
        assert(t.take(j) == s.take(j));
    }
}

proof fn lemma_trim_start_shape(s: Seq<char>)
    ensures
        trim_start(s).len() == 0 || !is_ws(trim_start(s)[0]),
    decreases s.len(),
{
    if s.len() > 0 && is_ws(s[0]) {
        lemma_trim_start_shape(s.drop_first());
    }
}

proof fn lemma_trim_end_shape(s: Seq<char>)
    ensures
        trim_end(s).len() == 0 || !is_ws(trim_end(s).last()),
        trim_end(s).len() <= s.len(),
        trim_end(s) == s.take(trim_end(s).len() as int),
    decreases s.len(),
{
    if s.len() > 0 && is_ws(s.last()) {
        lemma_trim_end_shape(s.drop_last());
        let t = trim_end(s.drop_last());
        assert(s.drop_last().take(t.len() as int) == s.take(t.len() as int));
    } else {
        assert(s.take(s.len() as int) == s);
    }
}

/// Trimming twice trims no more than trimming once.
pub proof fn lemma_trim_idempotent(s: Seq<char>)
    ensures
        trim(trim(s)) == trim(s),
{
    let x = trim_start(s);
    lemma_trim_start_shape(s);
    lemma_trim_end_shape(x);
    let y = trim_end(x);
    if y.len() > 0 {
        assert(y[0] == x[0]);
    }
    assert(trim_start(y) == y);
    lemma_trim_end_shape(y);
    assert(trim_end(y) == y);
}

// ───────────────────────── building blocks ─────────────────────────

/// Appends one character to a `String` (std `String::push`).
/// Claims: the new contents are the old contents followed by `c`.
#[verifier::external_body]
fn push_char(s: &mut String, c: char)
    ensures
        final(s)@ == old(s)@.push(c),
{
    s.push(c);
}

/// The characters of `s`, in order.
pub fn chars_of(s: &str) -> (v: Vec<char>)
    ensures
        v@ == s@,
{
    let mut v: Vec<char> = Vec::new();
    for c in it: s.chars()
        invariant
            v@ == it.seq().take(it.index() as int),
            it.seq() == s@,
    {
        v.push(c);
    }
    v
}

/// Appends the characters of `s` to `v`.
pub fn push_str(v: &mut Vec<char>, s: &str)
    ensures
        final(v)@ == old(v)@ + s@,
{
    let ghost start = v@;
    for c in it: s.chars()
        invariant
            v@ == start + it.seq().take(it.index() as int),
            it.seq() == s@,
    {
        v.push(c);
        assert(it.seq().take(it.index() + 1) == it.seq().take(it.index() as int).push(c));
    }
    assert(s@.take(s@.len() as int) == s@);
}

/// A `String` holding exactly the characters `v`.
pub fn string_of(v: &Vec<char>) -> (s: String)
    ensures
        s@ == v@,
{
    string_of_range(v, 0, v.len())
}

/// A `String` holding exactly the characters `v[from..to]`.
pub fn string_of_range(v: &Vec<char>, from: usize, to: usize) -> (s: String)
    requires
        from <= to <= v@.len(),
    ensures
        s@ == v@.subrange(from as int, to as int),
{
    let mut s = String::new();
    let mut i = from;
    while i < to
        invariant
            from <= i <= to <= v@.len(),
            s@ == v@.subrange(from as int, i as int),
        decreases to - i,
    {
        push_char(&mut s, v[i]);
        assert(v@.subrange(from as int, i + 1) == v@.subrange(from as int, i as int).push(v@[i as int]));
        i = i + 1;
    }
    s
}

/// A fresh copy of `s`.
pub fn owned(s: &str) -> (r: String)
    ensures
        r@ == s@,
{
    s.to_owned()
}

// ───────────────────────── predicates ─────────────────────────

/// `char::is_whitespace`.
pub fn is_whitespace(c: char) -> (b: bool)
    ensures
        b == is_ws(c),
{
    let u = c as u32;
    (9 <= u && u <= 13) || u == 32 || u == 0x85 || u == 0xA0 || u == 0x1680 || (0x2000 <= u && u
        <= 0x200A) || u == 0x2028 || u == 0x2029 || u == 0x202F || u == 0x205F || u == 0x3000
}

/// Whether the characters `a` and `b` are the same.
pub fn chars_equal(a: &Vec<char>, b: &Vec<char>) -> (r: bool)
    ensures
        r == (a@ == b@),
{
    if a.len() != b.len() {
        return false;
    }
    let n = a.len();
    for i in 0..n
        invariant
            n == a@.len() == b@.len(),
            forall|k: int| 0 <= k < i ==> a@[k] == b@[k],
    {
        if a[i] != b[i] {
            return false;
        }
    }
    assert(a@ =~= b@);
    true
}

/// Whether `a` and `b` hold the same characters.
pub fn str_equal(a: &str, b: &str) -> (r: bool)
    ensures
        r == (a@ == b@),
{
    let va = chars_of(a);
    let vb = chars_of(b);
    chars_equal(&va, &vb)
}

/// Whether `p` occurs in `v` at position `at`.
pub fn matches_at(v: &Vec<char>, p: &Vec<char>, at: usize) -> (r: bool)
    requires
        at <= v@.len(),
    ensures
        r == (at + p@.len() <= v@.len() && v@.subrange(at as int, at + p@.len()) == p@),
{
    if p.len() > v.len() - at {
        return false;
    }
    let n = p.len();
    for k in 0..n
        invariant
            n == p@.len(),
            at + n <= v@.len(),
            at + n <= v.len(),
            forall|j: int| 0 <= j < k ==> v@[at + j] == p@[j],
    {
        if v[at + k] != p[k] {
            assert(v@.subrange(at as int, at + p@.len())[k as int] != p@[k as int]);
            return false;
        }
    }
    assert(v@.subrange(at as int, at + p@.len()) =~= p@);
    true
}

/// `str::starts_with`.
pub fn str_starts_with(s: &str, p: &str) -> (r: bool)
    ensures
        r == starts_with(s@, p@),
{
    let v = chars_of(s);
    let w = chars_of(p);
    let r = matches_at(&v, &w, 0);
    assert(v@.subrange(0, p@.len() as int) == v@.take(p@.len() as int));
    r
}

/// `str::contains` with a string pattern.
pub fn str_contains(s: &str, p: &str) -> (r: bool)
    ensures
        r == contains(s@, p@),
{
    let v = chars_of(s);
    let w = chars_of(p);
    if w.len() > v.len() {
        return false;
    }
    let last = v.len() - w.len();
    let mut i: usize = 0;
    loop
        invariant
            i <= last,
            last + w@.len() == v@.len(),
            v@ == s@,
            w@ == p@,
            forall|k: int| 0 <= k < i ==> #[trigger] v@.subrange(k, k + w@.len()) != w@,
        ensures
            forall|k: int| 0 <= k <= last ==> #[trigger] v@.subrange(k, k + w@.len()) != w@,
        decreases last - i,
    {
        if matches_at(&v, &w, i) {
            return true;
        }
        if i == last {
            break;
        }
        i = i + 1;
    }
    assert forall|k: int| 0 <= k && k + p@.len() <= s@.len() implies #[trigger] s@.subrange(
        k,
        k + p@.len(),
    ) != p@ by {
        assert(k <= last);
    }
    false
}

// ───────────────────────── trimming ─────────────────────────

/// `str::trim`: `s` without leading and trailing whitespace.
pub fn trim_str(s: &str) -> (r: String)
    ensures
        r@ == trim(s@),
{
    let v = chars_of(s);
    let n = v.len();
    let mut i: usize = 0;
    while i < n && is_whitespace(v[i])
        invariant
            i <= n == v@.len(),
            forall|k: int| 0 <= k < i ==> is_ws(#[trigger] v@[k]),
        decreases n - i,
    {
        i = i + 1;
    }
    proof {
        lemma_trim_start_skip(v@, i as int);
    }
    let mut j: usize = n;
    while j > i && is_whitespace(v[j - 1])
        invariant
            i <= j <= n == v@.len(),
            forall|k: int| j <= k < n ==> is_ws(#[trigger] v@[k]),
        decreases j,
    {
        j = j - 1;
    }
    proof {
        let t = v@.skip(i as int);
        let jj = j - i;
        assert forall|k: int| jj <= k < t.len() implies is_ws(#[trigger] t[k]) by {
            assert(t[k] == v@[k + i]);
        }
        if jj > 0 {
            assert(t[jj - 1] == v@[j - 1]);
        }
        lemma_trim_end_take(t, jj);
        assert(t.take(jj) == v@.subrange(i as int, j as int));
    }
    string_of_range(&v, i, j)
}

/// `str::trim_end_matches(c)`: `s` without its trailing `c`s.
pub fn trim_end_matching(s: &str, c: char) -> (r: String)
    ensures
        r@ == trim_end_char(s@, c),
{
    let v = chars_of(s);
    let n = v.len();
    let mut j: usize = n;
    while j > 0 && v[j - 1] == c
        invariant
            j <= n == v@.len(),
            forall|k: int| j <= k < n ==> #[trigger] v@[k] == c,
        decreases j,
    {
        j = j - 1;
    }
    proof {
        lemma_trim_end_char_take(v@, c, j as int);
        assert(v@.take(j as int) == v@.subrange(0, j as int));
    }
    string_of_range(&v, 0, j)
}

/// `str::trim_start_matches(p)` for a non-empty pattern.
pub fn trim_start_matching(s: &str, p: &str) -> (r: String)
    requires
        p@.len() > 0,
    ensures
        r@ == trim_start_pat(s@, p@),
{
    let v = chars_of(s);
    let w = chars_of(p);
    let n = v.len();
    let mut i: usize = 0;
    assert(v@.skip(0) == v@);
    while matches_at(&v, &w, i)
        invariant
            i <= n == v@.len(),
            w@ == p@,
            w@.len() > 0,
            trim_start_pat(v@.skip(i as int), p@) == trim_start_pat(s@, p@),
            v@ == s@,
        decreases n - i,
    {
        proof {
            let t = v@.skip(i as int);
            assert(t.take(p@.len() as int) == v@.subrange(i as int, i + p@.len()));
            assert(t.skip(p@.len() as int) == v@.skip(i + p@.len()));
        }
        i = i + w.len();
    }
    proof {
        let t = v@.skip(i as int);
        if p@.len() <= t.len() {
            assert(t.take(p@.len() as int) == v@.subrange(i as int, i + p@.len()));
        }
        assert(v@.skip(i as int) == v@.subrange(i as int, n as int));
    }
    string_of_range(&v, i, n)
}

// ───────────────────────── splitting and replacing ─────────────────────────

/// The part of `s` after its last `c` (the last piece of `str::split(c)`).
pub fn after_last_char(s: &str, c: char) -> (r: String)
    ensures
        r@ == after_last(s@, c),
{
    let v = chars_of(s);
    let n = v.len();
    let mut start: usize = 0;
    for i in 0..n
        invariant
            n == v@.len(),
            start <= i,
            after_last(v@.take(i as int), c) == v@.subrange(start as int, i as int),
    {
        assert(v@.take(i + 1).drop_last() == v@.take(i as int));
        if v[i] == c {
            start = i + 1;
        }
        assert(v@.subrange(start as int, i + 1) == (if v@[i as int] == c {
            Seq::empty()
        } else {
            v@.subrange(start as int, i as int).push(v@[i as int])
        }));
    }
    assert(v@.take(n as int) == v@);
    string_of_range(&v, start, n)
}

/// The part of `s` before its first `c` (the first piece of `str::split(c)`).
pub fn before_first_char(s: &str, c: char) -> (r: String)
    ensures
        r@ == before_first(s@, c),
{
    let v = chars_of(s);
    let n = v.len();
    let mut j: usize = 0;
    while j < n && v[j] != c
        invariant
            j <= n == v@.len(),
            forall|k: int| 0 <= k < j ==> #[trigger] v@[k] != c,
        decreases n - j,
    {
        j = j + 1;
    }
    proof {
        lemma_before_first(v@, c, j as int);
    }
    string_of_range(&v, 0, j)
}

proof fn lemma_before_first(s: Seq<char>, c: char, j: int)
    requires
        0 <= j <= s.len(),
        forall|k: int| 0 <= k < j ==> #[trigger] s[k] != c,
        j == s.len() || s[j] == c,
    ensures
        before_first(s, c) == s.subrange(0, j),
    decreases s.len(),
{
    if s.len() == 0 {
    } else if j == 0 {
    } else {
        let t = s.drop_first();
        assert forall|k: int| 0 <= k < j - 1 implies #[trigger] t[k] != c by {
            assert(t[k] == s[k + 1]);
        }
        lemma_before_first(t, c, j - 1);
        assert(seq![s[0]] + t.subrange(0, j - 1) == s.subrange(0, j));
    }
}

/// `str::split_whitespace`, collected.
pub fn split_words(s: &str) -> (r: Vec<String>)
    ensures
        views(r@) == words(s@),
{
    let v = chars_of(s);
    let n = v.len();
    let mut out: Vec<String> = Vec::new();
    let mut cur: Vec<char> = Vec::new();
    let mut in_word = false;
    for i in 0..n
        invariant
            n == v@.len(),
            in_word ==> i > 0 && !is_ws(v@[i - 1]),
            !in_word ==> (i == 0 || is_ws(v@[i - 1])) && cur@.len() == 0,
            words(v@.take(i as int)) == (if in_word {
                views(out@).push(cur@)
            } else {
                views(out@)
            }),
    {
        let ghost pre = v@.take(i as int);
        assert(v@.take(i + 1).drop_last() == pre);
        assert(v@.take(i + 1).last() == v@[i as int]);
        if is_whitespace(v[i]) {
            if in_word {
                let ghost before = out@;
                let w = string_of(&cur);
                out.push(w);
                cur = Vec::new();
                in_word = false;
                assert(out@ == before.push(w));
                assert(views(out@) == views(before).push(w@));
            }
        } else {
            let ghost old_cur = cur@;
            cur.push(v[i]);
            if !in_word {
                assert(i == 0 || is_ws(v@[i - 1]));
                assert(i == 0 || v@.take(i + 1)[i - 1] == v@[i - 1]);
                assert(cur@ =~= seq![v@[i as int]]);
            } else {
                assert(v@.take(i + 1)[i - 1] == v@[i - 1]);
                let ghost ws = views(out@).push(old_cur);
                assert(ws.update(ws.len() - 1, ws.last().push(v@[i as int])) =~= views(out@).push(
                    cur@,
                ));
            }
            in_word = true;
        }
    }
    if in_word {
        let w = string_of(&cur);
        out.push(w);
        assert(out@.drop_last().push(w) == out@);
    }
    assert(v@.take(n as int) == v@);
    out
}

/// `str::split(c)`, collected.
pub fn split_char(s: &str, c: char) -> (r: Vec<String>)
    ensures
        views(r@) == split_on(s@, c),
{
    let v = chars_of(s);
    let n = v.len();
    let mut out: Vec<String> = Vec::new();
    let mut cur: Vec<char> = Vec::new();
    for i in 0..n
        invariant
            n == v@.len(),
            split_on(v@.take(i as int), c) == views(out@).push(cur@),
    {
        assert(v@.take(i + 1).drop_last() == v@.take(i as int));
        assert(v@.take(i + 1).last() == v@[i as int]);
        if v[i] == c {
            let w = string_of(&cur);
            out.push(w);
            cur = Vec::new();
            assert(out@.drop_last().push(w) == out@);
            assert(views(out@) == views(out@.drop_last()).push(w@));
        } else {
            cur.push(v[i]);
        }
    }
    let w = string_of(&cur);
    out.push(w);
    assert(out@.drop_last().push(w) == out@);
    assert(views(out@) == views(out@.drop_last()).push(w@));
    assert(v@.take(n as int) == v@);
    out
}

/// `str::replace(p, r)` for a non-empty pattern.
pub fn replace_all(s: &str, p: &str, r: &str) -> (out: String)
    requires
        p@.len() > 0,
    ensures
        out@ == replace(s@, p@, r@),
{
    let v = chars_of(s);
    let w = chars_of(p);
    let n = v.len();
    let mut acc: Vec<char> = Vec::new();
    let mut i: usize = 0;
    assert(v@.skip(0) == v@);
    assert(Seq::<char>::empty() + v@ == v@);
    while i < n
        invariant
            i <= n == v@.len(),
            v@ == s@,
            w@ == p@,
            p@.len() > 0,
            replace(s@, p@, r@) == acc@ + replace(v@.skip(i as int), p@, r@),
        decreases n - i,
    {
        let ghost t = v@.skip(i as int);
        if matches_at(&v, &w, i) {
            proof {
                assert(t.take(p@.len() as int) == v@.subrange(i as int, i + p@.len()));
                assert(t.skip(p@.len() as int) == v@.skip(i + p@.len()));
                assert(acc@ + (r@ + replace(t.skip(p@.len() as int), p@, r@)) == (acc@ + r@)
                    + replace(t.skip(p@.len() as int), p@, r@));
            }
            push_str(&mut acc, r);
            i = i + w.len();
        } else {
            proof {
                if p@.len() <= t.len() {
                    assert(t.take(p@.len() as int) == v@.subrange(i as int, i + p@.len()));
                }
                assert(t.drop_first() == v@.skip(i + 1));
                assert(t[0] == v@[i as int]);
                assert(acc@ + (seq![t[0]] + replace(t.drop_first(), p@, r@)) == acc@.push(t[0])
                    + replace(t.drop_first(), p@, r@));
            }
            acc.push(v[i]);
            i = i + 1;
        }
    }
    assert(v@.skip(n as int) == Seq::<char>::empty());
    assert(acc@ + Seq::<char>::empty() == acc@);
    string_of(&acc)
}

} // verus!
