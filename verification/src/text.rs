//! Character-level helpers shared by the text-producing modules.

use vstd::prelude::*;

verus! {

broadcast use vstd::string::group_string_axioms;

/// Whether `c` has the Unicode `White_Space` property (PropList.txt), the
/// property `char::is_whitespace` tests.
pub open spec fn unicode_whitespace(c: char) -> bool {
    ||| ('\u{9}' <= c <= '\u{D}')
    ||| c == ' '
    ||| c == '\u{85}'
    ||| c == '\u{A0}'
    ||| c == '\u{1680}'
    ||| ('\u{2000}' <= c <= '\u{200A}')
    ||| c == '\u{2028}'
    ||| c == '\u{2029}'
    ||| c == '\u{202F}'
    ||| c == '\u{205F}'
    ||| c == '\u{3000}'
}

/// Whether `c` is whitespace (has the Unicode `White_Space` property).
pub fn is_whitespace(c: char) -> (res: bool)
    ensures
        res == unicode_whitespace(c),
{
    ('\u{9}' <= c && c <= '\u{D}') || c == ' ' || c == '\u{85}' || c == '\u{A0}' || c
        == '\u{1680}' || ('\u{2000}' <= c && c <= '\u{200A}') || c == '\u{2028}' || c
        == '\u{2029}' || c == '\u{202F}' || c == '\u{205F}' || c == '\u{3000}'
}

/// Calls `String::push`: the string afterwards is the string before with `c` appended.
#[verifier::external_body]
pub(crate) fn push_char(s: &mut String, c: char)
    ensures
        final(s)@ == old(s)@.push(c),
{
    s.push(c)
}

/// The characters of `s`, in order.
pub fn chars_of(s: &str) -> (res: Vec<char>)
    ensures
        res@ == s@,
{
    let mut res: Vec<char> = Vec::new();
    for c in iter: s.chars()
        invariant
            iter.seq() == s@,
            res@ == iter.seq().take(iter.index() as int),
    {
        res.push(c);
    }
    res
}


/// Whether `c` is a hexadecimal digit.
pub open spec fn is_hex_char(c: char) -> bool {
    ('0' <= c <= '9') || ('a' <= c <= 'f') || ('A' <= c <= 'F')
}

/// The value of the hexadecimal digit `c`.
pub open spec fn hex_char_value(c: char) -> int {
    if '0' <= c <= '9' {
        c as int - '0' as int
    } else if 'a' <= c <= 'f' {
        c as int - 'a' as int + 10
    } else {
        c as int - 'A' as int + 10
    }
}

/// The words of `s`: its maximal runs of non-whitespace characters, in order.
pub open spec fn words(s: Seq<char>) -> Seq<Seq<char>>
    decreases s.len(),
{
    if s.len() == 0 {
        Seq::empty()
    } else {
        let prev = words(s.drop_last());
        let c = s.last();
        if unicode_whitespace(c) {
            prev
        } else if s.len() >= 2 && !unicode_whitespace(s[s.len() - 2]) {
            prev.update(prev.len() - 1, prev.last().push(c))
        } else {
            prev.push(seq![c])
        }
    }
}

/// `parts` joined with `sep` between consecutive parts.
pub open spec fn join(parts: Seq<Seq<char>>, sep: Seq<char>) -> Seq<char>
    decreases parts.len(),
{
    if parts.len() == 0 {
        Seq::empty()
    } else if parts.len() == 1 {
        parts[0]
    } else {
        join(parts.drop_last(), sep) + sep + parts.last()
    }
}

/// A string that ends in a non-whitespace character has at least one word.
proof fn lemma_words_nonempty(s: Seq<char>)
    requires
        s.len() > 0,
        !unicode_whitespace(s.last()),
    ensures
        words(s).len() > 0,
    decreases s.len(),
{
    if s.len() >= 2 && !unicode_whitespace(s[s.len() - 2]) {
        lemma_words_nonempty(s.drop_last());
    }
}

proof fn lemma_join_push(parts: Seq<Seq<char>>, p: Seq<char>, sep: Seq<char>)
    ensures
        parts.len() == 0 ==> join(parts.push(p), sep) == p,
        parts.len() > 0 ==> join(parts.push(p), sep) == join(parts, sep) + sep + p,
{
    assert(parts.push(p).drop_last() =~= parts);
}

proof fn lemma_join_extend_last(parts: Seq<Seq<char>>, c: char, sep: Seq<char>)
    requires
        parts.len() > 0,
    ensures
        join(parts.update(parts.len() - 1, parts.last().push(c)), sep) == join(parts, sep).push(c),
{
    let upd = parts.update(parts.len() - 1, parts.last().push(c));
    if parts.len() >= 2 {
        assert(upd.drop_last() =~= parts.drop_last());
        assert(join(upd, sep) =~= join(parts, sep).push(c));
    }
}

/// `text` folded onto one line: its words joined by single spaces, so leading,
/// trailing and repeated whitespace (newlines included) disappear.
pub fn one_line(text: &str) -> (res: String)
    ensures
        res@ == join(words(text@), seq![' ']),
{
    let cs = chars_of(text);
    let mut out = String::new();
    let mut in_word = false;
    let mut has_words = false;
    let mut i: usize = 0;
    while i < cs.len()
        invariant
            cs@ == text@,
            i <= cs@.len(),
            out@ == join(words(cs@.take(i as int)), seq![' ']),
            in_word == (i > 0 && !unicode_whitespace(cs@[i - 1])),
            has_words == (words(cs@.take(i as int)).len() > 0),
        decreases cs@.len() - i,
    {
        let c = cs[i];
        let ghost pre = cs@.take(i as int);
        let ghost next = cs@.take(i + 1);
        proof {
            assert(next.drop_last() =~= pre);
            assert(next.last() == c);
            if i > 0 {
                assert(next[next.len() - 2] == cs@[i - 1]);
            }
        }
        if is_whitespace(c) {
            in_word = false;
        } else if in_word {
            proof {
                assert(pre.last() == cs@[i - 1]);
                lemma_words_nonempty(pre);
                lemma_join_extend_last(words(pre), c, seq![' ']);
            }
            push_char(&mut out, c);
        } else {
            proof {
                lemma_join_push(words(pre), seq![c], seq![' ']);
            }
            if has_words {
                push_char(&mut out, ' ');
            }
            push_char(&mut out, c);
            in_word = true;
            has_words = true;
            proof {
                assert(out@ =~= join(words(next), seq![' ']));
            }
        }
        i = i + 1;
    }
    assert(cs@.take(cs@.len() as int) =~= cs@);
    out
}

/// `s` without its leading characters that satisfy `p`.
pub open spec fn trim_start_by(s: Seq<char>, p: spec_fn(char) -> bool) -> Seq<char>
    decreases s.len(),
{
    if s.len() > 0 && p(s[0]) {
        trim_start_by(s.skip(1), p)
    } else {
        s
    }
}

/// `s` without its trailing characters that satisfy `p`.
pub open spec fn trim_end_by(s: Seq<char>, p: spec_fn(char) -> bool) -> Seq<char>
    decreases s.len(),
{
    if s.len() > 0 && p(s.last()) {
        trim_end_by(s.drop_last(), p)
    } else {
        s
    }
}

/// `s` without the leading and trailing characters that satisfy `p`, as
/// `str::trim_matches` gives it.
pub open spec fn trim_by(s: Seq<char>, p: spec_fn(char) -> bool) -> Seq<char> {
    trim_end_by(trim_start_by(s, p), p)
}

/// `s` without leading and trailing whitespace, as `str::trim` gives it.
pub open spec fn trim(s: Seq<char>) -> Seq<char> {
    trim_by(s, |c: char| unicode_whitespace(c))
}

pub proof fn lemma_trim_start_skip(s: Seq<char>, p: spec_fn(char) -> bool, k: int)
    requires
        0 <= k <= s.len(),
        forall|m: int| 0 <= m < k ==> p(#[trigger] s[m]),
        k == s.len() || !p(s[k]),
    ensures
        trim_start_by(s, p) == s.skip(k),
    decreases k,
{
    if k == 0 {
        assert(s.skip(0) =~= s);
    } else {
        assert(p(s[0]));
        let t = s.skip(1);
        assert forall|m: int| 0 <= m < k - 1 implies p(#[trigger] t[m]) by {
            assert(t[m] == s[m + 1]);
        }
        if k - 1 < t.len() {
            assert(t[k - 1] == s[k]);
        }
        lemma_trim_start_skip(t, p, k - 1);
        assert(t.skip(k - 1) =~= s.skip(k));
    }
}

proof fn lemma_trim_end_take(s: Seq<char>, p: spec_fn(char) -> bool, k: int)
    requires
        0 <= k <= s.len(),
        forall|m: int| k <= m < s.len() ==> p(#[trigger] s[m]),
        k == 0 || !p(s[k - 1]),
    ensures
        trim_end_by(s, p) == s.take(k),
    decreases s.len() - k,
{
    if k == s.len() {
        assert(s.take(k) =~= s);
    } else {
        assert(p(s.last()));
        let t = s.drop_last();
        assert forall|m: int| k <= m < t.len() implies p(#[trigger] t[m]) by {
            assert(t[m] == s[m]);
        }
        if k > 0 {
            assert(t[k - 1] == s[k - 1]);
        }
        lemma_trim_end_take(t, p, k);
        assert(t.take(k) =~= s.take(k));
    }
}

/// `trim_by(s, p) == s[start..end]` when `s[..start]` and `s[end..]` satisfy
/// `p` and the characters at both edges of `s[start..end]` do not.
pub proof fn lemma_trim_by_bounds(s: Seq<char>, p: spec_fn(char) -> bool, start: int, end: int)
    requires
        0 <= start <= end <= s.len(),
        forall|m: int| 0 <= m < start ==> p(#[trigger] s[m]),
        start == s.len() || !p(s[start]),
        forall|m: int| end <= m < s.len() ==> p(#[trigger] s[m]),
        end == start || !p(s[end - 1]),
    ensures
        trim_by(s, p) == s.subrange(start, end),
{
    lemma_trim_start_skip(s, p, start);
    let t = s.skip(start);
    let k = end - start;
    assert forall|m: int| k <= m < t.len() implies p(#[trigger] t[m]) by {
        assert(t[m] == s[m + start]);
    }
    if k > 0 {
        assert(t[k - 1] == s[end - 1]);
    }
    lemma_trim_end_take(t, p, k);
    assert(t.take(k) =~= s.subrange(start, end));
}

/// The bounds `(start, end)` such that `trim(s) == s[start..end]`.
pub fn trim_bounds(s: &Vec<char>) -> (res: (usize, usize))
    ensures
        res.0 <= res.1 <= s@.len(),
        trim(s@) == s@.subrange(res.0 as int, res.1 as int),
{
    let ghost p = |c: char| unicode_whitespace(c);
    let n = s.len();
    let mut start: usize = 0;
    while start < n && is_whitespace(s[start])
        invariant
            n == s@.len(),
            start <= n,
            forall|m: int| 0 <= m < start ==> unicode_whitespace(#[trigger] s@[m]),
        decreases n - start,
    {
        start = start + 1;
    }
    let mut end: usize = n;
    while end > start && is_whitespace(s[end - 1])
        invariant
            n == s@.len(),
            start <= end <= n,
            forall|m: int| end <= m < n ==> unicode_whitespace(#[trigger] s@[m]),
        decreases end,
    {
        end = end - 1;
    }
    proof {
        lemma_trim_by_bounds(s@, p, start as int, end as int);
    }
    (start, end)
}

/// `s` without leading and trailing whitespace.
pub fn trimmed(s: &str) -> (res: String)
    ensures
        res@ == trim(s@),
{
    let cs = chars_of(s);
    let (start, end) = trim_bounds(&cs);
    let mut res = String::new();
    let mut i = start;
    while i < end
        invariant
            start <= i <= end <= cs@.len(),
            res@ == cs@.subrange(start as int, i as int),
        decreases end - i,
    {
        push_char(&mut res, cs[i]);
        i = i + 1;
        proof {
            assert(res@ =~= cs@.subrange(start as int, i as int));
        }
    }
    res
}

/// Whether every character of `s` is whitespace (so `s` trims to nothing).
pub fn is_blank(s: &str) -> (res: bool)
    ensures
        res == (trim(s@).len() == 0),
{
    let cs = chars_of(s);
    let (start, end) = trim_bounds(&cs);
    start == end
}


/// Whether `a` and `b` hold the same characters.
pub fn same_text(a: &str, b: &str) -> (res: bool)
    ensures
        res == (a@ == b@),
{
    let x = chars_of(a);
    let y = chars_of(b);
    if x.len() != y.len() {
        return false;
    }
    let mut i: usize = 0;
    while i < x.len()
        invariant
            x@ == a@,
            y@ == b@,
            x@.len() == y@.len(),
            i <= x@.len(),
            forall|m: int| 0 <= m < i ==> x@[m] == y@[m],
        decreases x@.len() - i,
    {
        if x[i] != y[i] {
            return false;
        }
        i = i + 1;
    }
    assert(x@ =~= y@);
    true
}


/// Whether `s` begins with `prefix`.
pub fn starts_with(s: &str, prefix: &str) -> (res: bool)
    ensures
        res == prefix@.is_prefix_of(s@),
{
    let x = chars_of(s);
    let y = chars_of(prefix);
    if y.len() > x.len() {
        return false;
    }
    let mut i: usize = 0;
    while i < y.len()
        invariant
            x@ == s@,
            y@ == prefix@,
            y@.len() <= x@.len(),
            i <= y@.len(),
            forall|m: int| 0 <= m < i ==> x@[m] == y@[m],
        decreases y@.len() - i,
    {
        if x[i] != y[i] {
            return false;
        }
        i = i + 1;
    }
    true
}

/// The parts concatenated in order.
pub open spec fn concat(parts: Seq<Seq<char>>) -> Seq<char>
    decreases parts.len(),
{
    if parts.len() == 0 {
        Seq::empty()
    } else {
        concat(parts.drop_last()) + parts.last()
    }
}

/// Concatenating one part more appends that part.
pub proof fn lemma_concat_step(parts: Seq<Seq<char>>, i: int)
    requires
        0 <= i < parts.len(),
    ensures
        concat(parts.take(i + 1)) == concat(parts.take(i)) + parts[i],
{
    assert(parts.take(i + 1).drop_last() =~= parts.take(i));
}

/// `s` up to (not including) its first `sep`, or all of `s` if it has none:
/// the first item of `str::split(sep)`.
pub open spec fn before_first(s: Seq<char>, sep: char) -> Seq<char>
    decreases s.len(),
{
    if s.len() == 0 {
        s
    } else if s[0] == sep {
        Seq::empty()
    } else {
        seq![s[0]] + before_first(s.skip(1), sep)
    }
}

/// `s` up to its first `sep`.
pub fn first_field(s: &str, sep: char) -> (res: String)
    ensures
        res@ == before_first(s@, sep),
{
    let cs = chars_of(s);
    let mut res = String::new();
    let mut i: usize = 0;
    assert(cs@.skip(0) =~= cs@);
    while i < cs.len() && cs[i] != sep
        invariant
            cs@ == s@,
            i <= cs@.len(),
            res@ + before_first(cs@.skip(i as int), sep) == before_first(s@, sep),
        decreases cs@.len() - i,
    {
        assert(cs@.skip(i as int).skip(1) =~= cs@.skip(i + 1));
        push_char(&mut res, cs[i]);
        i = i + 1;
        proof {
            assert(res@ + before_first(cs@.skip(i as int), sep) =~= before_first(s@, sep));
        }
    }
    assert(before_first(cs@.skip(i as int), sep) =~= Seq::<char>::empty());
    assert(res@ =~= before_first(s@, sep));
    res
}


proof fn lemma_trim_start_edge(s: Seq<char>, p: spec_fn(char) -> bool)
    ensures
        trim_start_by(s, p).len() > 0 ==> !p(trim_start_by(s, p)[0]),
    decreases s.len(),
{
    if s.len() > 0 && p(s[0]) {
        lemma_trim_start_edge(s.skip(1), p);
    }
}

proof fn lemma_trim_end_prefix(s: Seq<char>, p: spec_fn(char) -> bool)
    ensures
        trim_end_by(s, p).len() <= s.len(),
        trim_end_by(s, p) == s.take(trim_end_by(s, p).len() as int),
        trim_end_by(s, p).len() > 0 ==> !p(trim_end_by(s, p).last()),
    decreases s.len(),
{
    if s.len() > 0 && p(s.last()) {
        lemma_trim_end_prefix(s.drop_last(), p);
        let t = trim_end_by(s.drop_last(), p);
        assert(s.drop_last().take(t.len() as int) =~= s.take(t.len() as int));
    } else {
        assert(s.take(s.len() as int) =~= s);
    }
}

/// Neither end of a trimmed text satisfies the trimming predicate.
pub proof fn lemma_trim_by_edges(s: Seq<char>, p: spec_fn(char) -> bool)
    ensures
        trim_by(s, p).len() > 0 ==> !p(trim_by(s, p)[0]) && !p(trim_by(s, p).last()),
{
    lemma_trim_start_edge(s, p);
    lemma_trim_end_prefix(trim_start_by(s, p), p);
}

/// Whether `s` holds `pat` at position `at`.
pub fn matches_at(s: &Vec<char>, at: usize, pat: &str) -> (res: bool)
    ensures
        res == (at + pat@.len() <= s@.len() && s@.subrange(at as int, at + pat@.len()) == pat@),
{
    let p = chars_of(pat);
    if at > s.len() || p.len() > s.len() - at {
        return false;
    }
    let mut i: usize = 0;
    while i < p.len()
        invariant
            p@ == pat@,
            at + p@.len() <= s@.len(),
            s@.len() == s.len(),
            i <= p@.len(),
            forall|m: int| 0 <= m < i ==> s@[at + m] == p@[m],
        decreases p@.len() - i,
    {
        if s[at + i] != p[i] {
            assert(s@.subrange(at as int, at + pat@.len())[i as int] != pat@[i as int]);
            return false;
        }
        i = i + 1;
    }
    assert(s@.subrange(at as int, at + pat@.len()) =~= pat@);
    true
}

/// The string made of `s[from..to]`.
pub fn string_of_range(s: &Vec<char>, from: usize, to: usize) -> (res: String)
    requires
        from <= to <= s@.len(),
    ensures
        res@ == s@.subrange(from as int, to as int),
{
    let mut res = String::new();
    let mut i = from;
    while i < to
        invariant
            from <= i <= to <= s@.len(),
            res@ == s@.subrange(from as int, i as int),
        decreases to - i,
    {
        push_char(&mut res, s[i]);
        i = i + 1;
        proof {
            assert(res@ =~= s@.subrange(from as int, i as int));
        }
    }
    res
}


/// Whether every part is non-empty and free of whitespace.
pub open spec fn solid_parts(parts: Seq<Seq<char>>) -> bool {
    forall|k: int|
        0 <= k < parts.len() ==> (#[trigger] parts[k]).len() > 0 && forall|j: int|
            0 <= j < parts[k].len() ==> !unicode_whitespace(#[trigger] parts[k][j])
}

proof fn lemma_words_solid(s: Seq<char>)
    ensures
        solid_parts(words(s)),
    decreases s.len(),
{
    if s.len() > 0 {
        lemma_words_solid(s.drop_last());
        let prev = words(s.drop_last());
        let c = s.last();
        if !unicode_whitespace(c) {
            if s.len() >= 2 && !unicode_whitespace(s[s.len() - 2]) {
                lemma_words_nonempty(s.drop_last());
                let w = prev.update(prev.len() - 1, prev.last().push(c));
                assert forall|k: int| 0 <= k < w.len() implies (#[trigger] w[k]).len() > 0 && forall|j: int|
                    0 <= j < w[k].len() ==> !unicode_whitespace(#[trigger] w[k][j]) by {
                    if k == prev.len() - 1 {
                        assert forall|j: int| 0 <= j < w[k].len() implies !unicode_whitespace(#[trigger] w[k][j]) by {
                            if j < prev.last().len() {
                                assert(w[k][j] == prev[k][j]);
                            }
                        }
                    }
                }
            } else {
                let w = prev.push(seq![c]);
                assert forall|k: int| 0 <= k < w.len() implies (#[trigger] w[k]).len() > 0 && forall|j: int|
                    0 <= j < w[k].len() ==> !unicode_whitespace(#[trigger] w[k][j]) by {
                    if k < prev.len() {
                        assert(w[k] == prev[k]);
                    }
                }
            }
        }
    }
}

proof fn lemma_join_solid(parts: Seq<Seq<char>>)
    requires
        solid_parts(parts),
    ensures
        forall|i: int|
            0 <= i < join(parts, seq![' ']).len() ==> #[trigger] join(parts, seq![' '])[i] == ' '
                || !unicode_whitespace(join(parts, seq![' '])[i]),
        join(parts, seq![' ']).len() > 0 ==> !unicode_whitespace(join(parts, seq![' '])[0])
            && !unicode_whitespace(join(parts, seq![' ']).last()),
        parts.len() > 0 ==> join(parts, seq![' ']).len() > 0,
    decreases parts.len(),
{
    let r = join(parts, seq![' ']);
    if parts.len() == 1 {
        assert(parts[0].len() > 0);
        assert forall|i: int| 0 <= i < r.len() implies #[trigger] r[i] == ' ' || !unicode_whitespace(r[i]) by {
            assert(!unicode_whitespace(parts[0][i]));
        }
        assert(!unicode_whitespace(parts[0][0]));
        assert(!unicode_whitespace(parts[0][parts[0].len() - 1]));
    } else if parts.len() > 1 {
        let init = parts.drop_last();
        assert(solid_parts(init)) by {
            assert forall|k: int| 0 <= k < init.len() implies (#[trigger] init[k]).len() > 0 by {
                assert(init[k] == parts[k]);
            }
            assert forall|k: int, j: int| 0 <= k < init.len() && 0 <= j < init[k].len() implies !unicode_whitespace(#[trigger] init[k][j]) by {
                assert(init[k] == parts[k]);
                assert(!unicode_whitespace(parts[k][j]));
            }
        }
        lemma_join_solid(init);
        let a = join(init, seq![' ']);
        let last = parts.last();
        assert(last == parts[parts.len() - 1]);
        assert(last.len() > 0);
        assert(r == a + seq![' '] + last);
        assert forall|i: int| 0 <= i < r.len() implies #[trigger] r[i] == ' ' || !unicode_whitespace(r[i]) by {
            if i < a.len() {
                assert(r[i] == a[i]);
            } else if i == a.len() {
                assert(r[i] == ' ');
            } else {
                assert(r[i] == last[i - a.len() - 1]);
                assert(!unicode_whitespace(parts[parts.len() - 1][i - a.len() - 1]));
            }
        }
        assert(r[0] == a[0]);
        assert(r.last() == last[last.len() - 1]);
        assert(!unicode_whitespace(parts[parts.len() - 1][last.len() - 1]));
    }
}

/// Text folded onto one line holds no line break, tab or other whitespace
/// but the single spaces between its words, and neither starts nor ends
/// with a space: a multi-line summary cannot break out of its list item.
pub proof fn lemma_one_line_is_single_line(text: Seq<char>)
    ensures
        forall|i: int|
            0 <= i < join(words(text), seq![' ']).len() ==> #[trigger] join(words(text), seq![' '])[i]
                == ' ' || !unicode_whitespace(join(words(text), seq![' '])[i]),
        !join(words(text), seq![' ']).contains('\n'),
        join(words(text), seq![' ']).len() > 0 ==> join(words(text), seq![' '])[0] != ' '
            && join(words(text), seq![' ']).last() != ' ',
{
    lemma_words_solid(text);
    lemma_join_solid(words(text));
    let r = join(words(text), seq![' ']);
    assert forall|i: int| 0 <= i < r.len() implies r[i] != '\n' by {
        assert(r[i] == ' ' || !unicode_whitespace(r[i]));
    }
}


/// Whether `s` holds two spaces in a row.
pub open spec fn has_double_space(s: Seq<char>) -> bool {
    exists|i: int| 0 <= i < s.len() - 1 && #[trigger] s[i] == ' ' && s[i + 1] == ' '
}

proof fn lemma_solid_init(parts: Seq<Seq<char>>)
    requires
        solid_parts(parts),
        parts.len() > 0,
    ensures
        solid_parts(parts.drop_last()),
        parts.last().len() > 0,
        forall|j: int| 0 <= j < parts.last().len() ==> !unicode_whitespace(#[trigger] parts.last()[j]),
{
    let init = parts.drop_last();
    assert forall|k: int| 0 <= k < init.len() implies (#[trigger] init[k]).len() > 0 by {
        assert(init[k] == parts[k]);
    }
    assert forall|k: int, j: int| 0 <= k < init.len() && 0 <= j < init[k].len() implies !unicode_whitespace(#[trigger] init[k][j]) by {
        assert(init[k] == parts[k]);
        assert(!unicode_whitespace(parts[k][j]));
    }
    assert(parts.last() == parts[parts.len() - 1]);
}

/// Appending a whitespace character adds no word.
proof fn lemma_words_push_space(s: Seq<char>)
    ensures
        words(s.push(' ')) == words(s),
{
    assert(s.push(' ').drop_last() =~= s);
}

/// After text that is empty or ends in whitespace, a whitespace-free run is
/// one more word.
proof fn lemma_words_append_word(s: Seq<char>, w: Seq<char>)
    requires
        s.len() == 0 || unicode_whitespace(s.last()),
        w.len() > 0,
        forall|j: int| 0 <= j < w.len() ==> !unicode_whitespace(#[trigger] w[j]),
    ensures
        words(s + w) == words(s).push(w),
    decreases w.len(),
{
    let t = s + w;
    if w.len() == 1 {
        assert(t.drop_last() =~= s);
        assert(t.last() == w[0]);
        if s.len() > 0 {
            assert(t[t.len() - 2] == s.last());
        }
        assert(seq![w[0]] =~= w);
    } else {
        let v = w.drop_last();
        assert forall|j: int| 0 <= j < v.len() implies !unicode_whitespace(#[trigger] v[j]) by {
            assert(v[j] == w[j]);
        }
        lemma_words_append_word(s, v);
        assert(t.drop_last() =~= s + v);
        assert(t.last() == w[w.len() - 1]);
        assert(t[t.len() - 2] == w[w.len() - 2]);
        let prev = words(s).push(v);
        assert(v.push(t.last()) =~= w);
        assert(prev.update(prev.len() - 1, prev.last().push(t.last())) =~= words(s).push(w));
    }
}

/// Whitespace-free, non-empty parts joined by single spaces split back into
/// the same parts.
proof fn lemma_words_of_join(parts: Seq<Seq<char>>)
    requires
        solid_parts(parts),
    ensures
        words(join(parts, seq![' '])) == parts,
        !has_double_space(join(parts, seq![' '])),
    decreases parts.len(),
{
    let r = join(parts, seq![' ']);
    if parts.len() == 0 {
        assert(words(r) =~= parts);
    } else if parts.len() == 1 {
        lemma_solid_init(parts);
        lemma_words_append_word(Seq::empty(), parts[0]);
        assert(Seq::<char>::empty() + parts[0] =~= parts[0]);
        assert(Seq::<Seq<char>>::empty().push(parts[0]) =~= parts);
        assert forall|i: int| 0 <= i < r.len() - 1 implies !(#[trigger] r[i] == ' ' && r[i + 1] == ' ') by {
            assert(!unicode_whitespace(parts.last()[i]));
        }
    } else {
        let init = parts.drop_last();
        let last = parts.last();
        lemma_solid_init(parts);
        lemma_words_of_join(init);
        lemma_join_solid(init);
        let a = join(init, seq![' ']);
        assert(r == a + seq![' '] + last);
        lemma_words_push_space(a);
        assert(a + seq![' '] =~= a.push(' '));
        lemma_words_append_word(a.push(' '), last);
        assert(a.push(' ') + last =~= r);
        assert(init.push(last) =~= parts);
        assert forall|i: int| 0 <= i < r.len() - 1 implies !(#[trigger] r[i] == ' ' && r[i + 1] == ' ') by {
            if i < a.len() - 1 {
                assert(r[i] == a[i]);
                assert(r[i + 1] == a[i + 1]);
                if a[i] == ' ' && a[i + 1] == ' ' {
                    assert(has_double_space(a));
                }
            } else if i == a.len() - 1 {
                assert(r[i] == a.last());
            } else if i == a.len() {
                assert(r[i + 1] == last[0]);
                assert(!unicode_whitespace(last[0]));
            } else {
                assert(r[i] == last[i - a.len() - 1]);
                assert(!unicode_whitespace(last[i - a.len() - 1]));
            }
        }
    }
}

/// Folding onto one line keeps the words of the text, in order, as the
/// space-separated words of the result, never leaves two spaces in a row,
/// and folding the result again changes nothing.
pub proof fn lemma_one_line_words(text: Seq<char>)
    ensures
        words(join(words(text), seq![' '])) == words(text),
        !has_double_space(join(words(text), seq![' '])),
        join(words(join(words(text), seq![' '])), seq![' ']) == join(words(text), seq![' ']),
{
    lemma_words_solid(text);
    lemma_words_of_join(words(text));
}

} // verus!
