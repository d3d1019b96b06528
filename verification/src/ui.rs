//! The decisions the page components make.

use vstd::prelude::*;
use vstd::string::StringExecFns;

use crate::text::{chars_of, hex_char_value, is_hex_char, push_char, same_text};

verus! {

/// The script-safe text of one character of serialized JSON: `<` becomes
/// the equivalent escape `\u003c`.
pub open spec fn script_safe_char(c: char) -> Seq<char> {
    if c == '<' {
        "\\u003c"@
    } else {
        seq![c]
    }
}

/// Serialized JSON made safe to embed in a `<script>` element.
pub open spec fn script_safe(s: Seq<char>) -> Seq<char>
    decreases s.len(),
{
    if s.len() == 0 {
        Seq::empty()
    } else {
        script_safe(s.drop_last()) + script_safe_char(s.last())
    }
}

/// Serialized JSON-LD made safe to embed in a `<script>` element: `<` is
/// written `\u003c` (equivalent inside JSON strings), so content holding
/// `</script>` cannot end the element early.
pub fn escape_json_for_script(json: &str) -> (res: String)
    ensures
        res@ == script_safe(json@),
{
    let cs = chars_of(json);
    let mut out = String::new();
    let mut i: usize = 0;
    while i < cs.len()
        invariant
            cs@ == json@,
            i <= cs@.len(),
            out@ == script_safe(cs@.take(i as int)),
        decreases cs@.len() - i,
    {
        let c = cs[i];
        assert(cs@.take(i + 1).drop_last() =~= cs@.take(i as int));
        if c == '<' {
            out.append("\\u003c");
        } else {
            push_char(&mut out, c);
        }
        i = i + 1;
    }
    assert(cs@.take(cs@.len() as int) =~= cs@);
    out
}

/// Embedded JSON never holds a `<`, so it cannot close its `<script>`.
pub proof fn lemma_script_safe_has_no_angle(s: Seq<char>)
    ensures
        !script_safe(s).contains('<'),
    decreases s.len(),
{
    reveal_strlit("\\u003c");
    if s.len() > 0 {
        lemma_script_safe_has_no_angle(s.drop_last());
        let a = script_safe(s.drop_last());
        let b = script_safe_char(s.last());
        assert forall|i: int| 0 <= i < (a + b).len() implies (a + b)[i] != '<' by {
            if i >= a.len() {
                assert((a + b)[i] == b[i - a.len()]);
            } else {
                assert((a + b)[i] == a[i]);
            }
        }
    }
}

/// The character a JSON escape letter stands for after a backslash, if it
/// is one of the simple escapes.
pub open spec fn simple_escape(c: char) -> Option<char> {
    if c == '"' || c == '\\' || c == '/' {
        Some(c)
    } else if c == 'b' {
        Some('\x08')
    } else if c == 'f' {
        Some('\x0c')
    } else if c == 'n' {
        Some('\n')
    } else if c == 'r' {
        Some('\r')
    } else if c == 't' {
        Some('\t')
    } else {
        None
    }
}

/// Whether four hexadecimal digits start at position `i` of `s`.
pub open spec fn hex4_at(s: Seq<char>, i: int) -> bool {
    &&& 0 <= i
    &&& i + 4 <= s.len()
    &&& is_hex_char(s[i])
    &&& is_hex_char(s[i + 1])
    &&& is_hex_char(s[i + 2])
    &&& is_hex_char(s[i + 3])
}

/// The value of the four hexadecimal digits at position `i` of `s`.
pub open spec fn hex4_value(s: Seq<char>, i: int) -> int {
    hex_char_value(s[i]) * 4096 + hex_char_value(s[i + 1]) * 256 + hex_char_value(s[i + 2]) * 16
        + hex_char_value(s[i + 3])
}

/// `c` followed by the decoded rest, if the rest decodes.
pub open spec fn prefixed(c: char, rest: Option<Seq<char>>) -> Option<Seq<char>> {
    match rest {
        Some(t) => Some(seq![c] + t),
        None => None,
    }
}

/// The text the body of a JSON string literal (what stands between its
/// quotes) denotes, as RFC 8259 reads it into Unicode text: a backslash
/// starts a simple escape or a `\uXXXX` escape (a surrogate pair for
/// characters beyond the Basic Multilingual Plane); an unescaped quote, a
/// control character, a lone surrogate or a malformed escape makes the
/// body invalid.
pub open spec fn json_string_text(s: Seq<char>) -> Option<Seq<char>>
    decreases s.len(),
{
    if s.len() == 0 {
        Some(Seq::empty())
    } else if s[0] == '\\' {
        if s.len() >= 2 && simple_escape(s[1]) is Some {
            prefixed(simple_escape(s[1]).unwrap(), json_string_text(s.skip(2)))
        } else if s.len() >= 2 && s[1] == 'u' && hex4_at(s, 2) {
            let v = hex4_value(s, 2);
            if 0xDC00 <= v <= 0xDFFF {
                None
            } else if 0xD800 <= v <= 0xDBFF {
                if s.len() >= 8 && s[6] == '\\' && s[7] == 'u' && hex4_at(s, 8) && 0xDC00
                    <= hex4_value(s, 8) <= 0xDFFF {
                    prefixed(
                        (0x10000 + (v - 0xD800) * 0x400 + (hex4_value(s, 8) - 0xDC00)) as char,
                        json_string_text(s.skip(12)),
                    )
                } else {
                    None
                }
            } else {
                prefixed(v as char, json_string_text(s.skip(6)))
            }
        } else {
            None
        }
    } else if s[0] == '"' || (s[0] as int) < 0x20 {
        None
    } else {
        prefixed(s[0], json_string_text(s.skip(1)))
    }
}

proof fn lemma_script_safe_concat(a: Seq<char>, b: Seq<char>)
    ensures
        script_safe(a + b) == script_safe(a) + script_safe(b),
    decreases b.len(),
{
    if b.len() == 0 {
        assert(a + b =~= a);
        assert(script_safe(a) + script_safe(b) =~= script_safe(a));
    } else {
        lemma_script_safe_concat(a, b.drop_last());
        assert((a + b).drop_last() =~= a + b.drop_last());
        assert((a + b).last() == b.last());
        assert(script_safe(a + b) =~= script_safe(a) + script_safe(b));
    }
}

proof fn lemma_script_safe_plain(s: Seq<char>)
    requires
        forall|j: int| 0 <= j < s.len() ==> #[trigger] s[j] != '<',
    ensures
        script_safe(s) == s,
    decreases s.len(),
{
    if s.len() > 0 {
        let init = s.drop_last();
        assert forall|j: int| 0 <= j < init.len() implies #[trigger] init[j] != '<' by {
            assert(init[j] == s[j]);
        }
        lemma_script_safe_plain(init);
        assert(s.last() == s[s.len() - 1]);
        assert(init.push(s.last()) =~= s);
        assert(init + seq![s.last()] =~= s);
    }
}

/// Splits `script_safe(s)` after the first `k` characters, which hold no `<`.
proof fn lemma_script_safe_head(s: Seq<char>, k: int)
    requires
        0 < k <= s.len(),
        forall|j: int| 0 <= j < k ==> #[trigger] s[j] != '<',
    ensures
        script_safe(s) == s.take(k) + script_safe(s.skip(k)),
{
    let head = s.take(k);
    assert forall|j: int| 0 <= j < head.len() implies #[trigger] head[j] != '<' by {
        assert(head[j] == s[j]);
    }
    lemma_script_safe_plain(head);
    assert(head + s.skip(k) =~= s);
    lemma_script_safe_concat(head, s.skip(k));
}

/// Inside a JSON string, the escape written for `<` denotes the same text:
/// a string body that decodes still decodes, to the same text, once made
/// script-safe.
pub proof fn lemma_script_safe_keeps_strings(s: Seq<char>)
    requires
        json_string_text(s) is Some,
    ensures
        json_string_text(script_safe(s)) == json_string_text(s),
    decreases s.len(),
{
    if s.len() > 0 {
        let c = s[0];
        if c == '\\' {
            let k: int = if s.len() >= 2 && simple_escape(s[1]) is Some {
                2
            } else if hex4_value(s, 2) >= 0xD800 && hex4_value(s, 2) <= 0xDBFF {
                12
            } else {
                6
            };
            assert forall|j: int| 0 <= j < k implies #[trigger] s[j] != '<' by {
                if j == 1 && k == 2 {
                    assert(simple_escape(s[1]) is Some);
                }
            }
            lemma_script_safe_head(s, k);
            let rest = s.skip(k);
            let t = script_safe(s);
            lemma_script_safe_keeps_strings(rest);
            assert(t.skip(k) =~= script_safe(rest));
            assert forall|j: int| 0 <= j < k implies #[trigger] t[j] == s[j] by {}
        } else if c == '<' {
            reveal_strlit("\\u003c");
            let rest = s.skip(1);
            lemma_script_safe_head_angle(s);
            lemma_script_safe_keeps_strings(rest);
            let t = script_safe(s);
            assert(t.skip(6) =~= script_safe(rest));
            assert(hex4_value(t, 2) == 0x3c);
            assert((0x3c as char) == '<');
        } else {
            let rest = s.skip(1);
            lemma_script_safe_head(s, 1);
            lemma_script_safe_keeps_strings(rest);
            let t = script_safe(s);
            assert(t.skip(1) =~= script_safe(rest));
            assert(t[0] == c);
        }
    }
}

proof fn lemma_script_safe_head_angle(s: Seq<char>)
    requires
        s.len() > 0,
        s[0] == '<',
    ensures
        script_safe(s) == "\\u003c"@ + script_safe(s.skip(1)),
{
    let one = seq![s[0]];
    assert(one + s.skip(1) =~= s);
    lemma_script_safe_concat(one, s.skip(1));
    assert(one.drop_last() =~= Seq::<char>::empty());
    assert(one.last() == '<');
    assert(script_safe(one) == script_safe(one.drop_last()) + script_safe_char('<'));
    assert(script_safe(Seq::<char>::empty()) + "\\u003c"@ =~= "\\u003c"@);
}

/// A JSON text cut at its string literals: `outside[0]`, then for each `k`
/// the literal with body `bodies[k]` between quotes, followed by
/// `outside[k + 1]`.
pub open spec fn json_pieces(outside: Seq<Seq<char>>, bodies: Seq<Seq<char>>) -> Seq<char>
    decreases bodies.len(),
{
    if outside.len() == 0 {
        Seq::empty()
    } else if bodies.len() == 0 {
        outside[0]
    } else {
        json_pieces(outside.drop_last(), bodies.drop_last()) + seq!['"'] + bodies.last() + seq!['"']
            + outside.last()
    }
}

/// Script-safe JSON keeps its shape: where no `<` stands outside the string
/// literals (JSON allows none there), only the literal bodies change, and
/// each still denotes the same text. The embedded JSON-LD thus reads as the
/// same document.
pub proof fn lemma_script_safe_json(outside: Seq<Seq<char>>, bodies: Seq<Seq<char>>)
    requires
        outside.len() == bodies.len() + 1,
        forall|k: int| 0 <= k < outside.len() ==> !(#[trigger] outside[k]).contains('<'),
        forall|k: int| 0 <= k < bodies.len() ==> (#[trigger] json_string_text(bodies[k])) is Some,
    ensures
        script_safe(json_pieces(outside, bodies)) == json_pieces(
            outside,
            bodies.map_values(|b: Seq<char>| script_safe(b)),
        ),
        forall|k: int|
            0 <= k < bodies.len() ==> json_string_text(script_safe(#[trigger] bodies[k]))
                == json_string_text(bodies[k]),
    decreases bodies.len(),
{
    let safe = bodies.map_values(|b: Seq<char>| script_safe(b));
    assert forall|k: int| 0 <= k < bodies.len() implies json_string_text(script_safe(#[trigger] bodies[k]))
        == json_string_text(bodies[k]) by {
        lemma_script_safe_keeps_strings(bodies[k]);
    }
    if bodies.len() == 0 {
        lemma_script_safe_without_angle(outside[0]);
    } else {
        let o = outside.drop_last();
        let b = bodies.drop_last();
        assert forall|k: int| 0 <= k < o.len() implies !(#[trigger] o[k]).contains('<') by {
            assert(o[k] == outside[k]);
        }
        assert forall|k: int| 0 <= k < b.len() implies (#[trigger] json_string_text(b[k])) is Some by {
            assert(b[k] == bodies[k]);
        }
        lemma_script_safe_json(o, b);
        let head = json_pieces(o, b);
        let quote = seq!['"'];
        let last = bodies.last();
        let tail = outside.last();
        assert(outside.last() == outside[outside.len() - 1]);
        lemma_script_safe_without_angle(tail);
        lemma_script_safe_without_angle(quote);
        lemma_script_safe_concat(head, quote);
        lemma_script_safe_concat(head + quote, last);
        lemma_script_safe_concat(head + quote + last, quote);
        lemma_script_safe_concat(head + quote + last + quote, tail);
        assert(safe.drop_last() =~= b.map_values(|b: Seq<char>| script_safe(b)));
        assert(safe.last() == script_safe(last));
    }
}

proof fn lemma_script_safe_without_angle(s: Seq<char>)
    requires
        !s.contains('<'),
    ensures
        script_safe(s) == s,
{
    assert forall|j: int| 0 <= j < s.len() implies #[trigger] s[j] != '<' by {
        if s[j] == '<' {
            assert(s.contains('<'));
        }
    }
    lemma_script_safe_plain(s);
}

/// The class of a navigation link: marked active on the page it points to.
pub fn nav_link_class(current_path: &str, href: &str) -> (res: &'static str)
    ensures
        res@ == if current_path@ == href@ {
            "nav-links__element nav-links__element--active"@
        } else {
            "nav-links__element"@
        },
{
    if same_text(current_path, href) {
        "nav-links__element nav-links__element--active"
    } else {
        "nav-links__element"
    }
}

/// Whether the sticky navigation bar shows: everywhere but the home page.
pub fn shows_nav_bar(path: &str) -> (res: bool)
    ensures
        res == (path@ != "/"@),
{
    !same_text(path, "/")
}

/// The page of the post with slug `slug`.
pub fn post_path(slug: &str) -> (res: String)
    ensures
        res@ == "/blog/"@ + slug@,
{
    let mut out = String::from_str("/blog/");
    out.append(slug);
    out
}

} // verus!
