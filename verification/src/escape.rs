//! Escaping of text for embedding into HTML and JSON string contexts, and
//! unescaping of the common HTML entities.

use vstd::prelude::*;

use crate::text::{chars_to_string, push_char, replace_chars, spec_replace, str_to_chars};

verus! {

/// Each character of `s` replaced by its expansion under `f`, in order.
pub open spec fn expand_all(s: Seq<char>, f: spec_fn(char) -> Seq<char>) -> Seq<char>
    decreases s.len(),
{
    if s.len() == 0 {
        Seq::empty()
    } else {
        f(s[0]) + expand_all(s.drop_first(), f)
    }
}

pub proof fn lemma_expand_all_push(s: Seq<char>, c: char, f: spec_fn(char) -> Seq<char>)
    ensures
        expand_all(s.push(c), f) == expand_all(s, f) + f(c),
    decreases s.len(),
{
    if s.len() == 0 {
        assert(s.push(c)[0] == c);
        assert(s.push(c).drop_first() =~= Seq::<char>::empty());
        assert(expand_all(s.push(c), f) == f(c) + expand_all(Seq::<char>::empty(), f));
        assert(expand_all(Seq::<char>::empty(), f) == Seq::<char>::empty());
        assert(f(c) + Seq::<char>::empty() =~= f(c));
        assert(expand_all(s, f) + f(c) =~= f(c));
    } else {
        assert(s.push(c).drop_first() =~= s.drop_first().push(c));
        assert(s.push(c)[0] == s[0]);
        lemma_expand_all_push(s.drop_first(), c, f);
        assert(f(s[0]) + (expand_all(s.drop_first(), f) + f(c)) =~= (f(s[0]) + expand_all(
            s.drop_first(),
            f,
        )) + f(c));
    }
}

/// The HTML-entity expansion of one character: `&`, `<`, `>`, `"` and `'`
/// become entities, every other character stands for itself.
pub open spec fn html_escaped_char(c: char) -> Seq<char> {
    if c == '&' {
        "&amp;"@
    } else if c == '<' {
        "&lt;"@
    } else if c == '>' {
        "&gt;"@
    } else if c == '"' {
        "&quot;"@
    } else if c == '\'' {
        "&#x27;"@
    } else {
        seq![c]
    }
}

/// The escaping of a whole string for safe embedding in HTML.
pub open spec fn spec_escape_html(s: Seq<char>) -> Seq<char> {
    expand_all(s, |c: char| html_escaped_char(c))
}

/// Escapes a string for safe embedding in HTML: replaces `&`, `<`, `>`, `"`
/// and `'` with their HTML entity equivalents.
pub fn escape_html(s: &str) -> (r: String)
    ensures
        r@ == spec_escape_html(s@),
{
    let cs = str_to_chars(s);
    let ghost f = |c: char| html_escaped_char(c);
    let mut out = String::new();
    let mut i: usize = 0;
    assert(expand_all(s@.subrange(0, 0), f) =~= Seq::<char>::empty());
    while i < cs.len()
        invariant
            i <= cs@.len(),
            cs@ == s@,
            f == (|c: char| html_escaped_char(c)),
            out@ == expand_all(s@.subrange(0, i as int), f),
        decreases cs@.len() - i,
    {
        let c = cs[i];
        let ghost prev = out@;
        if c == '&' {
            out.append("&amp;");
        } else if c == '<' {
            out.append("&lt;");
        } else if c == '>' {
            out.append("&gt;");
        } else if c == '"' {
            out.append("&quot;");
        } else if c == '\'' {
            out.append("&#x27;");
        } else {
            push_char(&mut out, c);
            assert(out@ =~= prev + seq![c]);
        }
        proof {
            lemma_expand_all_push(s@.subrange(0, i as int), s@[i as int], f);
            assert(s@.subrange(0, i as int).push(s@[i as int]) =~= s@.subrange(0, i + 1));
        }
        i += 1;
    }
    assert(s@.subrange(0, s@.len() as int) =~= s@);
    out
}

/// The four-digit lowercase hexadecimal digit for a value below 16.
pub open spec fn hex_lower_digit(d: int) -> char {
    if d < 10 {
        (('0' as u8) + d as u8) as char
    } else {
        (('a' as u8) + (d - 10) as u8) as char
    }
}

/// Whether a character is a Unicode control character.
pub open spec fn is_control_char(c: char) -> bool {
    (c as u32) < 0x20 || (0x7F <= (c as u32) && (c as u32) <= 0x9F)
}

/// The JSON string-literal expansion of one character: backslash, double
/// quote, newline, carriage return and tab get two-character escapes; every
/// other control character becomes a `\u00..` escape; everything else stands
/// for itself.
pub open spec fn json_escaped_char(c: char) -> Seq<char> {
    if c == '\\' {
        seq!['\\', '\\']
    } else if c == '"' {
        seq!['\\', '"']
    } else if c == '\n' {
        seq!['\\', 'n']
    } else if c == '\r' {
        seq!['\\', 'r']
    } else if c == '\t' {
        seq!['\\', 't']
    } else if is_control_char(c) {
        seq!['\\', 'u', '0', '0', hex_lower_digit((c as u32) as int / 16), hex_lower_digit(
            (c as u32) as int % 16,
        )]
    } else {
        seq![c]
    }
}

/// The escaping of a whole string for safe embedding inside a JSON string
/// value.
pub open spec fn spec_escape_json(s: Seq<char>) -> Seq<char> {
    expand_all(s, |c: char| json_escaped_char(c))
}

/// Converts a value below 16 to its lowercase hexadecimal digit.
fn hex_lower_digit_exec(d: u32) -> (r: char)
    requires
        d < 16,
    ensures
        r == hex_lower_digit(d as int),
{
    if d < 10 {
        (('0' as u8) + (d as u8)) as char
    } else {
        (('a' as u8) + ((d - 10) as u8)) as char
    }
}

/// Escapes a string for safe embedding inside a JSON string value: handles
/// backslashes, double quotes, newlines, carriage returns, tabs, and the
/// remaining control characters.
pub fn escape_json_string(s: &str) -> (r: String)
    ensures
        r@ == spec_escape_json(s@),
{
    let cs = str_to_chars(s);
    let ghost f = |c: char| json_escaped_char(c);
    let mut out = String::new();
    let mut i: usize = 0;
    assert(expand_all(s@.subrange(0, 0), f) =~= Seq::<char>::empty());
    while i < cs.len()
        invariant
            i <= cs@.len(),
            cs@ == s@,
            f == (|c: char| json_escaped_char(c)),
            out@ == expand_all(s@.subrange(0, i as int), f),
        decreases cs@.len() - i,
    {
        let c = cs[i];
        let ghost prev = out@;
        if c == '\\' {
            out.append("\\\\");
            assert("\\\\"@ =~= seq!['\\', '\\']) by {
                reveal_strlit("\\\\");
            }
        } else if c == '"' {
            out.append("\\\"");
            assert("\\\""@ =~= seq!['\\', '"']) by {
                reveal_strlit("\\\"");
            }
        } else if c == '\n' {
            out.append("\\n");
            assert("\\n"@ =~= seq!['\\', 'n']) by {
                reveal_strlit("\\n");
            }
        } else if c == '\r' {
            out.append("\\r");
            assert("\\r"@ =~= seq!['\\', 'r']) by {
                reveal_strlit("\\r");
            }
        } else if c == '\t' {
            out.append("\\t");
            assert("\\t"@ =~= seq!['\\', 't']) by {
                reveal_strlit("\\t");
            }
        } else {
            let u = c as u32;
            if u < 0x20 || (0x7F <= u && u <= 0x9F) {
                out.append("\\u00");
                assert("\\u00"@ =~= seq!['\\', 'u', '0', '0']) by {
                    reveal_strlit("\\u00");
                }
                push_char(&mut out, hex_lower_digit_exec(u / 16));
                push_char(&mut out, hex_lower_digit_exec(u % 16));
                assert(out@ =~= prev + json_escaped_char(c));
            } else {
                push_char(&mut out, c);
                assert(out@ =~= prev + seq![c]);
            }
        }
        proof {
            lemma_expand_all_push(s@.subrange(0, i as int), s@[i as int], f);
            assert(s@.subrange(0, i as int).push(s@[i as int]) =~= s@.subrange(0, i + 1));
        }
        i += 1;
    }
    assert(s@.subrange(0, s@.len() as int) =~= s@);
    out
}

/// The five common HTML entities unescaped back to their raw characters,
/// applied as successive whole-string replacements in a fixed order.
pub open spec fn spec_unescape_entities(s: Seq<char>) -> Seq<char> {
    spec_replace(
        spec_replace(
            spec_replace(
                spec_replace(
                    spec_replace(spec_replace(s, "&amp;"@, "&"@), "&lt;"@, "<"@),
                    "&gt;"@,
                    ">"@,
                ),
                "&quot;"@,
                "\""@,
            ),
            "&#x27;"@,
            "'"@,
        ),
        "&#39;"@,
        "'"@,
    )
}

/// Unescapes the common HTML entities (`&amp;`, `&lt;`, `&gt;`, `&quot;`,
/// `&#x27;`, `&#39;`) back to their raw characters.
pub fn unescape_html_entities(s: &str) -> (r: String)
    ensures
        r@ == spec_unescape_entities(s@),
{
    proof {
        reveal_strlit("&amp;");
        reveal_strlit("&lt;");
        reveal_strlit("&gt;");
        reveal_strlit("&quot;");
        reveal_strlit("&#x27;");
        reveal_strlit("&#39;");
    }
    let cs = str_to_chars(s);
    let r1 = replace_chars(&cs, &str_to_chars("&amp;"), &str_to_chars("&"));
    let r2 = replace_chars(&r1, &str_to_chars("&lt;"), &str_to_chars("<"));
    let r3 = replace_chars(&r2, &str_to_chars("&gt;"), &str_to_chars(">"));
    let r4 = replace_chars(&r3, &str_to_chars("&quot;"), &str_to_chars("\""));
    let r5 = replace_chars(&r4, &str_to_chars("&#x27;"), &str_to_chars("'"));
    let r6 = replace_chars(&r5, &str_to_chars("&#39;"), &str_to_chars("'"));
    chars_to_string(&r6)
}

} // verus!
