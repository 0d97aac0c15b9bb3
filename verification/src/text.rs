//! Encodings applied to text before it is placed into markup: HTML escaping for
//! element content and attribute values, escaping for script string literals, and
//! decimal numerals.
use vstd::prelude::*;

verus! {

/// `String::push` of the standard library: the string afterwards is the string
/// before with the one character added at its end.
pub assume_specification[ String::push ](s: &mut String, c: char)
    ensures
        final(s)@ == old(s)@.push(c),
;

/// What stands for one character in escaped HTML text: the five characters that
/// HTML gives a meaning become entities, every other character stands for itself.
pub open spec fn html_entity(c: char) -> Seq<char> {
    if c == '&' {
        "&amp;"@
    } else if c == '<' {
        "&lt;"@
    } else if c == '>' {
        "&gt;"@
    } else if c == '"' {
        "&quot;"@
    } else if c == '\'' {
        "&#39;"@
    } else {
        seq![c]
    }
}

/// The HTML-escaped form of `text`: the entities of its characters, in order.
pub open spec fn escaped(text: Seq<char>) -> Seq<char>
    decreases text.len(),
{
    if text.len() == 0 {
        Seq::empty()
    } else {
        escaped(text.drop_last()) + html_entity(text.last())
    }
}

/// The characters that can open or close a tag or end a quoted attribute value.
pub open spec fn is_markup_char(c: char) -> bool {
    c == '<' || c == '>' || c == '"' || c == '\''
}

/// Appends the HTML-escaped form of `text` to `out`.
pub fn push_escaped(out: &mut String, text: &str)
    ensures
        final(out)@ == old(out)@ + escaped(text@),
{
    let ghost base = out@;
    for c in it: text.chars()
        invariant
            it.seq() == text@,
            out@ == base + escaped(text@.take(it.index())),
    {
        proof {
            assert(text@.take(it.index() + 1).drop_last() =~= text@.take(it.index()));
        }
        if c == '&' {
            out.append("&amp;");
        } else if c == '<' {
            out.append("&lt;");
        } else if c == '>' {
            out.append("&gt;");
        } else if c == '"' {
            out.append("&quot;");
        } else if c == '\'' {
            out.append("&#39;");
        } else {
            out.push(c);
        }
    }
    proof {
        assert(text@.take(text@.len() as int) =~= text@);
    }
}

/// The HTML-escaped form of `text` as a string of its own.
pub fn escape(text: &str) -> (out: String)
    ensures
        out@ == escaped(text@),
{
    let mut out = String::new();
    push_escaped(&mut out, text);
    out
}

/// Escaping works character by character: the escaped form of two texts joined is
/// the two escaped forms joined.
pub proof fn lemma_escaped_concat(a: Seq<char>, b: Seq<char>)
    ensures
        escaped(a + b) == escaped(a) + escaped(b),
    decreases b.len(),
{
    if b.len() == 0 {
        assert(a + b =~= a);
    } else {
        lemma_escaped_concat(a, b.drop_last());
        assert((a + b).drop_last() =~= a + b.drop_last());
        assert((a + b).last() == b.last());
    }
}

/// No entity holds a character that HTML reads as markup.
pub proof fn lemma_entity_has_no_markup(c: char)
    ensures
        forall|i: int|
            0 <= i < html_entity(c).len() ==> !is_markup_char(#[trigger] html_entity(c)[i]),
{
    reveal_strlit("&amp;");
    reveal_strlit("&lt;");
    reveal_strlit("&gt;");
    reveal_strlit("&quot;");
    reveal_strlit("&#39;");
}

/// Escaped text is inert: whatever the text, its escaped form holds no `<`, `>`,
/// `"` or `'`, so it can neither open or close a tag nor end an attribute value.
pub proof fn lemma_escaped_has_no_markup(text: Seq<char>)
    ensures
        forall|i: int|
            0 <= i < escaped(text).len() ==> !is_markup_char(#[trigger] escaped(text)[i]),
    decreases text.len(),
{
    if text.len() > 0 {
        lemma_escaped_has_no_markup(text.drop_last());
        lemma_entity_has_no_markup(text.last());
        let head = escaped(text.drop_last());
        let tail = html_entity(text.last());
        assert forall|i: int| 0 <= i < escaped(text).len() implies !is_markup_char(
            #[trigger] escaped(text)[i],
        ) by {
            if i < head.len() {
                assert(escaped(text)[i] == head[i]);
            } else {
                assert(escaped(text)[i] == tail[i - head.len()]);
            }
        }
    }
}

/// What stands for one character inside a double-quoted script string literal. The
/// backslash, both quotes and the line breaks are written as escapes, and so are
/// `<`, `>` and `&`, so that no text can close the script element it stands in.
pub open spec fn script_escape(c: char) -> Seq<char> {
    if c == '\\' {
        "\\\\"@
    } else if c == '"' {
        "\\x22"@
    } else if c == '\'' {
        "\\x27"@
    } else if c == '<' {
        "\\x3C"@
    } else if c == '>' {
        "\\x3E"@
    } else if c == '&' {
        "\\x26"@
    } else if c == '\n' {
        "\\n"@
    } else if c == '\r' {
        "\\r"@
    } else if c == '\u{2028}' {
        "\\u2028"@
    } else if c == '\u{2029}' {
        "\\u2029"@
    } else {
        seq![c]
    }
}

/// The form of `text` that can stand between the quotes of a script string literal.
pub open spec fn script_escaped(text: Seq<char>) -> Seq<char>
    decreases text.len(),
{
    if text.len() == 0 {
        Seq::empty()
    } else {
        script_escaped(text.drop_last()) + script_escape(text.last())
    }
}

/// The characters that must not reach a script string literal as they are: those
/// that HTML reads as markup or as the start of an entity, and those that end the
/// literal or its line.
pub open spec fn breaks_script_literal(c: char) -> bool {
    c == '<' || c == '>' || c == '&' || c == '"' || c == '\'' || c == '\n' || c == '\r'
        || c == '\u{2028}' || c == '\u{2029}'
}

/// Appends to `out` the form of `text` that can stand in a script string literal.
pub fn push_script_escaped(out: &mut String, text: &str)
    ensures
        final(out)@ == old(out)@ + script_escaped(text@),
{
    let ghost base = out@;
    for c in it: text.chars()
        invariant
            it.seq() == text@,
            out@ == base + script_escaped(text@.take(it.index())),
    {
        proof {
            assert(text@.take(it.index() + 1).drop_last() =~= text@.take(it.index()));
        }
        if c == '\\' {
            out.append("\\\\");
        } else if c == '"' {
            out.append("\\x22");
        } else if c == '\'' {
            out.append("\\x27");
        } else if c == '<' {
            out.append("\\x3C");
        } else if c == '>' {
            out.append("\\x3E");
        } else if c == '&' {
            out.append("\\x26");
        } else if c == '\n' {
            out.append("\\n");
        } else if c == '\r' {
            out.append("\\r");
        } else if c == '\u{2028}' {
            out.append("\\u2028");
        } else if c == '\u{2029}' {
            out.append("\\u2029");
        } else {
            out.push(c);
        }
    }
    proof {
        assert(text@.take(text@.len() as int) =~= text@);
    }
}

/// No escape holds a character that would end the literal or be read as markup.
pub proof fn lemma_script_escape_is_inert(c: char)
    ensures
        forall|i: int|
            0 <= i < script_escape(c).len() ==> !breaks_script_literal(
                #[trigger] script_escape(c)[i],
            ),
{
    reveal_strlit("\\\\");
    reveal_strlit("\\x22");
    reveal_strlit("\\x27");
    reveal_strlit("\\x3C");
    reveal_strlit("\\x3E");
    reveal_strlit("\\x26");
    reveal_strlit("\\n");
    reveal_strlit("\\r");
    reveal_strlit("\\u2028");
    reveal_strlit("\\u2029");
}

/// Whatever the text, its form for a script string literal holds no quote, no line
/// break and no `<`, `>` or `&`: it can end neither the literal nor the script
/// element around it.
pub proof fn lemma_script_escaped_is_inert(text: Seq<char>)
    ensures
        forall|i: int|
            0 <= i < script_escaped(text).len() ==> !breaks_script_literal(
                #[trigger] script_escaped(text)[i],
            ),
    decreases text.len(),
{
    if text.len() > 0 {
        lemma_script_escaped_is_inert(text.drop_last());
        lemma_script_escape_is_inert(text.last());
        let head = script_escaped(text.drop_last());
        let tail = script_escape(text.last());
        assert forall|i: int| 0 <= i < script_escaped(text).len() implies !breaks_script_literal(
            #[trigger] script_escaped(text)[i],
        ) by {
            if i < head.len() {
                assert(script_escaped(text)[i] == head[i]);
            } else {
                assert(script_escaped(text)[i] == tail[i - head.len()]);
            }
        }
    }
}

/// The character of the decimal digit `d`.
pub open spec fn digit(d: nat) -> char {
    if d == 0 {
        '0'
    } else if d == 1 {
        '1'
    } else if d == 2 {
        '2'
    } else if d == 3 {
        '3'
    } else if d == 4 {
        '4'
    } else if d == 5 {
        '5'
    } else if d == 6 {
        '6'
    } else if d == 7 {
        '7'
    } else if d == 8 {
        '8'
    } else {
        '9'
    }
}

/// The decimal numeral of `n`, without leading zeros.
pub open spec fn decimal(n: nat) -> Seq<char>
    decreases n,
{
    if n < 10 {
        seq![digit(n)]
    } else {
        decimal(n / 10).push(digit(n % 10))
    }
}

/// The character of the decimal digit `d`.
fn digit_of(d: u64) -> (c: char)
    requires
        d < 10,
    ensures
        c == digit(d as nat),
{
    if d == 0 {
        '0'
    } else if d == 1 {
        '1'
    } else if d == 2 {
        '2'
    } else if d == 3 {
        '3'
    } else if d == 4 {
        '4'
    } else if d == 5 {
        '5'
    } else if d == 6 {
        '6'
    } else if d == 7 {
        '7'
    } else if d == 8 {
        '8'
    } else {
        '9'
    }
}

/// Appends the decimal numeral of `n` to `out`.
pub fn push_decimal(out: &mut String, n: u64)
    ensures
        final(out)@ == old(out)@ + decimal(n as nat),
    decreases n,
{
    if n >= 10 {
        push_decimal(out, n / 10);
    }
    out.push(digit_of(n % 10));
    proof {
        assert(out@ =~= old(out)@ + decimal(n as nat));
    }
}

/// A numeral is never empty and holds digits only.
pub proof fn lemma_decimal_digits(n: nat)
    ensures
        decimal(n).len() >= 1,
        forall|i: int| 0 <= i < decimal(n).len() ==> '0' <= #[trigger] decimal(n)[i] <= '9',
    decreases n,
{
    if n >= 10 {
        lemma_decimal_digits(n / 10);
    }
}

/// Different numbers have different numerals.
pub proof fn lemma_decimal_injective(a: nat, b: nat)
    requires
        decimal(a) == decimal(b),
    ensures
        a == b,
    decreases a,
{
    lemma_decimal_digits(a / 10);
    lemma_decimal_digits(b / 10);
    if a >= 10 && b >= 10 {
        assert(decimal(a).drop_last() =~= decimal(a / 10));
        assert(decimal(b).drop_last() =~= decimal(b / 10));
        assert(decimal(a).last() == digit(a % 10));
        assert(decimal(b).last() == digit(b % 10));
        lemma_decimal_injective(a / 10, b / 10);
    } else if a < 10 && b < 10 {
        assert(decimal(a)[0] == digit(a));
        assert(decimal(b)[0] == digit(b));
    } else if a < 10 {
        assert(decimal(a).len() == 1);
        assert(decimal(b).len() == decimal(b / 10).len() + 1);
    } else {
        assert(decimal(b).len() == 1);
        assert(decimal(a).len() == decimal(a / 10).len() + 1);
    }
}

} // verus!
