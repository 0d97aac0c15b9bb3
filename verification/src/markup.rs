//! The text of tags: what an opening and a closing tag look like, and the functions
//! that write them.
use crate::text::{escaped, push_escaped};
use vstd::prelude::*;

verus! {

/// One attribute inside a tag: a space, the name, and the escaped value in double
/// quotes.
pub open spec fn attribute_text(name: Seq<char>, value: Seq<char>) -> Seq<char> {
    " "@ + name + "=\""@ + escaped(value) + "\""@
}

/// The text of the attributes of `attrs` from index `from` on, in order.
pub open spec fn attributes_from(attrs: Seq<(Seq<char>, Seq<char>)>, from: int) -> Seq<char>
    decreases attrs.len() - from,
{
    if 0 <= from < attrs.len() {
        attribute_text(attrs[from].0, attrs[from].1) + attributes_from(attrs, from + 1)
    } else {
        Seq::empty()
    }
}

/// The tag that opens the element `name` with the attributes `attrs`. A void
/// element consists of this tag alone.
pub open spec fn opening_tag(name: Seq<char>, attrs: Seq<(Seq<char>, Seq<char>)>) -> Seq<char> {
    "<"@ + name + attributes_from(attrs, 0) + ">"@
}

/// The tag that closes the element `name`.
pub open spec fn closing_tag(name: Seq<char>) -> Seq<char> {
    "</"@ + name + ">"@
}

/// A whole element: its opening tag, `content` as it stands, and its closing tag.
pub open spec fn element(
    name: Seq<char>,
    attrs: Seq<(Seq<char>, Seq<char>)>,
    content: Seq<char>,
) -> Seq<char> {
    opening_tag(name, attrs) + content + closing_tag(name)
}

/// The attributes of a slice of name and value pairs, as pairs of texts.
pub open spec fn attribute_list(attrs: Seq<(&str, &str)>) -> Seq<(Seq<char>, Seq<char>)> {
    Seq::new(attrs.len(), |i: int| (attrs[i].0@, attrs[i].1@))
}

/// Appends the opening tag of `name` with `attrs` to `out`.
pub fn push_opening_tag(out: &mut String, name: &str, attrs: &[(&str, &str)])
    ensures
        final(out)@ == old(out)@ + opening_tag(name@, attribute_list(attrs@)),
{
    out.append("<");
    out.append(name);
    let ghost base = out@;
    let ghost list = attribute_list(attrs@);
    let count = attrs.len();
    let mut i: usize = 0;
    while i < count
        invariant
            count == attrs@.len(),
            list == attribute_list(attrs@),
            i <= count,
            out@ + attributes_from(list, i as int) == base + attributes_from(list, 0),
        decreases count - i,
    {
        let (key, value) = attrs[i];
        let ghost before = out@;
        out.append(" ");
        out.append(key);
        out.append("=\"");
        push_escaped(out, value);
        out.append("\"");
        proof {
            assert(out@ =~= before + attribute_text(key@, value@));
            assert(before + attributes_from(list, i as int) =~= out@ + attributes_from(
                list,
                i + 1,
            ));
        }
        i += 1;
    }
    out.append(">");
    proof {
        assert(out@ =~= old(out)@ + opening_tag(name@, list));
    }
}

/// Appends the closing tag of `name` to `out`.
pub fn push_closing_tag(out: &mut String, name: &str)
    ensures
        final(out)@ == old(out)@ + closing_tag(name@),
{
    out.append("</");
    out.append(name);
    out.append(">");
    proof {
        assert(out@ =~= old(out)@ + closing_tag(name@));
    }
}

} // verus!
