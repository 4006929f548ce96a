//! Small text scanners of the package reader.
use vstd::prelude::*;

use crate::text::{char_is_alphabetic, chars_of, is_alphabetic_char};
use crate::threemf_namespaces::ThreemfNamespace;

verus! {

/// `s` without its leading slash, if it has one.
pub open spec fn strip_leading_slash(s: Seq<char>) -> Seq<char> {
    if s.len() > 0 && s[0] == '/' {
        s.subrange(1, s.len() as int)
    } else {
        s
    }
}

/// The path `target` without its leading slash, if it has one.
pub fn try_strip_leading_slash(target: &str) -> (r: &str)
    ensures
        r@ == strip_leading_slash(target@),
{
    let n = target.unicode_len();
    if n > 0 && target.get_char(0) == '/' {
        target.substring_char(1, n)
    } else {
        target
    }
}

/// How many characters of `mlns` follow from position `j` on, in order.
pub open spec fn mlns_matched(c: Seq<char>, j: int) -> int {
    if j < c.len() && c[j] == 'm' {
        if j + 1 < c.len() && c[j + 1] == 'l' {
            if j + 2 < c.len() && c[j + 2] == 'n' {
                if j + 3 < c.len() && c[j + 3] == 's' {
                    4
                } else {
                    3
                }
            } else {
                2
            }
        } else {
            1
        }
    } else {
        0
    }
}

/// A character that may stand in a namespace prefix: an ASCII letter or
/// digit, `_`, `-`, `.`, or a character beyond ASCII that is alphabetic.
#[verifier::opaque]
pub open spec fn is_prefix_char(ch: char) -> bool {
    if (ch as u32) < 128 {
        is_ascii_letter(ch) || is_ascii_digit(ch) || ch == '_' || ch == '-' || ch == '.'
    } else {
        is_alphabetic_char(ch)
    }
}

/// An ASCII letter.
pub open spec fn is_ascii_letter(ch: char) -> bool {
    'a' <= ch <= 'z' || 'A' <= ch <= 'Z'
}

/// An ASCII decimal digit.
pub open spec fn is_ascii_digit(ch: char) -> bool {
    '0' <= ch <= '9'
}

/// White space as XML defines it.
pub open spec fn is_xml_space(ch: char) -> bool {
    ch == ' ' || ch == '\t' || ch == '\n' || ch == '\r'
}

/// Whether an attribute name may start at position `i`: at the start of the
/// text or right after white space.
pub open spec fn starts_name(c: Seq<char>, i: int) -> bool {
    i == 0 || (0 < i <= c.len() && is_xml_space(c[i - 1]))
}

/// Where the run of prefix characters that starts at `j` ends.
pub open spec fn prefix_end(c: Seq<char>, j: int) -> int
    decreases c.len() - j,
{
    if 0 <= j < c.len() && is_prefix_char(c[j]) {
        prefix_end(c, j + 1)
    } else {
        j
    }
}

/// Where the quoted value that starts at `j` ends: the position of the next
/// quote `d`, or the end of the text.
pub open spec fn quote_end(c: Seq<char>, j: int, d: char) -> int
    decreases c.len() - j,
{
    if 0 <= j < c.len() && c[j] != d {
        quote_end(c, j + 1, d)
    } else {
        j
    }
}

/// A quote that opens an attribute value.
pub open spec fn is_quote(ch: char) -> bool {
    ch == '"' || ch == '\''
}

/// The namespace declarations found by scanning `c` from position `i`, as
/// (attribute name, URI) pairs in order. A quote outside a declaration opens
/// an attribute value, which runs to the next same quote and holds no
/// declaration. An attribute name starts at the start of the text or after
/// white space; one that starts with `x` is a candidate: it must be followed
/// by `mlns`, optionally by `:` and a prefix made of prefix characters, then
/// by `="`; the URI runs to the next double quote or the end of the text.
/// Where a candidate fails, the scan goes on with the character that failed
/// it.
pub open spec fn xmlns_scan(c: Seq<char>, i: int) -> Seq<(Seq<char>, Seq<char>)>
    decreases c.len() - i,
{
    if i < 0 || i >= c.len() {
        Seq::empty()
    } else if is_quote(c[i]) {
        let e = quote_end(c, i + 1, c[i]);
        if e >= c.len() || e < i {
            Seq::empty()
        } else {
            xmlns_scan(c, e + 1)
        }
    } else if c[i] != 'x' || !starts_name(c, i) {
        xmlns_scan(c, i + 1)
    } else if mlns_matched(c, i + 1) < 4 {
        xmlns_scan(c, i + 1 + mlns_matched(c, i + 1))
    } else {
        let p = i + 5;
        let named = p < c.len() && c[p] == ':';
        let q = if named { prefix_end(c, p + 1) } else { p };
        let name = if named { "xmlns:"@ + c.subrange(p + 1, q) } else { "xmlns"@ };
        if q >= c.len() || q <= i {
            Seq::empty()
        } else if c[q] != '=' {
            xmlns_scan(c, q)
        } else if q + 1 >= c.len() {
            Seq::empty()
        } else if c[q + 1] != '"' {
            xmlns_scan(c, q + 1)
        } else {
            let e = quote_end(c, q + 2, '"');
            let found = seq![(name, c.subrange(q + 2, e))];
            if e >= c.len() || e < i {
                found
            } else {
                found + xmlns_scan(c, e + 1)
            }
        }
    }
}

/// The namespace declarations of an XML tag, in order.
pub open spec fn xmlns_attributes(tag: Seq<char>) -> Seq<(Seq<char>, Seq<char>)> {
    xmlns_scan(tag, 0)
}

/// A list of string pairs as plain values.
pub open spec fn pairs_view(v: Seq<(String, String)>) -> Seq<(Seq<char>, Seq<char>)> {
    v.map_values(|p: (String, String)| (p.0@, p.1@))
}

proof fn lemma_prefix_end_bounds(c: Seq<char>, j: int)
    requires
        0 <= j <= c.len(),
    ensures
        j <= prefix_end(c, j) <= c.len(),
    decreases c.len() - j,
{
    if j < c.len() && is_prefix_char(c[j]) {
        lemma_prefix_end_bounds(c, j + 1);
    }
}

proof fn lemma_quote_end_bounds(c: Seq<char>, j: int, d: char)
    requires
        0 <= j <= c.len(),
    ensures
        j <= quote_end(c, j, d) <= c.len(),
        quote_end(c, j, d) < c.len() ==> c[quote_end(c, j, d)] == d,
    decreases c.len() - j,
{
    if j < c.len() && c[j] != d {
        lemma_quote_end_bounds(c, j + 1, d);
    }
}

/// Whether `ch` is XML white space.
fn is_space(ch: char) -> (r: bool)
    ensures
        r == is_xml_space(ch),
{
    ch == ' ' || ch == '\t' || ch == '\n' || ch == '\r'
}

/// Whether `ch` may stand in a namespace prefix.
fn is_prefix_character(ch: char) -> (r: bool)
    ensures
        r == is_prefix_char(ch),
{
    reveal(is_prefix_char);
    if (ch as u32) < 128 {
        ('a' <= ch && ch <= 'z') || ('A' <= ch && ch <= 'Z') || ('0' <= ch && ch <= '9') || ch
            == '_' || ch == '-' || ch == '.'
    } else {
        char_is_alphabetic(ch)
    }
}

/// Extracts the namespace declarations of an XML tag: the pairs of attribute
/// name (`xmlns` or `xmlns:prefix`) and URI, in order. Text inside the quoted
/// values of other attributes declares nothing.
pub fn parse_xmlns_attributes(tag_content: &str) -> (r: Vec<(String, String)>)
    ensures
        pairs_view(r@) == xmlns_attributes(tag_content@),
{
    let c = chars_of(tag_content);
    let n = c.len();
    let mut attributes: Vec<(String, String)> = Vec::new();
    let mut i: usize = 0;
    while i < n
        invariant
            n == c@.len(),
            c@ == tag_content@,
            i <= n,
            pairs_view(attributes@) + xmlns_scan(c@, i as int) == xmlns_scan(c@, 0),
        decreases n - i,
    {
        let ghost before = attributes@;
        let ghost at = i as int;
        if c[i] == '"' || c[i] == '\'' {
            // an attribute value: skip it
            let d = c[i];
            let mut e = i + 1;
            proof { lemma_quote_end_bounds(c@, e as int, d); }
            while e < n && c[e] != d
                invariant
                    n == c@.len(),
                    at + 1 <= e <= n,
                    quote_end(c@, e as int, d) == quote_end(c@, at + 1, d),
                decreases n - e,
            {
                e = e + 1;
            }
            if e >= n {
                i = n;
            } else {
                i = e + 1;
            }
            continue;
        }
        if c[i] != 'x' || !(i == 0 || is_space(c[i - 1])) {
            i = i + 1;
            continue;
        }
        // the characters of "mlns" that follow
        let mut k: usize = 0;
        if i + 1 < n && c[i + 1] == 'm' {
            k = 1;
            if i + 2 < n && c[i + 2] == 'l' {
                k = 2;
                if i + 3 < n && c[i + 3] == 'n' {
                    k = 3;
                    if i + 4 < n && c[i + 4] == 's' {
                        k = 4;
                    }
                }
            }
        }
        assert(k == mlns_matched(c@, at + 1));
        if k < 4 {
            i = i + 1 + k;
            continue;
        }
        let p = i + 5;
        let mut name = String::new();
        name.append("xmlns");
        proof {
            reveal_strlit("xmlns");
            reveal_strlit("xmlns:");
        }
        let mut q = p;
        if p < n && c[p] == ':' {
            name.push(':');
            q = p + 1;
            proof { lemma_prefix_end_bounds(c@, q as int); }
            while q < n && is_prefix_character(c[q])
                invariant
                    n == c@.len(),
                    p + 1 <= q <= n,
                    prefix_end(c@, q as int) == prefix_end(c@, p + 1),
                    name@ == "xmlns:"@ + c@.subrange(p + 1, q as int),
                decreases n - q,
            {
                name.push(c[q]);
                q = q + 1;
            }
        }
        assert(q as int == if p < n && c@[p as int] == ':' { prefix_end(c@, p + 1) } else { p as int });
        if q >= n {
            i = n;
            continue;
        }
        if c[q] != '=' {
            i = q;
            continue;
        }
        if q + 1 >= n {
            i = n;
            continue;
        }
        if c[q + 1] != '"' {
            i = q + 1;
            continue;
        }
        let mut uri = String::new();
        let mut e = q + 2;
        proof { lemma_quote_end_bounds(c@, e as int, '"'); }
        while e < n && c[e] != '"'
            invariant
                n == c@.len(),
                q + 2 <= e <= n,
                quote_end(c@, e as int, '"') == quote_end(c@, q + 2, '"'),
                uri@ == c@.subrange(q + 2, e as int),
            decreases n - e,
        {
            uri.push(c[e]);
            e = e + 1;
        }
        let ghost pair = (name@, uri@);
        attributes.push((name, uri));
        assert(pairs_view(attributes@) == pairs_view(before).push(pair));
        if e >= n {
            i = n;
        } else {
            i = e + 1;
        }
    }
    assert(xmlns_scan(c@, i as int) == Seq::<(Seq<char>, Seq<char>)>::empty());
    assert(pairs_view(attributes@) + Seq::<(Seq<char>, Seq<char>)>::empty() == pairs_view(attributes@));
    attributes
}

/// A name that a namespace declaration can have: `xmlns`, or `xmlns:`
/// followed by a prefix of prefix characters.
pub open spec fn is_declaration_name(n: Seq<char>) -> bool {
    ||| n == "xmlns"@
    ||| n.len() >= 6 && n.take(6) == "xmlns:"@ && forall|k: int| 6 <= k < n.len() ==> is_prefix_char(#[trigger] n[k])
}

proof fn lemma_prefix_run(c: Seq<char>, j: int)
    requires
        0 <= j <= c.len(),
    ensures
        forall|k: int| j <= k < prefix_end(c, j) ==> is_prefix_char(#[trigger] c[k]),
    decreases c.len() - j,
{
    if j < c.len() && is_prefix_char(c[j]) {
        lemma_prefix_run(c, j + 1);
    }
}

proof fn lemma_quote_run(c: Seq<char>, j: int, d: char)
    requires
        0 <= j <= c.len(),
    ensures
        forall|k: int| j <= k < quote_end(c, j, d) ==> #[trigger] c[k] != d,
    decreases c.len() - j,
{
    if j < c.len() && c[j] != d {
        lemma_quote_run(c, j + 1, d);
    }
}

/// Each pair has the name of a namespace declaration, and a URI without a
/// double quote.
pub open spec fn declarations_well_formed(d: Seq<(Seq<char>, Seq<char>)>) -> bool {
    forall|k: int| 0 <= k < d.len() ==> {
        &&& is_declaration_name(#[trigger] d[k].0)
        &&& !d[k].1.contains('"')
    }
}

/// Every declaration that the scan from position `i` finds has the name of a
/// namespace declaration, and a URI without a double quote.
proof fn lemma_scan_well_formed(c: Seq<char>, i: int)
    ensures
        declarations_well_formed(xmlns_scan(c, i)),
    decreases c.len() - i,
{
    reveal_strlit("xmlns");
    reveal_strlit("xmlns:");
    if i < 0 || i >= c.len() {
        assert(xmlns_scan(c, i).len() == 0);
    } else if is_quote(c[i]) {
        let e = quote_end(c, i + 1, c[i]);
        if e >= c.len() || e < i {
            assert(xmlns_scan(c, i).len() == 0);
        } else {
            lemma_scan_well_formed(c, e + 1);
            assert(xmlns_scan(c, i) == xmlns_scan(c, e + 1));
        }
    } else if c[i] != 'x' || !starts_name(c, i) {
        lemma_scan_well_formed(c, i + 1);
        assert(xmlns_scan(c, i) == xmlns_scan(c, i + 1));
    } else if mlns_matched(c, i + 1) < 4 {
        lemma_scan_well_formed(c, i + 1 + mlns_matched(c, i + 1));
        assert(xmlns_scan(c, i) == xmlns_scan(c, i + 1 + mlns_matched(c, i + 1)));
    } else {
        let p = i + 5;
        let named = p < c.len() && c[p] == ':';
        if named {
            lemma_prefix_end_bounds(c, p + 1);
            lemma_prefix_run(c, p + 1);
        }
        let q = if named { prefix_end(c, p + 1) } else { p };
        let name = if named { "xmlns:"@ + c.subrange(p + 1, q) } else { "xmlns"@ };
        if named {
            assert(name.take(6) == "xmlns:"@);
            assert forall|k: int| 6 <= k < name.len() implies is_prefix_char(#[trigger] name[k]) by {
                assert(name[k] == c[p + 1 + k - 6]);
            }
        }
        assert(is_declaration_name(name));
        if q >= c.len() || q <= i {
            assert(xmlns_scan(c, i).len() == 0);
        } else if c[q] != '=' {
            lemma_scan_well_formed(c, q);
            assert(xmlns_scan(c, i) == xmlns_scan(c, q));
        } else if q + 1 >= c.len() {
            assert(xmlns_scan(c, i).len() == 0);
        } else if c[q + 1] != '"' {
            lemma_scan_well_formed(c, q + 1);
            assert(xmlns_scan(c, i) == xmlns_scan(c, q + 1));
        } else {
            lemma_quote_end_bounds(c, q + 2, '"');
            lemma_quote_run(c, q + 2, '"');
            let e = quote_end(c, q + 2, '"');
            let uri = c.subrange(q + 2, e);
            assert(!uri.contains('"')) by {
                if uri.contains('"') {
                    let k = choose|k: int| 0 <= k < uri.len() && uri[k] == '"';
                    assert(c[q + 2 + k] == '"');
                }
            }
            let found = seq![(name, uri)];
            assert(declarations_well_formed(found)) by {
                assert(found[0] == (name, uri));
            }
            if e >= c.len() || e < i {
                assert(xmlns_scan(c, i) == found);
            } else {
                assert(xmlns_scan(c, i) == found + xmlns_scan(c, e + 1));
                lemma_scan_well_formed(c, e + 1);
                let rest = xmlns_scan(c, e + 1);
                lemma_well_formed_concat(found, rest);
            }
        }
    }
}

proof fn lemma_well_formed_concat(a: Seq<(Seq<char>, Seq<char>)>, b: Seq<(Seq<char>, Seq<char>)>)
    requires
        declarations_well_formed(a),
        declarations_well_formed(b),
    ensures
        declarations_well_formed(a + b),
{
    assert forall|k: int| 0 <= k < (a + b).len() implies {
        &&& is_declaration_name(#[trigger] (a + b)[k].0)
        &&& !(a + b)[k].1.contains('"')
    } by {
        if k < a.len() {
            assert((a + b)[k] == a[k]);
            assert(is_declaration_name(a[k].0));
        } else {
            assert((a + b)[k] == b[k - a.len()]);
            assert(is_declaration_name(b[k - a.len()].0));
        }
    }
}

/// Every declaration that the parser finds is named `xmlns` or `xmlns:`
/// followed by a prefix of prefix characters, and its URI
/// holds no double quote.
pub proof fn lemma_declarations_well_formed(tag: Seq<char>)
    ensures
        forall|k: int| 0 <= k < xmlns_attributes(tag).len() ==> {
            &&& is_declaration_name(#[trigger] xmlns_attributes(tag)[k].0)
            &&& !xmlns_attributes(tag)[k].1.contains('"')
        },
{
    lemma_scan_well_formed(tag, 0);
    assert(declarations_well_formed(xmlns_attributes(tag)));
}

proof fn lemma_prefix_end_at(c: Seq<char>, j: int, e: int)
    requires
        0 <= j <= e < c.len(),
        forall|k: int| j <= k < e ==> is_prefix_char(#[trigger] c[k]),
        !is_prefix_char(c[e]),
    ensures
        prefix_end(c, j) == e,
    decreases e - j,
{
    if j < e {
        lemma_prefix_end_at(c, j + 1, e);
    }
}

proof fn lemma_quote_end_at(c: Seq<char>, j: int, e: int)
    requires
        0 <= j <= e < c.len(),
        forall|k: int| j <= k < e ==> #[trigger] c[k] != '"',
        c[e] == '"',
    ensures
        quote_end(c, j, '"') == e,
    decreases e - j,
{
    if j < e {
        lemma_quote_end_at(c, j + 1, e);
    }
}

/// The declaration that `name` (`xmlns`, or `xmlns:` and a prefix) gives to
/// `uri`, in the form it takes in a tag, after a space.
pub open spec fn declaration_text(name: Seq<char>, uri: Seq<char>) -> Seq<char> {
    " "@ + name + "=\""@ + uri + "\""@
}

/// A namespace declaration written after a space, as `xmlns="uri"` or
/// `xmlns:prefix="uri"`, with a prefix of prefix characters and a URI without
/// a double quote, is read back as exactly that declaration.
pub proof fn lemma_declaration_read_back(name: Seq<char>, uri: Seq<char>)
    requires
        is_declaration_name(name),
        !uri.contains('"'),
    ensures
        xmlns_attributes(declaration_text(name, uri)) == seq![(name, uri)],
{
    reveal_strlit("xmlns");
    reveal_strlit("xmlns:");
    reveal_strlit(" ");
    reveal_strlit("=\"");
    reveal_strlit("\"");
    let c = declaration_text(name, uri);
    let q: int = name.len() as int + 1;
    let e: int = q + 2 + uri.len();
    assert(c.len() == e + 1);
    assert forall|k: int| 0 <= k < name.len() implies c[1 + k] == #[trigger] name[k] by {}
    assert forall|k: int| 0 <= k < uri.len() implies c[q + 2 + k] == #[trigger] uri[k] by {}
    assert(c[0] == ' ');
    assert(c[q] == '=');
    assert(c[q + 1] == '"');
    assert(c[e] == '"');
    assert(xmlns_scan(c, 0) == xmlns_scan(c, 1));
    assert(name[0] == 'x' && name[1] == 'm' && name[2] == 'l' && name[3] == 'n' && name[4] == 's')
        by {
        if name != "xmlns"@ {
            let t = name.take(6);
            assert(t[0] == name[0] && t[1] == name[1] && t[2] == name[2] && t[3] == name[3]
                && t[4] == name[4] && t[5] == name[5]);
        }
    }
    assert(c[1] == name[0] && c[2] == name[1] && c[3] == name[2] && c[4] == name[3] && c[5]
        == name[4]);
    assert(mlns_matched(c, 2) == 4);
    if name == "xmlns"@ {
        assert(c[6] == '=');
        assert(q == 6);
    } else {
        assert(name.take(6) == "xmlns:"@);
        assert(name[5] == name.take(6)[5]);
        assert(c[6] == ':');
        assert forall|k: int| 7 <= k < q implies is_prefix_char(#[trigger] c[k]) by {
            assert(c[k] == name[k - 1]);
        }
        assert(!is_prefix_char('=')) by {
            reveal(is_prefix_char);
        }
        lemma_prefix_end_at(c, 7, q);
        assert(c.subrange(7, q) =~= name.subrange(6, name.len() as int));
        assert(name =~= "xmlns:"@ + name.subrange(6, name.len() as int));
    }
    assert forall|k: int| q + 2 <= k < e implies #[trigger] c[k] != '"' by {
        assert(c[k] == uri[k - q - 2]);
    }
    lemma_quote_end_at(c, q + 2, e);
    assert(c.subrange(q + 2, e) =~= uri);
    assert(xmlns_scan(c, e + 1) == Seq::<(Seq<char>, Seq<char>)>::empty());
    assert(xmlns_scan(c, 1) =~= seq![(name, uri)]);
}

/// The attribute name under which a namespace is declared.
pub open spec fn declared_name(ns: ThreemfNamespace) -> Seq<char> {
    match ns.spec_prefix() {
        Some(p) => "xmlns:"@ + p,
        None => "xmlns"@,
    }
}

/// Reading the namespace declarations of the declaration text of a namespace
/// gives back that one declaration: its name and its URI.
pub proof fn lemma_namespace_declaration_read_back(ns: ThreemfNamespace)
    ensures
        xmlns_attributes(ns.spec_xmlns_declaration()) == seq![(declared_name(ns), ns.spec_uri())],
{
    reveal_strlit("xmlns");
    reveal_strlit("xmlns:");
    reveal_strlit(" ");
    reveal_strlit(" xmlns:");
    reveal_strlit(" xmlns=\"");
    reveal_strlit("=\"");
    reveal_strlit("\"");
    reveal_strlit("p");
    reveal_strlit("b");
    reveal_strlit("t");
    reveal_strlit("http://schemas.microsoft.com/3dmanufacturing/core/2015/02");
    reveal_strlit("http://schemas.microsoft.com/3dmanufacturing/production/2015/06");
    reveal_strlit("http://schemas.microsoft.com/3dmanufacturing/beamlattice/2017/02");
    reveal_strlit("http://schemas.microsoft.com/3dmanufacturing/trianglesets/2021/07");
    let name = declared_name(ns);
    let uri = ns.spec_uri();
    assert(!uri.contains('"'));
    assert(is_declaration_name(name)) by {
        reveal(is_prefix_char);
        if let Some(p) = ns.spec_prefix() {
            assert(name.take(6) =~= "xmlns:"@);
        }
    }
    assert(ns.spec_xmlns_declaration() =~= declaration_text(name, uri));
    lemma_declaration_read_back(name, uri);
}

} // verus!
