use vstd::prelude::*;

verus! {

/// An XML namespace declaration: its prefix (none for the default namespace) and its URI.
#[derive(Debug, Clone, PartialEq, Eq, Hash)]
pub struct XmlNamespace {
    /// The namespace prefix (None for the default namespace).
    pub prefix: Option<String>,
    /// The namespace URI.
    pub uri: String,
}

/// A namespace declaration as plain text: the prefix, if any, and the URI.
pub type NamespaceView = (Option<Seq<char>>, Seq<char>);

impl View for XmlNamespace {
    type V = NamespaceView;

    open spec fn view(&self) -> NamespaceView {
        (
            match self.prefix {
                Some(p) => Some(p@),
                None => None,
            },
            self.uri@,
        )
    }
}

/// The namespace declarations that a model file makes.
#[derive(Debug, Clone, PartialEq, Eq)]
pub struct ModelNamespaces {
    /// Path to the model file.
    pub path: String,
    /// The namespaces declared in that model.
    pub namespaces: Vec<XmlNamespace>,
}

/// The views of a list of namespace declarations.
pub open spec fn namespaces_view(v: Seq<XmlNamespace>) -> Seq<NamespaceView> {
    v.map_values(|n: XmlNamespace| n@)
}

impl XmlNamespace {
    /// A namespace declaration with the given prefix and URI.
    pub fn new(prefix: Option<&str>, uri: &str) -> (ns: XmlNamespace)
        ensures
            ns@.0 == (match prefix {
                Some(p) => Some(p@),
                None => None::<Seq<char>>,
            }),
            ns@.1 == uri@,
    {
        XmlNamespace {
            prefix: match prefix {
                Some(p) => Some(p.to_owned()),
                None => None,
            },
            uri: uri.to_owned(),
        }
    }

    /// A copy of this declaration.
    pub fn duplicate(&self) -> (ns: XmlNamespace)
        ensures
            ns@ == self@,
    {
        XmlNamespace {
            prefix: match &self.prefix {
                Some(p) => Some(p.clone()),
                None => None,
            },
            uri: self.uri.clone(),
        }
    }

    /// Whether the two declarations have the same prefix and the same URI.
    pub fn same_as(&self, other: &XmlNamespace) -> (b: bool)
        ensures
            b == (self@ == other@),
    {
        let same_prefix = match &self.prefix {
            Some(a) => match &other.prefix {
                Some(b) => a.eq(b),
                None => false,
            },
            None => other.prefix.is_none(),
        };
        let same_uri = self.uri.eq(&other.uri);
        assert(same_prefix == (self@.0 == other@.0));
        same_prefix && same_uri
    }
}

/// Whether some declaration of `v` has the URI `uri`.
pub open spec fn has_uri(v: Seq<NamespaceView>, uri: Seq<char>) -> bool {
    exists|i: int| 0 <= i < v.len() && (#[trigger] v[i]).1 == uri
}

/// The declarations of `v` without repetitions, each kept where it first occurs.
pub open spec fn distinct_namespaces(v: Seq<NamespaceView>) -> Seq<NamespaceView>
    decreases v.len(),
{
    if v.len() == 0 {
        Seq::empty()
    } else {
        let rest = distinct_namespaces(v.drop_last());
        if rest.contains(v.last()) {
            rest
        } else {
            rest.push(v.last())
        }
    }
}

/// The prefixes of the declarations of `v`, each followed by a space; the
/// declarations without a prefix give nothing.
pub open spec fn prefix_list(v: Seq<NamespaceView>) -> Seq<char>
    decreases v.len(),
{
    if v.len() == 0 {
        Seq::empty()
    } else {
        prefix_list(v.drop_last()) + match v.last().0 {
            Some(p) => p.push(' '),
            None => Seq::empty(),
        }
    }
}

/// The value of an extensions attribute for the declarations `v`: none when
/// there are none, else the prefix list of the distinct declarations.
pub open spec fn extensions_definition(v: Seq<NamespaceView>) -> Option<Seq<char>> {
    if v.len() == 0 {
        None
    } else {
        Some(prefix_list(distinct_namespaces(v)))
    }
}

/// The value of an extensions attribute for the given declarations: none
/// when there are none, else the prefix of each distinct declaration followed
/// by a space.
pub fn get_extensions_definition(extensions: &[XmlNamespace]) -> (r: Option<String>)
    ensures
        r matches Some(s) ==> extensions_definition(namespaces_view(extensions@)) == Some(s@),
        r is None <==> extensions_definition(namespaces_view(extensions@)) is None,
{
    if extensions.len() == 0 {
        return None;
    }
    let ghost all = namespaces_view(extensions@);
    let mut unique: Vec<&XmlNamespace> = Vec::new();
    let mut text = String::new();
    let mut i: usize = 0;
    while i < extensions.len()
        invariant
            i <= extensions.len(),
            all == namespaces_view(extensions@),
            unique@.map_values(|n: &XmlNamespace| n@) == distinct_namespaces(all.take(i as int)),
            text@ == prefix_list(distinct_namespaces(all.take(i as int))),
        decreases extensions.len() - i,
    {
        let ns = &extensions[i];
        let ghost before = all.take(i as int);
        assert(all.take(i + 1).drop_last() == before);
        assert(all.take(i + 1).last() == ns@);
        let mut seen = false;
        let mut j: usize = 0;
        while j < unique.len()
            invariant
                j <= unique.len(),
                seen == exists|k: int| 0 <= k < j && (#[trigger] unique@[k])@ == ns@,
            decreases unique.len() - j,
        {
            if unique[j].same_as(ns) {
                seen = true;
            }
            j = j + 1;
        }
        let ghost dv = distinct_namespaces(before);
        assert(seen <==> dv.contains(ns@)) by {
            if seen {
                let k = choose|k: int| 0 <= k < unique.len() && (#[trigger] unique@[k])@ == ns@;
                assert(unique@.map_values(|n: &XmlNamespace| n@)[k] == ns@);
            }
            if dv.contains(ns@) {
                let k = choose|k: int| 0 <= k < dv.len() && dv[k] == ns@;
                assert(unique@.map_values(|n: &XmlNamespace| n@)[k] == ns@);
                assert((unique@[k])@ == ns@);
            }
        }
        if !seen {
            unique.push(ns);
            match &ns.prefix {
                Some(p) => {
                    text.append(p.as_str());
                    text.push(' ');
                },
                None => {},
            }
            assert(unique@.map_values(|n: &XmlNamespace| n@) == dv.push(ns@));
            assert(dv.push(ns@).drop_last() == dv);
        }
        i = i + 1;
    }
    assert(all.take(extensions.len() as int) == all);
    Some(text)
}

/// Every declaration of `v` is among its distinct declarations.
proof fn lemma_distinct_keeps(v: Seq<NamespaceView>, x: NamespaceView)
    requires
        v.contains(x),
    ensures
        distinct_namespaces(v).contains(x),
    decreases v.len(),
{
    let rest = distinct_namespaces(v.drop_last());
    if v.last() == x {
        if !rest.contains(x) {
            assert(rest.push(x)[rest.len() as int] == x);
        }
    } else {
        let k = choose|k: int| 0 <= k < v.len() && v[k] == x;
        assert(v.drop_last()[k] == x);
        lemma_distinct_keeps(v.drop_last(), x);
        if !rest.contains(v.last()) {
            let j = choose|j: int| 0 <= j < rest.len() && rest[j] == x;
            assert(rest.push(v.last())[j] == x);
        }
    }
}

/// Declaring a namespace again that is already declared does not change the
/// extensions attribute: each distinct declaration is listed once.
pub proof fn lemma_repeated_declaration_listed_once(v: Seq<NamespaceView>, i: int)
    requires
        0 <= i < v.len(),
    ensures
        extensions_definition(v.push(v[i])) == extensions_definition(v),
{
    assert(v.push(v[i]).drop_last() == v);
    assert(v.contains(v[i]));
    lemma_distinct_keeps(v, v[i]);
}


/// The distinct declarations are those of the list, each exactly once.
pub proof fn lemma_distinct_namespaces(v: Seq<NamespaceView>)
    ensures
        distinct_namespaces(v).no_duplicates(),
        forall|x: NamespaceView| distinct_namespaces(v).contains(x) <==> v.contains(x),
    decreases v.len(),
{
    if v.len() > 0 {
        let p = v.drop_last();
        lemma_distinct_namespaces(p);
        let rest = distinct_namespaces(p);
        assert(distinct_namespaces(v) == if rest.contains(v.last()) {
            rest
        } else {
            rest.push(v.last())
        });
        assert forall|x: NamespaceView| distinct_namespaces(v).contains(x) <==> v.contains(x) by {
            if v.contains(x) {
                lemma_distinct_keeps(v, x);
            }
            if distinct_namespaces(v).contains(x) {
                let j = choose|j: int| 0 <= j < distinct_namespaces(v).len() && distinct_namespaces(v)[j] == x;
                if j < rest.len() {
                    assert(distinct_namespaces(v)[j] == rest[j]);
                    assert(rest[j] == x);
                    assert(rest.contains(x));
                    assert(p.contains(x));
                    let k = choose|k: int| 0 <= k < p.len() && p[k] == x;
                    assert(v[k] == x);
                } else {
                    assert(x == v.last());
                    assert(v[v.len() - 1] == x);
                }
            }
        }
        if !rest.contains(v.last()) {
            let d = rest.push(v.last());
            assert forall|a: int, b: int| 0 <= a < d.len() && 0 <= b < d.len() && a != b implies d[a] != d[b] by {
                if a < rest.len() && b < rest.len() {
                } else if a < rest.len() {
                    assert(rest[a] == d[a]);
                } else {
                    assert(rest[b] == d[b]);
                }
            }
        }
    }
}

/// The prefix list of two lists of declarations one after the other is the
/// prefix list of the first followed by that of the second; a declaration
/// with a prefix lists the prefix and a space, one without lists nothing.
pub proof fn lemma_prefix_list_parts(a: Seq<NamespaceView>, b: Seq<NamespaceView>, p: Seq<char>, u: Seq<char>)
    ensures
        prefix_list(a + b) == prefix_list(a) + prefix_list(b),
        prefix_list(seq![(Some(p), u)]) == p + seq![' '],
        prefix_list(seq![(None::<Seq<char>>, u)]) == Seq::<char>::empty(),
    decreases b.len(),
{
    let one = seq![(Some(p), u)];
    assert(one.drop_last() =~= Seq::<NamespaceView>::empty());
    assert(prefix_list(one.drop_last()) == Seq::<char>::empty());
    assert(one.last() == (Some(p), u));
    assert(prefix_list(one) =~= p + seq![' ']);
    let none = seq![(None::<Seq<char>>, u)];
    assert(none.drop_last() =~= Seq::<NamespaceView>::empty());
    assert(prefix_list(none.drop_last()) == Seq::<char>::empty());
    assert(prefix_list(none) =~= Seq::<char>::empty());
    if b.len() == 0 {
        assert(a + b =~= a);
        assert(prefix_list(a) + prefix_list(b) =~= prefix_list(a));
    } else {
        lemma_prefix_list_parts(a, b.drop_last(), p, u);
        assert((a + b).drop_last() =~= a + b.drop_last());
        assert((a + b).last() == b.last());
        let tail = match b.last().0 {
            Some(q) => q.push(' '),
            None => Seq::<char>::empty(),
        };
        assert(prefix_list(a + b) == prefix_list(a + b.drop_last()) + tail);
        assert(prefix_list(b) == prefix_list(b.drop_last()) + tail);
        assert(prefix_list(a) + prefix_list(b) =~= prefix_list(a) + prefix_list(b.drop_last()) + tail);
    }
}

} // verus!
