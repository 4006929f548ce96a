use vstd::prelude::*;

use crate::core_model::beamlattice::BeamLattice;
use crate::core_model::triangle_set::TriangleSets;

use crate::text::{parse_usize, parsed_usize, str_equal};

verus! {

/// A triangle mesh.
///
/// This is a very basic type that lacks any amenities for constructing it or
/// for iterating over its data; it is meant as an easy target for conversion
/// from a mesh type of one's own.
#[derive(Debug, Clone, PartialEq, Eq)]
pub struct Mesh {
    /// The vertices of the mesh; the triangles refer to them by index.
    pub vertices: Vertices,
    /// The triangles that make up the mesh.
    pub triangles: Triangles,
    pub trianglesets: Option<TriangleSets>,
    pub beamlattice: Option<BeamLattice>,
}

/// The list of vertices of a mesh.
#[derive(Debug, Clone, PartialEq, Eq)]
pub struct Vertices {
    pub vertex: Vec<Vertex>,
}

/// A vertex of a triangle mesh.
///
/// Each coordinate is held as the IEEE 754 binary64 bit pattern of its value
/// (`f64::to_bits`), so that the library carries coordinates exactly.
#[derive(Debug, Clone, Copy, PartialEq, Eq)]
pub struct Vertex {
    pub x: u64,
    pub y: u64,
    pub z: u64,
}

/// The list of triangles of a mesh.
#[derive(Debug, Clone, PartialEq, Eq)]
pub struct Triangles {
    pub triangle: Vec<Triangle>,
}

/// A triangle of a mesh: three indices into the vertices of the mesh, and
/// optionally the properties of its corners.
#[derive(Debug, Clone, Copy, PartialEq, Eq)]
pub struct Triangle {
    pub v1: usize,
    pub v2: usize,
    pub v3: usize,
    pub p1: Option<usize>,
    pub p2: Option<usize>,
    pub p3: Option<usize>,
    pub pid: Option<usize>,
}


/// A triangle over the vertex 0, with no properties: where the reading of a
/// triangle's attributes starts.
pub open spec fn blank_triangle() -> Triangle {
    Triangle { v1: 0, v2: 0, v3: 0, p1: None, p2: None, p3: None, pid: None }
}

/// The triangle `t` after its attribute `name` is read with the text
/// `value`: a vertex index that does not parse reads as 0; a property index
/// that does not parse leaves the property as it was; other attributes are
/// ignored.
pub open spec fn with_attribute(t: Triangle, name: Seq<char>, value: Seq<char>) -> Triangle {
    let n = parsed_usize(value);
    let index = match n {
        Some(v) => v,
        None => 0,
    };
    if name == "v1"@ {
        Triangle { v1: index, ..t }
    } else if name == "v2"@ {
        Triangle { v2: index, ..t }
    } else if name == "v3"@ {
        Triangle { v3: index, ..t }
    } else if name == "p1"@ && n is Some {
        Triangle { p1: n, ..t }
    } else if name == "p2"@ && n is Some {
        Triangle { p2: n, ..t }
    } else if name == "p3"@ && n is Some {
        Triangle { p3: n, ..t }
    } else if name == "pid"@ && n is Some {
        Triangle { pid: n, ..t }
    } else {
        t
    }
}

/// The triangle that the attributes `attrs`, read in order, give.
pub open spec fn triangle_of_attributes(attrs: Seq<(Seq<char>, Seq<char>)>) -> Triangle
    decreases attrs.len(),
{
    if attrs.len() == 0 {
        blank_triangle()
    } else {
        with_attribute(triangle_of_attributes(attrs.drop_last()), attrs.last().0, attrs.last().1)
    }
}

impl Triangle {
    /// The triangle that the attributes of a `triangle` element give, read in
    /// order (a later attribute of the same name wins): the vertex indices
    /// `v1`, `v2`, `v3` read as 0 when they are missing or do not parse; the
    /// property indices `p1`, `p2`, `p3`, `pid` are none unless they parse.
    pub fn from_attributes(attrs: &[(String, String)]) -> (t: Triangle)
        ensures
            t == triangle_of_attributes(attrs@.map_values(|a: (String, String)| (a.0@, a.1@))),
    {
        let ghost av = attrs@.map_values(|a: (String, String)| (a.0@, a.1@));
        let mut t = Triangle { v1: 0, v2: 0, v3: 0, p1: None, p2: None, p3: None, pid: None };
        let mut i: usize = 0;
        while i < attrs.len()
            invariant
                av == attrs@.map_values(|a: (String, String)| (a.0@, a.1@)),
                i <= attrs.len(),
                t == triangle_of_attributes(av.take(i as int)),
            decreases attrs.len() - i,
        {
            let name = attrs[i].0.as_str();
            let n = parse_usize(attrs[i].1.as_str());
            let index = match n {
                Some(v) => v,
                None => 0,
            };
            proof {
                reveal_strlit("v1");
                reveal_strlit("v2");
                reveal_strlit("v3");
                reveal_strlit("p1");
                reveal_strlit("p2");
                reveal_strlit("p3");
                reveal_strlit("pid");
                assert(av.take(i + 1).drop_last() == av.take(i as int));
                assert(av.take(i + 1).last() == (name@, attrs@[i as int].1@));
            }
            if str_equal(name, "v1") {
                t.v1 = index;
            } else if str_equal(name, "v2") {
                t.v2 = index;
            } else if str_equal(name, "v3") {
                t.v3 = index;
            } else if str_equal(name, "p1") && n.is_some() {
                t.p1 = n;
            } else if str_equal(name, "p2") && n.is_some() {
                t.p2 = n;
            } else if str_equal(name, "p3") && n.is_some() {
                t.p3 = n;
            } else if str_equal(name, "pid") && n.is_some() {
                t.pid = n;
            }
            i = i + 1;
        }
        assert(av.take(attrs.len() as int) == av);
        t
    }
}

/// The text of the last attribute named `name`, if there is one.
pub open spec fn last_attribute(attrs: Seq<(Seq<char>, Seq<char>)>, name: Seq<char>) -> Option<Seq<char>>
    decreases attrs.len(),
{
    if attrs.len() == 0 {
        None
    } else if attrs.last().0 == name {
        Some(attrs.last().1)
    } else {
        last_attribute(attrs.drop_last(), name)
    }
}

/// The number that the last attribute named `name` whose text is a number
/// gives, if there is one.
pub open spec fn last_number_attribute(attrs: Seq<(Seq<char>, Seq<char>)>, name: Seq<char>) -> Option<usize>
    decreases attrs.len(),
{
    if attrs.len() == 0 {
        None
    } else if attrs.last().0 == name && parsed_usize(attrs.last().1) is Some {
        parsed_usize(attrs.last().1)
    } else {
        last_number_attribute(attrs.drop_last(), name)
    }
}

/// The number that an optional attribute text gives: 0 when it is missing
/// or is not a number.
pub open spec fn number_or_zero(text: Option<Seq<char>>) -> usize {
    match text {
        Some(v) => match parsed_usize(v) {
            Some(n) => n,
            None => 0,
        },
        None => 0,
    }
}

/// Each field of the triangle read from attributes depends only on the
/// attributes of its own name, and the last of them wins: a vertex index is
/// the number of the last attribute of its name (0 when it is missing or is
/// not a number); a property index is the number of the last attribute of
/// its name that is a number, none when there is no such attribute.
pub proof fn lemma_triangle_fields_by_name(attrs: Seq<(Seq<char>, Seq<char>)>)
    ensures
        triangle_of_attributes(attrs).v1 == number_or_zero(last_attribute(attrs, "v1"@)),
        triangle_of_attributes(attrs).v2 == number_or_zero(last_attribute(attrs, "v2"@)),
        triangle_of_attributes(attrs).v3 == number_or_zero(last_attribute(attrs, "v3"@)),
        triangle_of_attributes(attrs).p1 == last_number_attribute(attrs, "p1"@),
        triangle_of_attributes(attrs).p2 == last_number_attribute(attrs, "p2"@),
        triangle_of_attributes(attrs).p3 == last_number_attribute(attrs, "p3"@),
        triangle_of_attributes(attrs).pid == last_number_attribute(attrs, "pid"@),
    decreases attrs.len(),
{
    reveal_strlit("v1");
    reveal_strlit("v2");
    reveal_strlit("v3");
    reveal_strlit("p1");
    reveal_strlit("p2");
    reveal_strlit("p3");
    reveal_strlit("pid");
    let names = seq!["v1"@, "v2"@, "v3"@, "p1"@, "p2"@, "p3"@, "pid"@];
    assert forall|a: int, b: int| 0 <= a < b < 7 implies #[trigger] names[a] != #[trigger] names[b] by {
        if b < 6 {
            assert(names[a][0] != names[b][0] || names[a][1] != names[b][1]);
        } else {
            assert(names[a].len() != names[b].len());
        }
    }
    assert(names[0] == "v1"@ && names[1] == "v2"@ && names[2] == "v3"@);
    assert(names[3] == "p1"@ && names[4] == "p2"@ && names[5] == "p3"@ && names[6] == "pid"@);
    if attrs.len() > 0 {
        lemma_triangle_fields_by_name(attrs.drop_last());
    }
}

} // verus!
