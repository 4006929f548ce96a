use vstd::prelude::*;

verus! {

/// Namespace of the 3MF core specification.
pub const CORE_NS: &'static str = "http://schemas.microsoft.com/3dmanufacturing/core/2015/02";

/// Namespace of the triangle sets of the core specification.
pub const CORE_TRIANGLESET_NS: &'static str = "http://schemas.microsoft.com/3dmanufacturing/trianglesets/2021/07";

/// Prefix of the triangle sets namespace.
pub const CORE_TRIANGLESET_PREFIX: &'static str = "t";

/// Namespace of the Production extension.
pub const PROD_NS: &'static str = "http://schemas.microsoft.com/3dmanufacturing/production/2015/06";

/// Prefix of the Production extension namespace.
pub const PROD_PREFIX: &'static str = "p";

/// Namespace of the Beam Lattice extension.
pub const BEAM_LATTICE_NS: &'static str = "http://schemas.microsoft.com/3dmanufacturing/beamlattice/2017/02";

/// Prefix of the Beam Lattice extension namespace.
pub const BEAM_LATTICE_PREFIX: &'static str = "b";

/// Namespace of the balls of the Beam Lattice extension.
pub const BEAM_LATTICE_BALLS_NS: &'static str = "http://schemas.microsoft.com/3dmanufacturing/beamlattice/balls/2020/07";

/// Prefix of the Beam Lattice balls namespace.
pub const BEAM_LATTICE_BALLS_PREFIX: &'static str = "b2";

/// Namespace of the Boolean Operations extension.
pub const BOOLEAN_NS: &'static str = "http://schemas.3mf.io/3dmanufacturing/booleanoperations/2023/07";

/// The XML namespaces used in 3MF.
#[derive(Debug, Clone, PartialEq, Eq, Structural)]
pub enum ThreemfNamespace {
    Core,
    Prod,
    BeamLattice,
    CoreTriangleSet,
}

impl ThreemfNamespace {
    /// The namespace URI of this namespace.
    pub open spec fn spec_uri(self) -> Seq<char> {
        match self {
            ThreemfNamespace::Core => CORE_NS@,
            ThreemfNamespace::Prod => PROD_NS@,
            ThreemfNamespace::BeamLattice => BEAM_LATTICE_NS@,
            ThreemfNamespace::CoreTriangleSet => CORE_TRIANGLESET_NS@,
        }
    }

    /// The prefix of this namespace; the core namespace is the default one and has none.
    pub open spec fn spec_prefix(self) -> Option<Seq<char>> {
        match self {
            ThreemfNamespace::Core => None,
            ThreemfNamespace::Prod => Some(PROD_PREFIX@),
            ThreemfNamespace::BeamLattice => Some(BEAM_LATTICE_PREFIX@),
            ThreemfNamespace::CoreTriangleSet => Some(CORE_TRIANGLESET_PREFIX@),
        }
    }

    pub fn uri(&self) -> (r: &'static str)
        ensures
            r@ == self.spec_uri(),
    {
        match self {
            ThreemfNamespace::Core => CORE_NS,
            ThreemfNamespace::Prod => PROD_NS,
            ThreemfNamespace::BeamLattice => BEAM_LATTICE_NS,
            ThreemfNamespace::CoreTriangleSet => CORE_TRIANGLESET_NS,
        }
    }

    pub fn prefix(&self) -> (r: Option<&'static str>)
        ensures
            match r {
                Some(p) => self.spec_prefix() == Some(p@),
                None => self.spec_prefix() is None,
            },
    {
        match self {
            ThreemfNamespace::Core => None,
            ThreemfNamespace::Prod => Some(PROD_PREFIX),
            ThreemfNamespace::BeamLattice => Some(BEAM_LATTICE_PREFIX),
            ThreemfNamespace::CoreTriangleSet => Some(CORE_TRIANGLESET_PREFIX),
        }
    }

    /// The attribute that declares this namespace on an XML element, led by a
    /// space: ` xmlns:prefix="uri"`, or ` xmlns="uri"` for the default namespace.
    pub open spec fn spec_xmlns_declaration(self) -> Seq<char> {
        match self.spec_prefix() {
            Some(p) => " xmlns:"@ + p + "=\""@ + self.spec_uri() + "\""@,
            None => " xmlns=\""@ + self.spec_uri() + "\""@,
        }
    }

    pub fn xmlns_declaration(&self) -> (r: String)
        ensures
            r@ == self.spec_xmlns_declaration(),
    {
        let mut s = String::new();
        match self.prefix() {
            Some(prefix) => {
                s.append(" xmlns:");
                s.append(prefix);
                s.append("=\"");
            },
            None => {
                s.append(" xmlns=\"");
            },
        }
        s.append(self.uri());
        s.append("\"");
        s
    }
}

} // verus!
