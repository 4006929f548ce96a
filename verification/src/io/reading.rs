//! The decisions taken while a package is read: where the relationships
//! are, which part is the root model, which files are relationships parts,
//! and what to do with each part that a relationship refers to.
use vstd::prelude::*;

use crate::io::error::Error;
use crate::io::path_map::PathMap;
use crate::io::relationship::{Relationship, RelationshipType, Relationships};
use crate::io::utils::{strip_leading_slash, try_strip_leading_slash};
use crate::text::{opt_view, str_equal};

verus! {

/// The path of the relationships part at the root of a package whose
/// relationships parts have the extension `ext`.
pub open spec fn root_relationships_path(ext: Seq<char>) -> Seq<char> {
    "_rels/."@ + ext
}

/// The path of the relationships part at the root of a package whose
/// relationships parts have the extension `rels_ext`.
pub fn root_relationships_filename(rels_ext: &str) -> (r: String)
    ensures
        r@ == root_relationships_path(rels_ext@),
{
    let mut r = String::new();
    r.append("_rels/.");
    r.append(rels_ext);
    r
}

/// The target of the first relationship to a model, if any.
pub open spec fn first_model_target(rs: Seq<Relationship>) -> Option<Seq<char>>
    decreases rs.len(),
{
    if rs.len() == 0 {
        None
    } else if rs[0].relationship_type is Model {
        Some(rs[0].target@)
    } else {
        first_model_target(rs.drop_first())
    }
}

/// The target of the first relationship to a model is that of a
/// relationship of the list to a model, before which no relationship refers
/// to a model; there is none exactly when no relationship refers to a model.
pub proof fn lemma_first_model_target(rs: Seq<Relationship>)
    ensures
        match first_model_target(rs) {
            Some(t) => exists|k: int| 0 <= k < rs.len() && (#[trigger] rs[k]).relationship_type is Model
                && rs[k].target@ == t
                && forall|j: int| 0 <= j < k ==> !((#[trigger] rs[j]).relationship_type is Model),
            None => forall|k: int| 0 <= k < rs.len() ==> !((#[trigger] rs[k]).relationship_type is Model),
        },
    decreases rs.len(),
{
    if rs.len() > 0 {
        let rest = rs.drop_first();
        lemma_first_model_target(rest);
        if !(rs[0].relationship_type is Model) {
            match first_model_target(rest) {
                Some(t) => {
                    let k = choose|k: int| 0 <= k < rest.len() && (#[trigger] rest[k]).relationship_type is Model
                        && rest[k].target@ == t
                        && forall|j: int| 0 <= j < k ==> !((#[trigger] rest[j]).relationship_type is Model);
                    assert(rs[k + 1] == rest[k]);
                    assert forall|j: int| 0 <= j < k + 1 implies !((#[trigger] rs[j]).relationship_type is Model) by {
                        if j > 0 {
                            assert(rs[j] == rest[j - 1]);
                        }
                    }
                },
                None => {
                    assert forall|k: int| 0 <= k < rs.len() implies !((#[trigger] rs[k]).relationship_type is Model) by {
                        if k > 0 {
                            assert(rs[k] == rest[k - 1]);
                        }
                    }
                },
            }
        }
    }
}

/// The path of the root model: the target of the first relationship to a
/// model in the relationships part at the root; an error when there is none.
pub fn find_root_model_path(root_rels: &Relationships) -> (r: Result<String, Error>)
    ensures
        match first_model_target(root_rels.relationships@) {
            Some(t) => r matches Ok(s) && s@ == t,
            None => r matches Err(Error::ReadError(m)) && m@ == "Root model relationship not found"@,
        },
{
    let rs = &root_rels.relationships;
    let mut i: usize = 0;
    assert(rs@.skip(0) == rs@);
    while i < rs.len()
        invariant
            rs@ == root_rels.relationships@,
            i <= rs.len(),
            first_model_target(rs@) == first_model_target(rs@.skip(i as int)),
        decreases rs.len() - i,
    {
        assert(rs@.skip(i as int).drop_first() == rs@.skip(i + 1));
        assert(rs@.skip(i as int)[0] == rs@[i as int]);
        match rs[i].relationship_type {
            RelationshipType::Model => {
                return Ok(rs[i].target.clone());
            },
            _ => {},
        }
        i = i + 1;
    }
    assert(rs@.skip(i as int).len() == 0);
    Err(Error::ReadError("Root model relationship not found".to_owned()))
}

/// The extension that `std::path::Path::extension` finds in the path, if any.
pub uninterp spec fn extension_of(path: Seq<char>) -> Option<Seq<char>>;

/// Whether `std::path::Path` compares the two paths equal, component by component.
pub uninterp spec fn paths_equal(a: Seq<char>, b: Seq<char>) -> bool;

/// Calls `Path::extension` on `path` and gives the extension as a string.
/// The answer is a function of the string alone, named `extension_of`; how a
/// path splits into a file name and an extension is left unsaid.
#[verifier::external_body]
fn path_extension(path: &str) -> (r: Option<String>)
    ensures
        opt_view(r) == extension_of(path@),
{
    match std::path::Path::new(path).extension() {
        Some(e) => Some(e.to_string_lossy().into_owned()),
        None => None,
    }
}

/// Compares the two paths with `Path`'s `==`. The answer is a function of
/// the two strings alone, named `paths_equal`; how paths split into
/// components is left unsaid.
#[verifier::external_body]
fn same_path(a: &str, b: &str) -> (r: bool)
    ensures
        r == paths_equal(a@, b@),
{
    std::path::Path::new(a) == std::path::Path::new(b)
}

/// Whether the extension of `path` is `ext`.
fn has_rels_extension(path: &str, ext: &str) -> (r: bool)
    ensures
        r == (extension_of(path@) == Some(ext@)),
{
    match path_extension(path) {
        Some(e) => str_equal(e.as_str(), ext),
        None => false,
    }
}

/// The key under which a file of the archive is kept as a relationships
/// part, if it is one: a file (not a folder) with a name, whose extension is
/// that of relationships parts, other than the root relationships part. The
/// key is its name led by a slash; a name that is not valid UTF-8 is an error,
/// worded as the package readers word it, or as the pull reader does where
/// `pull_reader` holds.
pub fn relationship_file_path(
    is_file: bool,
    enclosed_name: Option<&str>,
    name_is_utf8: bool,
    rels_ext: &str,
    root_rels_filename: &str,
    pull_reader: bool,
) -> (r: Result<Option<String>, Error>)
    ensures
        match enclosed_name {
            Some(p) => if is_file && extension_of(p@) == Some(rels_ext@) && !paths_equal(p@, root_rels_filename@) {
                if name_is_utf8 {
                    r matches Ok(Some(k)) && k@ == seq!['/'] + p@
                } else {
                    r matches Err(Error::ReadError(m)) && m@ == (if pull_reader {
                        "Failed to read the relationship file path"@
                    } else {
                        "Failed to read relationship file path"@
                    })
                }
            } else {
                r matches Ok(None)
            },
            None => r matches Ok(None),
        },
{
    match enclosed_name {
        Some(p) => {
            if is_file && has_rels_extension(p, rels_ext) && !same_path(p, root_rels_filename) {
                if name_is_utf8 {
                    let mut k = String::new();
                    k.push('/');
                    k.append(p);
                    Ok(Some(k))
                } else if pull_reader {
                    Err(Error::ReadError("Failed to read the relationship file path".to_owned()))
                } else {
                    Err(Error::ReadError("Failed to read relationship file path".to_owned()))
                }
            } else {
                Ok(None)
            }
        },
        None => Ok(None),
    }
}

/// All the relationships of the relationships parts `e`, part after part.
pub open spec fn all_relationships(e: Seq<(Seq<char>, Relationships)>) -> Seq<Relationship>
    decreases e.len(),
{
    if e.len() == 0 {
        Seq::empty()
    } else {
        all_relationships(e.drop_last()) + e.last().1.relationships@
    }
}

/// What to do with a part that a relationship refers to.
#[derive(Debug, PartialEq, Eq)]
pub enum ReadKind {
    /// Decode it as a thumbnail.
    Thumbnail,
    /// Read it as a model; the root model when `is_root`.
    Model { is_root: bool },
    /// Keep its bytes; the relationship type.
    Unknown(String),
}

/// One part to read: the target path as the relationship gives it, the name
/// of its file in the archive, and what to do with it.
#[derive(Debug, PartialEq, Eq)]
pub struct ReadStep {
    pub target: String,
    pub zip_name: String,
    pub kind: ReadKind,
}

/// The step for a relationship, for a package whose root model is at `root`.
pub open spec fn read_step_for(rel: Relationship, root: Seq<char>, s: ReadStep) -> bool {
    &&& s.target@ == rel.target@
    &&& s.zip_name@ == strip_leading_slash(rel.target@)
    &&& match rel.relationship_type {
        RelationshipType::Thumbnail => s.kind is Thumbnail,
        RelationshipType::Model => s.kind == (ReadKind::Model { is_root: rel.target@ == root }),
        RelationshipType::Unknown(t) => s.kind matches ReadKind::Unknown(u) && u@ == t@,
    }
}

/// The parts to read for the relationships parts `relationships`, one for
/// each relationship, part after part; the model at `root_model_path` is the
/// root model.
pub fn read_steps(relationships: &PathMap<Relationships>, root_model_path: &str) -> (r: Vec<ReadStep>)
    ensures
        r@.len() == all_relationships(relationships.entries()).len(),
        forall|k: int| 0 <= k < r@.len() ==> read_step_for(
            #[trigger] all_relationships(relationships.entries())[k], root_model_path@, r@[k]),
{
    let ghost e = relationships.entries();
    let mut out: Vec<ReadStep> = Vec::new();
    let n = relationships.len();
    let mut i: usize = 0;
    while i < n
        invariant
            n == e.len(),
            e == relationships.entries(),
            i <= n,
            out@.len() == all_relationships(e.take(i as int)).len(),
            forall|k: int| 0 <= k < out@.len() ==> read_step_for(
                #[trigger] all_relationships(e.take(i as int))[k], root_model_path@, out@[k]),
        decreases n - i,
    {
        let (_, rels) = relationships.entry_at(i);
        let ghost before = all_relationships(e.take(i as int));
        proof {
            assert(e.take(i + 1).drop_last() == e.take(i as int));
        }
        let m = rels.relationships.len();
        let mut j: usize = 0;
        while j < m
            invariant
                m == rels.relationships@.len(),
                j <= m,
                out@.len() == before.len() + j,
                forall|k: int| 0 <= k < before.len() ==> read_step_for(#[trigger] before[k], root_model_path@, out@[k]),
                forall|k: int| 0 <= k < j ==> read_step_for(
                    #[trigger] rels.relationships@[k], root_model_path@, out@[before.len() + k]),
            decreases m - j,
        {
            let rel = &rels.relationships[j];
            let zip_name = try_strip_leading_slash(rel.target.as_str()).to_owned();
            let kind = match &rel.relationship_type {
                RelationshipType::Thumbnail => ReadKind::Thumbnail,
                RelationshipType::Model => ReadKind::Model { is_root: str_equal(rel.target.as_str(), root_model_path) },
                RelationshipType::Unknown(t) => ReadKind::Unknown(t.clone()),
            };
            out.push(ReadStep { target: rel.target.clone(), zip_name, kind });
            j = j + 1;
        }
        proof {
            let now = all_relationships(e.take(i + 1));
            assert(now == before + rels.relationships@);
            assert forall|k: int| 0 <= k < out@.len() implies read_step_for(#[trigger] now[k], root_model_path@, out@[k]) by {
                if k >= before.len() {
                    assert(now[k] == rels.relationships@[k - before.len()]);
                }
            }
        }
        i = i + 1;
    }
    assert(e.take(n as int) == e);
    out
}

/// The kinds of part that a relationship can refer to.
#[derive(Debug, Clone, Copy, PartialEq, Eq, Structural)]
pub enum PartKind {
    Model,
    Thumbnail,
    Unknown,
}

/// Whether the relationship refers to a part of the kind `k`.
pub open spec fn refers_to(rel: Relationship, k: PartKind) -> bool {
    match k {
        PartKind::Model => rel.relationship_type is Model,
        PartKind::Thumbnail => rel.relationship_type is Thumbnail,
        PartKind::Unknown => rel.relationship_type is Unknown,
    }
}

/// The targets of the relationships of `rs` that refer to a part of the kind `k`, in order.
pub open spec fn targets_of_kind(rs: Seq<Relationship>, k: PartKind) -> Seq<Seq<char>>
    decreases rs.len(),
{
    if rs.len() == 0 {
        Seq::empty()
    } else if refers_to(rs.last(), k) {
        targets_of_kind(rs.drop_last(), k).push(rs.last().target@)
    } else {
        targets_of_kind(rs.drop_last(), k)
    }
}

/// The targets of the relationships that refer to a kind of part are those
/// of exactly the relationships of the list that refer to it, in order.
pub proof fn lemma_targets_of_kind_are_those_referring(rs: Seq<Relationship>, k: PartKind)
    ensures
        targets_of_kind(rs, k) == rs.filter(|r: Relationship| refers_to(r, k)).map_values(|r: Relationship| r.target@),
    decreases rs.len(),
{
    reveal(Seq::filter);
    if rs.len() > 0 {
        lemma_targets_of_kind_are_those_referring(rs.drop_last(), k);
        let f = rs.drop_last().filter(|r: Relationship| refers_to(r, k));
        if refers_to(rs.last(), k) {
            assert(f.push(rs.last()).map_values(|r: Relationship| r.target@) =~= f.map_values(
                |r: Relationship| r.target@,
            ).push(rs.last().target@));
        }
    } else {
        assert(rs.filter(|r: Relationship| refers_to(r, k)).map_values(|r: Relationship| r.target@) =~= Seq::<Seq<char>>::empty());
    }
}

proof fn lemma_targets_concat(a: Seq<Relationship>, b: Seq<Relationship>, k: PartKind)
    ensures
        targets_of_kind(a + b, k) == targets_of_kind(a, k) + targets_of_kind(b, k),
    decreases b.len(),
{
    if b.len() == 0 {
        assert(a + b == a);
    } else {
        assert((a + b).drop_last() == a + b.drop_last());
        lemma_targets_concat(a, b.drop_last(), k);
    }
}

fn rel_refers_to(rel: &Relationship, k: PartKind) -> (r: bool)
    ensures
        r == refers_to(*rel, k),
{
    match (&rel.relationship_type, k) {
        (RelationshipType::Model, PartKind::Model) => true,
        (RelationshipType::Thumbnail, PartKind::Thumbnail) => true,
        (RelationshipType::Unknown(_), PartKind::Unknown) => true,
        _ => false,
    }
}

/// The targets of all relationships that refer to a part of the kind `kind`,
/// part after part.
pub fn part_paths(relationships: &PathMap<Relationships>, kind: PartKind) -> (r: Vec<String>)
    ensures
        r@.map_values(|s: String| s@) == targets_of_kind(all_relationships(relationships.entries()), kind),
{
    let ghost e = relationships.entries();
    let mut out: Vec<String> = Vec::new();
    let n = relationships.len();
    let mut i: usize = 0;
    while i < n
        invariant
            n == e.len(),
            e == relationships.entries(),
            i <= n,
            out@.map_values(|s: String| s@) == targets_of_kind(all_relationships(e.take(i as int)), kind),
        decreases n - i,
    {
        let (_, rels) = relationships.entry_at(i);
        let ghost before = all_relationships(e.take(i as int));
        proof {
            assert(e.take(i + 1).drop_last() == e.take(i as int));
        }
        let m = rels.relationships.len();
        let mut j: usize = 0;
        while j < m
            invariant
                m == rels.relationships@.len(),
                j <= m,
                out@.map_values(|s: String| s@) == targets_of_kind(before + rels.relationships@.take(j as int), kind),
            decreases m - j,
        {
            let rel = &rels.relationships[j];
            let ghost prev = out@;
            proof {
                assert((before + rels.relationships@.take(j + 1)).drop_last() == before + rels.relationships@.take(j as int));
                assert((before + rels.relationships@.take(j + 1)).last() == *rel);
            }
            if rel_refers_to(rel, kind) {
                out.push(rel.target.clone());
                assert(out@.map_values(|s: String| s@) == prev.map_values(|s: String| s@).push(rel.target@));
            }
            j = j + 1;
        }
        assert(rels.relationships@.take(m as int) == rels.relationships@);
        i = i + 1;
    }
    assert(e.take(n as int) == e);
    out
}

/// The paths of all models that the relationships refer to.
pub fn model_paths(relationships: &PathMap<Relationships>) -> (r: Vec<String>)
    ensures
        r@.map_values(|s: String| s@) == targets_of_kind(all_relationships(relationships.entries()), PartKind::Model),
{
    part_paths(relationships, PartKind::Model)
}

/// The paths of all thumbnails that the relationships refer to.
pub fn thumbnail_paths(relationships: &PathMap<Relationships>) -> (r: Vec<String>)
    ensures
        r@.map_values(|s: String| s@) == targets_of_kind(all_relationships(relationships.entries()), PartKind::Thumbnail),
{
    part_paths(relationships, PartKind::Thumbnail)
}

/// The paths of all parts of unknown kinds that the relationships refer to.
pub fn unknown_part_paths(relationships: &PathMap<Relationships>) -> (r: Vec<String>)
    ensures
        r@.map_values(|s: String| s@) == targets_of_kind(all_relationships(relationships.entries()), PartKind::Unknown),
{
    part_paths(relationships, PartKind::Unknown)
}

/// Whether some relationship refers to the part `path` as a part of the kind `kind`.
#[verifier::loop_isolation(false)]
pub fn refers_to_part(relationships: &PathMap<Relationships>, path: &str, kind: PartKind) -> (r: bool)
    ensures
        r == exists|k: int| 0 <= k < all_relationships(relationships.entries()).len()
            && (#[trigger] all_relationships(relationships.entries())[k]).target@ == path@
            && refers_to(all_relationships(relationships.entries())[k], kind),
{
    let ghost e = relationships.entries();
    let n = relationships.len();
    let mut i: usize = 0;
    while i < n
        invariant
            n == e.len(),
            e == relationships.entries(),
            i <= n,
            forall|k: int| 0 <= k < all_relationships(e.take(i as int)).len()
                ==> !((#[trigger] all_relationships(e.take(i as int))[k]).target@ == path@
                && refers_to(all_relationships(e.take(i as int))[k], kind)),
        decreases n - i,
    {
        let (_, rels) = relationships.entry_at(i);
        let ghost before = all_relationships(e.take(i as int));
        proof {
            assert(e.take(i + 1).drop_last() == e.take(i as int));
            lemma_all_relationships_prefix(e, i as int + 1);
        }
        let m = rels.relationships.len();
        let mut j: usize = 0;
        while j < m
            invariant
                m == rels.relationships@.len(),
                j <= m,
                forall|k: int| 0 <= k < before.len() ==> !((#[trigger] before[k]).target@ == path@ && refers_to(before[k], kind)),
                forall|k: int| 0 <= k < j ==> !((#[trigger] rels.relationships@[k]).target@ == path@
                    && refers_to(rels.relationships@[k], kind)),
            decreases m - j,
        {
            let rel = &rels.relationships[j];
            if str_equal(rel.target.as_str(), path) && rel_refers_to(rel, kind) {
                proof {
                    let all = all_relationships(e);
                    let k = before.len() + j;
                    assert(all_relationships(e.take(i + 1)) == before + rels.relationships@);
                    assert(all_relationships(e.take(i + 1))[k] == *rel);
                    assert(all[k] == *rel);
                }
                return true;
            }
            j = j + 1;
        }
        proof {
            let now = all_relationships(e.take(i + 1));
            assert(now == before + rels.relationships@);
            assert forall|k: int| 0 <= k < now.len() implies !((#[trigger] now[k]).target@ == path@ && refers_to(now[k], kind)) by {
                if k >= before.len() {
                    assert(now[k] == rels.relationships@[k - before.len()]);
                } else {
                    assert(now[k] == before[k]);
                }
            }
        }
        i = i + 1;
    }
    assert(e.take(n as int) == e);
    false
}

/// The relationships of the first `i` parts come first among all relationships.
proof fn lemma_all_relationships_prefix(e: Seq<(Seq<char>, Relationships)>, i: int)
    requires
        0 <= i <= e.len(),
    ensures
        all_relationships(e.take(i)).len() <= all_relationships(e).len(),
        forall|k: int| 0 <= k < all_relationships(e.take(i)).len()
            ==> #[trigger] all_relationships(e)[k] == all_relationships(e.take(i))[k],
    decreases e.len() - i,
{
    if i < e.len() {
        lemma_all_relationships_prefix(e, i + 1);
        assert(e.take(i + 1).drop_last() == e.take(i));
    } else {
        assert(e.take(i) == e);
    }
}

/// Whether `path` is the path of a sub-model: not that of the root model,
/// and referred to by some relationship as a model.
pub fn is_sub_model_path(relationships: &PathMap<Relationships>, root_model_path: &str, path: &str) -> (r: bool)
    ensures
        r == (path@ != root_model_path@ && exists|k: int| 0 <= k < all_relationships(relationships.entries()).len()
            && (#[trigger] all_relationships(relationships.entries())[k]).target@ == path@
            && refers_to(all_relationships(relationships.entries())[k], PartKind::Model)),
{
    if str_equal(path, root_model_path) {
        return false;
    }
    refers_to_part(relationships, path, PartKind::Model)
}

/// Whether the parts that a lazy reader loads are kept after their first
/// use, or read again from the archive each time.
#[derive(Debug, Clone, Copy, PartialEq, Eq, Structural)]
pub enum CachePolicy {
    /// Keep everything after its first use.
    CacheAll,
    /// Keep nothing; read again each time.
    NoCache,
}

impl Default for CachePolicy {
    /// Nothing is kept by default.
    fn default() -> (p: CachePolicy)
        ensures
            p == CachePolicy::NoCache,
    {
        CachePolicy::NoCache
    }
}

} // verus!
