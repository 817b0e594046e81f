//! Paths as the operating system splits them.

use vstd::prelude::*;

use crate::text::same_text;

verus! {

/// One component of a path.
#[derive(Debug, Clone)]
pub enum PathPart {
    /// A Windows drive or share.
    Prefix(String),
    /// The root.
    RootDir,
    /// `.`
    CurDir,
    /// `..`
    ParentDir,
    /// A name.
    Normal(String),
}

/// What a component is.
pub enum PartView {
    Prefix(Seq<char>),
    RootDir,
    CurDir,
    ParentDir,
    Normal(Seq<char>),
}

impl View for PathPart {
    type V = PartView;

    open spec fn view(&self) -> PartView {
        match self {
            PathPart::Prefix(name) => PartView::Prefix(name@),
            PathPart::RootDir => PartView::RootDir,
            PathPart::CurDir => PartView::CurDir,
            PathPart::ParentDir => PartView::ParentDir,
            PathPart::Normal(name) => PartView::Normal(name@),
        }
    }
}

/// A path: its components, and the way it is printed.
#[derive(Debug, Clone)]
pub struct HostPath {
    pub rendered: String,
    pub parts: Vec<PathPart>,
}

/// The components of a path.
pub open spec fn parts_view(parts: Seq<PathPart>) -> Seq<PartView> {
    Seq::new(parts.len(), |i: int| parts[i]@)
}

impl HostPath {
    /// The components. Two paths are the same path when these are equal.
    pub open spec fn components(self) -> Seq<PartView> {
        parts_view(self.parts@)
    }
}

/// The path that contains a path; a root, a bare prefix and the empty path have
/// none.
pub open spec fn parent_of(parts: Seq<PartView>) -> Option<Seq<PartView>> {
    if parts.len() > 0 && (parts.last() is Normal || parts.last() is CurDir
        || parts.last() is ParentDir) {
        Some(parts.drop_last())
    } else {
        None
    }
}

/// The last name of a path.
pub open spec fn name_of(parts: Seq<PartView>) -> Option<Seq<char>> {
    if parts.len() > 0 {
        match parts.last() {
            PartView::Normal(name) => Some(name),
            _ => None,
        }
    } else {
        None
    }
}

/// Whether two components are equal.
pub fn same_part(left: &PathPart, right: &PathPart) -> (same: bool)
    ensures
        same == (left@ == right@),
{
    match (left, right) {
        (PathPart::Prefix(l), PathPart::Prefix(r)) => same_text(l.as_str(), r.as_str()),
        (PathPart::RootDir, PathPart::RootDir) => true,
        (PathPart::CurDir, PathPart::CurDir) => true,
        (PathPart::ParentDir, PathPart::ParentDir) => true,
        (PathPart::Normal(l), PathPart::Normal(r)) => same_text(l.as_str(), r.as_str()),
        _ => false,
    }
}

/// Whether the first `count` components of `left` are all of `right`.
fn same_prefix(left: &Vec<PathPart>, count: usize, right: &Vec<PathPart>) -> (same: bool)
    requires
        count <= left@.len(),
    ensures
        same == (parts_view(left@).take(count as int) == parts_view(right@)),
{
    if count != right.len() {
        assert(parts_view(left@).take(count as int).len() != parts_view(right@).len());
        return false;
    }
    let mut i: usize = 0;
    while i < count
        invariant
            i <= count <= left@.len(),
            count == right@.len(),
            forall|k: int| 0 <= k < i ==> left@[k]@ == #[trigger] right@[k]@,
        decreases count - i,
    {
        if !same_part(&left[i], &right[i]) {
            assert(parts_view(left@).take(count as int)[i as int] != parts_view(right@)[i as int]);
            return false;
        }
        i = i + 1;
    }
    assert(parts_view(left@).take(count as int) == parts_view(right@));
    true
}

/// Whether two paths are the same path, component by component.
pub fn same_path(left: &HostPath, right: &HostPath) -> (same: bool)
    ensures
        same == (left.components() == right.components()),
{
    assert(left.components().take(left.parts@.len() as int) == left.components());
    same_prefix(&left.parts, left.parts.len(), &right.parts)
}

/// Whether `directory` is exactly what contains `path`.
pub fn lies_directly_in(path: &HostPath, directory: &HostPath) -> (inside: bool)
    ensures
        inside == (parent_of(path.components()) == Some(directory.components())),
{
    let n: usize = path.parts.len();
    if n == 0 {
        return false;
    }
    assert(path.components().last() == path.parts@[n - 1]@);
    assert(path.components().drop_last() == path.components().take(n - 1));
    match &path.parts[n - 1] {
        PathPart::Normal(_) | PathPart::CurDir | PathPart::ParentDir => same_prefix(
            &path.parts,
            n - 1,
            &directory.parts,
        ),
        _ => false,
    }
}

/// Whether any component of a path is this name.
pub fn has_component(path: &HostPath, wanted: &str) -> (found: bool)
    ensures
        found == path.components().contains(PartView::Normal(wanted@)),
{
    let mut i: usize = 0;
    while i < path.parts.len()
        invariant
            i <= path.parts@.len(),
            forall|k: int|
                0 <= k < i ==> (#[trigger] path.parts@[k])@ != PartView::Normal(wanted@),
        decreases path.parts.len() - i,
    {
        match &path.parts[i] {
            PathPart::Normal(name) => {
                if same_text(name.as_str(), wanted) {
                    assert(path.components()[i as int] == PartView::Normal(wanted@));
                    return true;
                }
            },
            _ => {},
        }
        i = i + 1;
    }
    false
}

/// Whether two paths name the same file: by where they really lead when both
/// can be resolved, and by how they are written otherwise.
pub open spec fn names_same_file(
    left: Seq<PartView>,
    right: Seq<PartView>,
    left_resolved: Option<Seq<PartView>>,
    right_resolved: Option<Seq<PartView>>,
) -> bool {
    match (left_resolved, right_resolved) {
        (Some(l), Some(r)) => l == r,
        _ => left == right,
    }
}

/// The components of an optional path.
pub open spec fn opt_components(path: Option<HostPath>) -> Option<Seq<PartView>> {
    match path {
        Some(found) => Some(found.components()),
        None => None,
    }
}

/// Whether two paths name the same file, given where each resolves to.
pub fn same_file(
    left: &HostPath,
    right: &HostPath,
    left_resolved: &Option<HostPath>,
    right_resolved: &Option<HostPath>,
) -> (same: bool)
    ensures
        same == names_same_file(
            left.components(),
            right.components(),
            opt_components(*left_resolved),
            opt_components(*right_resolved),
        ),
{
    match (left_resolved, right_resolved) {
        (Some(l), Some(r)) => same_path(l, r),
        _ => same_path(left, right),
    }
}

/// A path lies in a directory when it is the directory with one component more,
/// and that component is no root and no prefix.
pub proof fn law_a_path_is_its_parent_and_one_component(
    parts: Seq<PartView>,
    directory: Seq<PartView>,
    last: PartView,
)
    ensures
        parent_of(directory.push(last)) == (if last is RootDir || last is Prefix {
            None
        } else {
            Some(directory)
        }),
        parent_of(parts) == Some(directory) ==> parts.len() == directory.len() + 1 && parts
            == directory.push(parts.last()),
{
    assert(directory.push(last).drop_last() =~= directory);
    if parts.len() > 0 {
        assert(parts =~= parts.drop_last().push(parts.last()));
    }
}

/// The name of a path is the name that was put at its end, and a path that ends
/// with anything else has none.
pub proof fn law_a_path_is_named_by_its_end(parts: Seq<PartView>, name: Seq<char>)
    ensures
        name_of(parts.push(PartView::Normal(name))) == Some(name),
        name_of(parts.push(PartView::RootDir)) is None && name_of(parts.push(PartView::CurDir))
            is None && name_of(parts.push(PartView::ParentDir)) is None && name_of(
            parts.push(PartView::Prefix(name)),
        ) is None,
        parts.len() == 0 ==> name_of(parts) is None,
{
}

/// Where both paths can be resolved, where they lead decides alone. Otherwise
/// they name the same file only if they are written alike. Which of the two comes
/// first never matters.
pub proof fn law_resolved_paths_are_compared_by_where_they_lead(
    left: Seq<PartView>,
    right: Seq<PartView>,
    left_resolved: Option<Seq<PartView>>,
    right_resolved: Option<Seq<PartView>>,
)
    ensures
        left_resolved is Some && right_resolved is Some ==> names_same_file(
            left,
            right,
            left_resolved,
            right_resolved,
        ) == (left_resolved == right_resolved),
        left_resolved is None || right_resolved is None ==> names_same_file(
            left,
            right,
            left_resolved,
            right_resolved,
        ) == (left == right),
        names_same_file(left, right, left_resolved, right_resolved) == names_same_file(
            right,
            left,
            right_resolved,
            left_resolved,
        ),
{
}

/// Of two paths that were resolved, the resolved ones are compared, component by
/// component.
pub proof fn law_resolved_paths_are_compared_by_components(
    left: HostPath,
    right: HostPath,
    left_resolved: HostPath,
    right_resolved: HostPath,
)
    ensures
        names_same_file(
            left.components(),
            right.components(),
            opt_components(Some(left_resolved)),
            opt_components(Some(right_resolved)),
        ) <==> parts_view(left_resolved.parts@) == parts_view(right_resolved.parts@),
        names_same_file(
            left.components(),
            right.components(),
            opt_components(None),
            opt_components(Some(right_resolved)),
        ) <==> parts_view(left.parts@) == parts_view(right.parts@),
{
}

} // verus!
