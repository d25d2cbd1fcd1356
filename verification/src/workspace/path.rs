//! Paths as a host reads them.
//!
//! What a path text means depends on the host: on some hosts a backslash parts names, or a
//! drive letter may stand in front. The rules here therefore go by the host's reading of a
//! text, which is its components and whether it is absolute. How a POSIX host reads a text is
//! written out below; elsewhere the host is asked.
use vstd::prelude::*;
use crate::error::{invalid, unit_result, AppCommandError, AppErrorView};
use crate::text::{chars_of, pieces_of, same_text, split, split_chars, string_of, CharSet};

verus! {

/// One component of a path.
#[derive(Debug)]
pub enum PathComponent {
    /// A drive or share in front of the path, as the host writes it.
    Prefix(String),
    /// The root directory.
    RootDir,
    /// The current directory, `.`.
    CurDir,
    /// The parent directory, `..`.
    ParentDir,
    /// A named entry.
    Normal(String),
}

/// What a `PathComponent` stands for.
pub enum ComponentView {
    Prefix(Seq<char>),
    RootDir,
    CurDir,
    ParentDir,
    Normal(Seq<char>),
}

impl View for PathComponent {
    type V = ComponentView;

    open spec fn view(&self) -> ComponentView {
        match self {
            PathComponent::Prefix(s) => ComponentView::Prefix(s@),
            PathComponent::RootDir => ComponentView::RootDir,
            PathComponent::CurDir => ComponentView::CurDir,
            PathComponent::ParentDir => ComponentView::ParentDir,
            PathComponent::Normal(s) => ComponentView::Normal(s@),
        }
    }
}

/// The components that a vector holds.
pub open spec fn components_of(v: Seq<PathComponent>) -> Seq<ComponentView> {
    v.map_values(|c: PathComponent| c@)
}

/// How a host reads a path.
#[derive(Debug)]
pub struct PathReading {
    pub is_absolute: bool,
    pub components: Vec<PathComponent>,
}

/// What a `PathReading` says.
pub struct ReadingView {
    pub is_absolute: bool,
    pub components: Seq<ComponentView>,
}

impl View for PathReading {
    type V = ReadingView;

    open spec fn view(&self) -> ReadingView {
        ReadingView {
            is_absolute: self.is_absolute,
            components: components_of(self.components@),
        }
    }
}

/// Whether a POSIX path starts at the root directory.
pub open spec fn absolute(s: Seq<char>) -> bool {
    s.len() > 0 && s[0] == '/'
}

/// The component that the piece at position `i` of a POSIX path contributes, if any.
pub open spec fn component_at(i: int, piece: Seq<char>) -> Option<ComponentView> {
    if piece.len() == 0 {
        None
    } else if piece == seq!['.'] {
        if i == 0 {
            Some(ComponentView::CurDir)
        } else {
            None
        }
    } else if piece == seq!['.', '.'] {
        Some(ComponentView::ParentDir)
    } else {
        Some(ComponentView::Normal(piece))
    }
}

/// The components that the pieces of a path contribute.
pub open spec fn piece_components(pieces: Seq<Seq<char>>) -> Seq<ComponentView>
    decreases pieces.len(),
{
    if pieces.len() == 0 {
        Seq::empty()
    } else {
        let head = piece_components(pieces.drop_last());
        match component_at(pieces.len() - 1, pieces.last()) {
            Some(c) => head.push(c),
            None => head,
        }
    }
}

/// The components of a path.
pub open spec fn components(s: Seq<char>) -> Seq<ComponentView> {
    let body = piece_components(split(s, CharSet::Slash));
    if absolute(s) {
        seq![ComponentView::RootDir] + body
    } else {
        body
    }
}

/// How a POSIX host reads a text.
pub open spec fn posix_reading(s: Seq<char>) -> ReadingView {
    ReadingView { is_absolute: absolute(s), components: components(s) }
}

/// Whether the component may stand in a path below a root.
pub open spec fn descends(c: ComponentView) -> bool {
    c is Normal || c is CurDir
}

/// The first component that may not stand in a path below a root.
pub open spec fn first_bad(comps: Seq<ComponentView>) -> Option<ComponentView>
    decreases comps.len(),
{
    if comps.len() == 0 {
        None
    } else if descends(comps[0]) {
        first_bad(comps.drop_first())
    } else {
        Some(comps[0])
    }
}

/// Whether a path is one below a root, and if not why.
pub open spec fn relative_verdict(rel: ReadingView) -> Result<(), AppErrorView> {
    if rel.is_absolute {
        Err(invalid("Path must be relative"@))
    } else {
        match first_bad(rel.components) {
            None => Ok(()),
            Some(ComponentView::ParentDir) => Err(invalid("Path cannot contain '..'"@)),
            Some(_) => Err(invalid("Invalid path component"@)),
        }
    }
}

/// The components without those that stand for the current directory.
pub open spec fn without_cur(comps: Seq<ComponentView>) -> Seq<ComponentView>
    decreases comps.len(),
{
    if comps.len() == 0 {
        Seq::empty()
    } else {
        let head = without_cur(comps.drop_last());
        if comps.last() is CurDir {
            head
        } else {
            head.push(comps.last())
        }
    }
}

/// The reading of a path below a root, joined to that root.
pub open spec fn joined(root: ReadingView, rel: ReadingView) -> ReadingView {
    ReadingView {
        is_absolute: root.is_absolute,
        components: if root.components.len() == 0 {
            rel.components
        } else {
            root.components + without_cur(rel.components)
        },
    }
}

/// The path without its last component. There is none for a path of no components, nor for
/// one that ends with a root or a drive.
pub open spec fn parent_of(path: ReadingView) -> Option<ReadingView> {
    if path.components.len() == 0 || path.components.last() is RootDir || path.components.last()
        is Prefix {
        None
    } else {
        Some(ReadingView { components: path.components.drop_last(), ..path })
    }
}

/// The name that a path ends in, if its last component is a named entry.
pub open spec fn file_name(comps: Seq<ComponentView>) -> Option<Seq<char>> {
    if comps.len() > 0 {
        match comps.last() {
            ComponentView::Normal(n) => Some(n),
            _ => None,
        }
    } else {
        None
    }
}

/// Whether the components of `base` are the first ones of `path`.
pub open spec fn starts_with(path: Seq<ComponentView>, base: Seq<ComponentView>) -> bool {
    base.len() <= path.len() && path.take(base.len() as int) == base
}

proof fn lemma_components_push(v: Seq<PathComponent>, c: PathComponent)
    ensures
        components_of(v.push(c)) == components_of(v).push(c@),
{
    assert(components_of(v.push(c)) =~= components_of(v).push(c@));
}

/// The component that the piece at position `i` contributes, if any.
fn piece_component(i: usize, piece: &Vec<char>) -> (r: Option<PathComponent>)
    ensures
        match r {
            Some(c) => component_at(i as int, piece@) == Some(c@),
            None => component_at(i as int, piece@) is None,
        },
{
    if piece.len() == 0 {
        None
    } else if piece.len() == 1 && piece[0] == '.' {
        assert(piece@ =~= seq!['.']);
        if i == 0 {
            Some(PathComponent::CurDir)
        } else {
            None
        }
    } else if piece.len() == 2 && piece[0] == '.' && piece[1] == '.' {
        assert(piece@ =~= seq!['.', '.']);
        assert(piece@ != seq!['.']) by {
            assert(seq!['.'].len() == 1);
        }
        Some(PathComponent::ParentDir)
    } else {
        assert(seq!['.'].len() == 1 && seq!['.'][0] == '.');
        assert(seq!['.', '.'].len() == 2 && seq!['.', '.'][0] == '.' && seq!['.', '.'][1] == '.');
        Some(PathComponent::Normal(string_of(piece)))
    }
}

/// Reads a text as a POSIX host does.
pub fn read_posix_path(path: &str) -> (r: PathReading)
    ensures
        r@ == posix_reading(path@),
{
    let chars = chars_of(path);
    let is_absolute = chars.len() > 0 && chars[0] == '/';
    let pieces = split_chars(&chars, CharSet::Slash);
    let ghost all = pieces_of(pieces@);
    let mut v: Vec<PathComponent> = Vec::new();
    let ghost mut root: Seq<ComponentView> = Seq::empty();
    if is_absolute {
        v.push(PathComponent::RootDir);
        proof {
            root = seq![ComponentView::RootDir];
        }
    }
    let mut i: usize = 0;
    assert(components_of(v@) =~= root + piece_components(all.take(0)));
    while i < pieces.len()
        invariant
            i <= pieces.len(),
            all == pieces_of(pieces@),
            components_of(v@) == root + piece_components(all.take(i as int)),
        decreases pieces.len() - i,
    {
        assert(all.take(i + 1).drop_last() == all.take(i as int));
        assert(all.take(i + 1).last() == pieces@[i as int]@);
        if let Some(c) = piece_component(i, &pieces[i]) {
            proof {
                lemma_components_push(v@, c);
            }
            v.push(c);
            assert(components_of(v@) =~= root + piece_components(all.take(i + 1)));
        }
        i += 1;
    }
    assert(all.take(i as int) == all);
    assert(components(path@) =~= root + piece_components(all));
    PathReading { is_absolute, components: v }
}

/// Decides whether `rel` is a path below a root. It must not be absolute and must have no
/// component but named entries and `.`; the first offending component decides on the message.
pub fn validate_relative_components(rel: &PathReading) -> (r: Result<(), AppCommandError>)
    ensures
        unit_result(r) == relative_verdict(rel@),
{
    if rel.is_absolute {
        return Err(AppCommandError::invalid_input("Path must be relative"));
    }
    let comps = &rel.components;
    let ghost all = components_of(comps@);
    let mut i: usize = 0;
    assert(all.skip(0) == all);
    while i < comps.len()
        invariant
            i <= comps.len(),
            comps == &rel.components,
            all == components_of(comps@),
            first_bad(all) == first_bad(all.skip(i as int)),
            !rel.is_absolute,
        decreases comps.len() - i,
    {
        assert(all.skip(i as int)[0] == comps@[i as int]@);
        assert(all.skip(i as int).drop_first() == all.skip(i + 1));
        match &comps[i] {
            PathComponent::Normal(_) | PathComponent::CurDir => {},
            PathComponent::ParentDir => {
                return Err(AppCommandError::invalid_input("Path cannot contain '..'"));
            },
            PathComponent::RootDir | PathComponent::Prefix(_) => {
                return Err(AppCommandError::invalid_input("Invalid path component"));
            },
        }
        i += 1;
    }
    Ok(())
}

fn copy_component(c: &PathComponent) -> (r: PathComponent)
    ensures
        r@ == c@,
{
    match c {
        PathComponent::Prefix(s) => PathComponent::Prefix(s.clone()),
        PathComponent::RootDir => PathComponent::RootDir,
        PathComponent::CurDir => PathComponent::CurDir,
        PathComponent::ParentDir => PathComponent::ParentDir,
        PathComponent::Normal(s) => PathComponent::Normal(s.clone()),
    }
}

/// The first `n` components.
fn copy_components(comps: &Vec<PathComponent>, n: usize) -> (v: Vec<PathComponent>)
    requires
        n <= comps.len(),
    ensures
        components_of(v@) == components_of(comps@).take(n as int),
{
    let mut v: Vec<PathComponent> = Vec::new();
    let mut i: usize = 0;
    while i < n
        invariant
            i <= n <= comps.len(),
            components_of(v@) == components_of(comps@).take(i as int),
        decreases n - i,
    {
        let c = copy_component(&comps[i]);
        proof {
            lemma_components_push(v@, c);
        }
        v.push(c);
        assert(components_of(v@) =~= components_of(comps@).take(i + 1));
        i += 1;
    }
    v
}

impl PathReading {
    /// The same reading.
    pub fn copy(&self) -> (r: PathReading)
        ensures
            r@ == self@,
    {
        let components = copy_components(&self.components, self.components.len());
        assert(components_of(components@) =~= components_of(self.components@));
        PathReading { is_absolute: self.is_absolute, components }
    }
}

/// Joins a path to a root, if it is one below a root.
pub fn resolve_relative_path(root: &PathReading, rel: &PathReading) -> (r: Result<
    PathReading,
    AppCommandError,
>)
    ensures
        match relative_verdict(rel@) {
            Ok(_) => r matches Ok(path) && path@ == joined(root@, rel@),
            Err(e) => r matches Err(f) && f@ == e,
        },
{
    if let Err(e) = validate_relative_components(rel) {
        return Err(e);
    }
    let ghost below = components_of(rel.components@);
    if root.components.len() == 0 {
        let components = copy_components(&rel.components, rel.components.len());
        assert(components_of(components@) =~= below);
        return Ok(PathReading { is_absolute: root.is_absolute, components });
    }
    let ghost above = components_of(root.components@);
    let mut components = copy_components(&root.components, root.components.len());
    let mut i: usize = 0;
    assert(components_of(components@) =~= above + without_cur(below.take(0)));
    while i < rel.components.len()
        invariant
            i <= rel.components.len(),
            below == components_of(rel.components@),
            components_of(components@) == above + without_cur(below.take(i as int)),
        decreases rel.components.len() - i,
    {
        let c = copy_component(&rel.components[i]);
        assert(below.take(i + 1).drop_last() =~= below.take(i as int));
        assert(below.take(i + 1).last() == c@);
        match c {
            PathComponent::CurDir => {},
            other => {
                proof {
                    lemma_components_push(components@, other);
                }
                components.push(other);
                assert(components_of(components@) =~= above + without_cur(below.take(i + 1)));
            },
        }
        i += 1;
    }
    assert(below.take(i as int) =~= below);
    Ok(PathReading { is_absolute: root.is_absolute, components })
}

/// The path without its last component, if that is not a root or a drive.
pub fn parent_dir(path: &PathReading) -> (r: Option<PathReading>)
    ensures
        match r {
            Some(p) => parent_of(path@) == Some(p@),
            None => parent_of(path@) is None,
        },
{
    let n: usize = path.components.len();
    if n == 0 {
        return None;
    }
    assert(path@.components.last() == path.components@[n - 1]@);
    match &path.components[n - 1] {
        PathComponent::RootDir | PathComponent::Prefix(_) => None,
        _ => {
            let components = copy_components(&path.components, n - 1);
            assert(components_of(components@) =~= path@.components.drop_last());
            Some(PathReading { is_absolute: path.is_absolute, components })
        },
    }
}

/// The name that the path ends in, if its last component is a named entry.
pub fn base_name(path: &PathReading) -> (r: Option<String>)
    ensures
        match r {
            Some(n) => file_name(path@.components) == Some(n@),
            None => file_name(path@.components) is None,
        },
{
    let n: usize = path.components.len();
    if n == 0 {
        return None;
    }
    assert(path@.components.last() == path.components@[n - 1]@);
    match &path.components[n - 1] {
        PathComponent::Normal(name) => Some(name.clone()),
        _ => None,
    }
}

/// Whether two components are the same.
fn same_component(a: &PathComponent, b: &PathComponent) -> (r: bool)
    ensures
        r == (a@ == b@),
{
    match (a, b) {
        (PathComponent::Prefix(x), PathComponent::Prefix(y)) => same_text(x.as_str(), y.as_str()),
        (PathComponent::RootDir, PathComponent::RootDir) => true,
        (PathComponent::CurDir, PathComponent::CurDir) => true,
        (PathComponent::ParentDir, PathComponent::ParentDir) => true,
        (PathComponent::Normal(x), PathComponent::Normal(y)) => same_text(x.as_str(), y.as_str()),
        _ => false,
    }
}

/// Whether the components of `base` are the first ones of `path`.
pub fn components_start_with(path: &Vec<PathComponent>, base: &Vec<PathComponent>) -> (r: bool)
    ensures
        r == starts_with(components_of(path@), components_of(base@)),
{
    if base.len() > path.len() {
        return false;
    }
    let ghost p = components_of(path@);
    let ghost b = components_of(base@);
    let mut i: usize = 0;
    while i < base.len()
        invariant
            i <= base.len() <= path.len(),
            p == components_of(path@),
            b == components_of(base@),
            forall|j: int| 0 <= j < i ==> p[j] == b[j],
        decreases base.len() - i,
    {
        if !same_component(&path[i], &base[i]) {
            assert(p.take(b.len() as int)[i as int] == p[i as int]);
            assert(p[i as int] != b[i as int]);
            return false;
        }
        i += 1;
    }
    assert(p.take(b.len() as int) =~= b);
    true
}

/// Whether `path` lies at or below `base`, component by component.
pub fn path_starts_with(path: &PathReading, base: &PathReading) -> (r: bool)
    ensures
        r == starts_with(path@.components, base@.components),
{
    components_start_with(&path.components, &base.components)
}

/// The names of the named entries among the components.
pub open spec fn normal_names(comps: Seq<ComponentView>) -> Seq<Seq<char>>
    decreases comps.len(),
{
    if comps.len() == 0 {
        Seq::empty()
    } else {
        let head = normal_names(comps.drop_last());
        match comps.last() {
            ComponentView::Normal(n) => head.push(n),
            _ => head,
        }
    }
}

/// The names of the named entries among the components.
pub fn entry_names(comps: &Vec<PathComponent>) -> (v: Vec<String>)
    ensures
        names_of(v@) == normal_names(components_of(comps@)),
{
    let ghost all = components_of(comps@);
    let mut v: Vec<String> = Vec::new();
    let mut i: usize = 0;
    assert(names_of(v@) =~= normal_names(all.take(0)));
    while i < comps.len()
        invariant
            i <= comps.len(),
            all == components_of(comps@),
            names_of(v@) == normal_names(all.take(i as int)),
        decreases comps.len() - i,
    {
        assert(all.take(i + 1).drop_last() =~= all.take(i as int));
        assert(all.take(i + 1).last() == comps@[i as int]@);
        if let PathComponent::Normal(n) = &comps[i] {
            let name = n.clone();
            proof {
                lemma_names_push(v@, name);
            }
            v.push(name);
        }
        i += 1;
    }
    assert(all.take(i as int) =~= all);
    v
}

/// A place in the file system, reached from a path over named entries.
#[derive(Debug)]
pub struct EntryPath {
    /// The path to start from.
    pub base: String,
    /// The names of the entries to go through, one below the other.
    pub names: Vec<String>,
}

/// What an `EntryPath` stands for.
pub struct EntryView {
    pub base: Seq<char>,
    pub names: Seq<Seq<char>>,
}

impl View for EntryPath {
    type V = EntryView;

    open spec fn view(&self) -> EntryView {
        EntryView { base: self.base@, names: names_of(self.names@) }
    }
}

/// The names that a vector holds.
pub open spec fn names_of(v: Seq<String>) -> Seq<Seq<char>> {
    v.map_values(|s: String| s@)
}

/// A name more in the vector is a name more in the list.
pub proof fn lemma_names_push(v: Seq<String>, s: String)
    ensures
        names_of(v.push(s)) == names_of(v).push(s@),
{
    assert(names_of(v.push(s)) =~= names_of(v).push(s@));
}

/// The entry of the given name in a directory.
pub open spec fn entry_in(dir: EntryView, name: Seq<char>) -> EntryView {
    EntryView { base: dir.base, names: dir.names.push(name) }
}

/// The directory of an entry.
pub open spec fn dir_of(entry: EntryView) -> EntryView {
    EntryView { base: entry.base, names: entry.names.drop_last() }
}

impl EntryPath {
    /// The place that the path `base` itself names.
    pub fn at(base: &str) -> (e: EntryPath)
        ensures
            e@ == (EntryView { base: base@, names: Seq::empty() }),
    {
        let e = EntryPath { base: base.to_owned(), names: Vec::new() };
        assert(names_of(e.names@) =~= Seq::empty());
        e
    }

    /// The same place.
    pub fn copy(&self) -> (e: EntryPath)
        ensures
            e@ == self@,
    {
        let mut names: Vec<String> = Vec::new();
        let mut i: usize = 0;
        while i < self.names.len()
            invariant
                i <= self.names.len(),
                names_of(names@) == names_of(self.names@).take(i as int),
            decreases self.names.len() - i,
        {
            let name = self.names[i].clone();
            proof {
                lemma_names_push(names@, name);
            }
            names.push(name);
            assert(names_of(names@) =~= names_of(self.names@).take(i + 1));
            i += 1;
        }
        assert(names_of(self.names@).take(i as int) =~= names_of(self.names@));
        EntryPath { base: self.base.clone(), names }
    }

    /// The directory of this entry; a place without names is left as it is.
    pub fn dir(&self) -> (e: EntryPath)
        ensures
            self@.names.len() > 0 ==> e@ == dir_of(self@),
            self@.names.len() == 0 ==> e@ == self@,
    {
        let copied = self.copy();
        let ghost before = copied@;
        let mut names = copied.names;
        let _last = names.pop();
        assert(self@.names.len() > 0 ==> names_of(names@) =~= before.names.drop_last());
        assert(self@.names.len() == 0 ==> names_of(names@) =~= before.names);
        EntryPath { base: copied.base, names }
    }

    /// The entry of the given name in this directory.
    pub fn enter(self, name: &str) -> (e: EntryPath)
        ensures
            e@ == entry_in(self@, name@),
    {
        let ghost before = self@;
        let mut names = self.names;
        names.push(name.to_owned());
        assert(names_of(names@) =~= before.names.push(name@));
        EntryPath { base: self.base, names }
    }
}

} // verus!
