//! How joining acts on the components of a path.
use vstd::prelude::*;
use crate::error::{invalid, AppErrorView};
use crate::text::{join, lemma_split_concat, lemma_split_join, lemma_split_len, lemma_split_single, split, CharSet};
use super::path::{absolute, component_at, components, components_of, descends, dir_of, entry_in, file_name, first_bad, joined, names_of, normal_names, parent_of, piece_components, posix_reading, relative_verdict, starts_with, without_cur, ComponentView, EntryPath, EntryView, PathComponent, PathReading, ReadingView};

verus! {

/// Whether every component is a named entry.
pub open spec fn all_normal(comps: Seq<ComponentView>) -> bool {
    forall|i: int| 0 <= i < comps.len() ==> #[trigger] comps[i] is Normal
}

proof fn lemma_piece_components_concat(a: Seq<Seq<char>>, b: Seq<Seq<char>>)
    requires
        a.len() > 0,
    ensures
        piece_components(a + b) == piece_components(a) + without_cur(piece_components(b)),
    decreases b.len(),
{
    if b.len() == 0 {
        assert(a + b =~= a);
        assert(piece_components(a) + without_cur(piece_components(b)) =~= piece_components(a));
    } else {
        lemma_piece_components_concat(a, b.drop_last());
        assert((a + b).drop_last() =~= a + b.drop_last());
        assert((a + b).last() == b.last());
        let head = piece_components(b.drop_last());
        match component_at(b.len() - 1, b.last()) {
            Some(c) => {
                assert(piece_components(b) == head.push(c));
                assert(head.push(c).drop_last() =~= head);
            },
            None => {},
        }
        assert(piece_components(a + b) =~= piece_components(a) + without_cur(piece_components(b)));
    }
}

proof fn lemma_without_cur_normal(comps: Seq<ComponentView>)
    requires
        first_bad(comps) is None,
    ensures
        all_normal(without_cur(comps)),
    decreases comps.len(),
{
    if comps.len() > 0 {
        lemma_first_bad_init(comps);
        lemma_without_cur_normal(comps.drop_last());
    }
}

proof fn lemma_first_bad_init(comps: Seq<ComponentView>)
    requires
        comps.len() > 0,
        first_bad(comps) is None,
    ensures
        first_bad(comps.drop_last()) is None,
        descends(comps.last()),
    decreases comps.len(),
{
    let rest = comps.drop_first();
    if comps.len() == 1 {
        assert(comps.drop_last() =~= Seq::empty());
    } else {
        lemma_first_bad_init(rest);
        assert(rest.drop_last() =~= comps.drop_last().drop_first());
        assert(comps.drop_last()[0] == comps[0]);
    }
}

/// A path that is accepted as relative names something at or below the root it is joined
/// to: the components of the root come first, and only named entries follow.
pub proof fn law_resolved_path_stays_below_root(root: ReadingView, rel: ReadingView)
    requires
        relative_verdict(rel) is Ok,
    ensures
        starts_with(joined(root, rel).components, root.components),
        root.components.len() > 0 ==> all_normal(
            joined(root, rel).components.skip(root.components.len() as int),
        ),
        all_normal(without_cur(rel.components)),
{
    lemma_without_cur_normal(rel.components);
    let path = joined(root, rel).components;
    assert(path.take(root.components.len() as int) =~= root.components);
    if root.components.len() > 0 {
        assert(path.skip(root.components.len() as int) =~= without_cur(rel.components));
    }
}

/// The text that a POSIX host makes of `rel` seen from the directory `root`.
pub open spec fn posix_join(root: Seq<char>, rel: Seq<char>) -> Seq<char> {
    if absolute(rel) {
        rel
    } else if root.len() == 0 || root.last() == '/' {
        root + rel
    } else {
        root.push('/') + rel
    }
}

/// Joining goes by the components as it does by the texts: a POSIX host reads the joined text
/// as the joined readings.
pub proof fn law_posix_join_joins_readings(root: Seq<char>, rel: Seq<char>)
    requires
        relative_verdict(posix_reading(rel)) is Ok,
    ensures
        posix_reading(posix_join(root, rel)) == joined(posix_reading(root), posix_reading(rel)),
{
    let whole = posix_join(root, rel);
    let set = CharSet::Slash;
    let extra = without_cur(components(rel));
    if root.len() == 0 {
        lemma_no_components(root);
        assert(whole =~= rel);
    } else {
        if root.last() == '/' {
            let r = root.drop_last();
            assert(root =~= r.push('/'));
            assert(whole =~= r.push('/') + rel);
            lemma_split_concat(r, '/', rel, set);
            lemma_split_concat(r, '/', Seq::empty(), set);
            assert(root =~= r.push('/') + Seq::<char>::empty());
            lemma_split_len(r, set);
            lemma_piece_components_concat(split(r, set), split(rel, set));
            let root_pieces = split(r, set) + split(Seq::empty(), set);
            assert(root_pieces =~= split(r, set).push(Seq::empty()));
            assert(root_pieces.drop_last() =~= split(r, set));
            assert(piece_components(split(root, set)) == piece_components(split(r, set)));
        } else {
            lemma_split_concat(root, '/', rel, set);
            lemma_split_len(root, set);
            lemma_piece_components_concat(split(root, set), split(rel, set));
        }
        assert(whole[0] == root[0]);
        assert(components(whole) =~= components(root) + extra);
        lemma_some_component(root);
    }
}

/// The empty path has no components.
pub proof fn lemma_no_components(s: Seq<char>)
    requires
        s.len() == 0,
    ensures
        components(s) == Seq::<ComponentView>::empty(),
{
    assert(s =~= Seq::empty());
    reveal_with_fuel(piece_components, 2);
    assert(components(s) =~= Seq::empty());
}

/// The first piece begins as the text does, unless the text begins with a separator.
proof fn lemma_first_piece(s: Seq<char>, set: CharSet)
    requires
        s.len() > 0,
    ensures
        split(s, set).len() >= 1,
        set.has(s[0]) ==> split(s, set)[0].len() == 0 && split(s, set).len() >= 2,
        !set.has(s[0]) ==> split(s, set)[0].len() > 0 && split(s, set)[0][0] == s[0],
    decreases s.len(),
{
    let init = s.drop_last();
    lemma_split_len(init, set);
    if s.len() == 1 {
        assert(init =~= Seq::empty());
        assert(split(init, set) =~= seq![Seq::<char>::empty()]);
    } else {
        lemma_first_piece(init, set);
        assert(init[0] == s[0]);
    }
}

/// A text that is not empty has a component.
proof fn lemma_some_component(s: Seq<char>)
    requires
        s.len() > 0,
    ensures
        components(s).len() > 0,
{
    if !absolute(s) {
        lemma_first_piece(s, CharSet::Slash);
        lemma_first_piece_counts(split(s, CharSet::Slash));
    }
}

proof fn lemma_first_piece_counts(pieces: Seq<Seq<char>>)
    requires
        pieces.len() > 0,
        pieces[0].len() > 0,
    ensures
        piece_components(pieces).len() > 0,
    decreases pieces.len(),
{
    if pieces.len() > 1 {
        lemma_first_piece_counts(pieces.drop_last());
    }
}

/// A POSIX path of one piece: nothing has no component, `.` is the current directory, `..` the
/// parent directory, and anything else names an entry.
pub proof fn law_posix_path_of_one_piece(p: Seq<char>)
    requires
        forall|i: int| 0 <= i < p.len() ==> #[trigger] p[i] != '/',
    ensures
        !posix_reading(p).is_absolute,
        p.len() == 0 ==> posix_reading(p).components == Seq::<ComponentView>::empty(),
        p == seq!['.'] ==> posix_reading(p).components == seq![ComponentView::CurDir],
        p == seq!['.', '.'] ==> posix_reading(p).components == seq![ComponentView::ParentDir],
        p.len() > 0 && p != seq!['.'] && p != seq!['.', '.'] ==> posix_reading(p).components
            == seq![ComponentView::Normal(p)],
{
    lemma_split_single(p, CharSet::Slash);
    let one = seq![p];
    assert(one.drop_last() =~= Seq::empty());
    assert(one.last() == p);
    assert(seq!['.'].len() == 1 && seq!['.', '.'].len() == 2);
    reveal_with_fuel(piece_components, 2);
    match component_at(0, p) {
        Some(c) => {
            assert(piece_components(one) =~= seq![c]);
        },
        None => {
            assert(piece_components(one) =~= Seq::empty());
        },
    }
}

/// A slash joins POSIX paths: the components of the whole are those of the first part followed
/// by those of the second, in which `.` counts for nothing; and a path is absolute exactly if
/// it begins with a slash.
pub proof fn law_slash_joins_posix_paths(a: Seq<char>, b: Seq<char>)
    requires
        a.len() > 0,
        b.len() == 0 || b[0] != '/',
    ensures
        posix_reading(a.push('/') + b).components == posix_reading(a).components + without_cur(
            posix_reading(b).components,
        ),
        posix_reading(a.push('/') + b).is_absolute == posix_reading(a).is_absolute,
        posix_reading(a).is_absolute <==> a[0] == '/',
        a[0] == '/' ==> posix_reading(a).components.len() > 0 && posix_reading(a).components[0]
            == ComponentView::RootDir,
{
    lemma_split_concat(a, '/', b, CharSet::Slash);
    lemma_split_len(a, CharSet::Slash);
    lemma_piece_components_concat(split(a, CharSet::Slash), split(b, CharSet::Slash));
    assert((a.push('/') + b)[0] == a[0]);
    assert(components(a.push('/') + b) =~= components(a) + without_cur(components(b)));
}

/// A slash more between two parts of a POSIX path changes nothing.
pub proof fn law_double_slash_counts_once(a: Seq<char>, b: Seq<char>)
    requires
        a.len() > 0,
    ensures
        posix_reading(a.push('/') + (seq!['/'] + b)) == posix_reading(a.push('/') + b),
{
    let set = CharSet::Slash;
    let none = Seq::<char>::empty();
    lemma_split_concat(a, '/', seq!['/'] + b, set);
    lemma_split_concat(none, '/', b, set);
    assert(none.push('/') + b =~= seq!['/'] + b);
    lemma_split_single(none, set);
    lemma_split_concat(a, '/', b, set);
    lemma_split_len(a, set);
    let x = split(a, set);
    let y = split(b, set);
    assert(x + (seq![none] + y) =~= (x + seq![none]) + y);
    lemma_piece_components_concat(x + seq![none], y);
    lemma_piece_components_concat(x, y);
    assert((x + seq![none]).drop_last() =~= x);
    assert((x + seq![none]).last() == none);
    assert(piece_components(x + seq![none]) == piece_components(x));
    assert((a.push('/') + (seq!['/'] + b))[0] == a[0]);
    assert((a.push('/') + b)[0] == a[0]);
    assert(components(a.push('/') + (seq!['/'] + b)) =~= components(a.push('/') + b));
}

/// A POSIX path made of names, with a slash between neighbours, is read as those names, below
/// the root directory where a slash stands in front.
pub proof fn law_posix_path_of_names(names: Seq<Seq<char>>)
    requires
        names.len() > 0,
        forall|i: int|
            0 <= i < names.len() ==> (#[trigger] names[i]).len() > 0 && names[i] != seq!['.']
                && names[i] != seq!['.', '.'],
        forall|i: int, j: int|
            0 <= i < names.len() && 0 <= j < names[i].len() ==> #[trigger] names[i][j] != '/',
    ensures
        posix_reading(join(names, '/')) == (ReadingView {
            is_absolute: false,
            components: names.map_values(|n: Seq<char>| ComponentView::Normal(n)),
        }),
        posix_reading(seq!['/'] + join(names, '/')) == (ReadingView {
            is_absolute: true,
            components: seq![ComponentView::RootDir] + names.map_values(
                |n: Seq<char>| ComponentView::Normal(n),
            ),
        }),
{
    let set = CharSet::Slash;
    let none = Seq::<char>::empty();
    let path = join(names, '/');
    lemma_split_join(names, '/', set);
    lemma_names_are_components(names, false);
    lemma_joined_begins(names);
    assert(names[0].len() > 0);
    assert(names[0][0] != '/');
    lemma_split_concat(none, '/', path, set);
    lemma_split_single(none, set);
    assert(none.push('/') + path =~= seq!['/'] + path);
    lemma_names_are_components(names, true);
}

proof fn lemma_joined_begins(names: Seq<Seq<char>>)
    requires
        names.len() > 0,
        names[0].len() > 0,
    ensures
        join(names, '/').len() > 0,
        join(names, '/')[0] == names[0][0],
    decreases names.len(),
{
    if names.len() > 1 {
        lemma_joined_begins(names.drop_last());
    }
}

proof fn lemma_names_are_components(names: Seq<Seq<char>>, led: bool)
    requires
        forall|i: int|
            0 <= i < names.len() ==> (#[trigger] names[i]).len() > 0 && names[i] != seq!['.']
                && names[i] != seq!['.', '.'],
    ensures
        !led ==> piece_components(names) == names.map_values(
            |n: Seq<char>| ComponentView::Normal(n),
        ),
        led ==> piece_components(seq![Seq::<char>::empty()] + names) == names.map_values(
            |n: Seq<char>| ComponentView::Normal(n),
        ),
    decreases names.len(),
{
    let normal = |n: Seq<char>| ComponentView::Normal(n);
    let none = Seq::<char>::empty();
    let pieces = if led {
        seq![none] + names
    } else {
        names
    };
    if names.len() == 0 {
        if led {
            assert(pieces =~= seq![none]);
            assert(pieces.drop_last() =~= Seq::empty());
            assert(pieces.last() == none);
            assert(piece_components(pieces.drop_last()) == Seq::<ComponentView>::empty());
        }
        assert(piece_components(pieces) =~= names.map_values(normal));
    } else {
        let head = names.drop_last();
        assert forall|i: int| 0 <= i < head.len() implies (#[trigger] head[i]).len() > 0 && head[i]
            != seq!['.'] && head[i] != seq!['.', '.'] by {
            assert(head[i] == names[i]);
        }
        lemma_names_are_components(head, led);
        if led {
            assert(pieces.drop_last() =~= seq![none] + head);
        } else {
            assert(pieces.drop_last() =~= head);
        }
        assert(names[names.len() - 1].len() > 0);
        assert(pieces.last() == names[names.len() - 1]);
        assert(component_at(pieces.len() - 1, pieces.last()) == Some(
            ComponentView::Normal(pieces.last()),
        ));
        assert(piece_components(pieces) =~= names.map_values(normal));
    }
}

/// A path is taken as one below a root exactly if it is not absolute and has no component but
/// named entries and `.`.
pub proof fn law_relative_paths_are_accepted(rel: ReadingView)
    ensures
        relative_verdict(rel) is Ok <==> !rel.is_absolute && forall|i: int|
            0 <= i < rel.components.len() ==> (#[trigger] rel.components[i] is Normal
                || rel.components[i] is CurDir),
{
    lemma_all_may_descend(rel.components);
}

proof fn lemma_all_may_descend(comps: Seq<ComponentView>)
    ensures
        first_bad(comps) is None <==> forall|i: int|
            0 <= i < comps.len() ==> (#[trigger] comps[i] is Normal || comps[i] is CurDir),
        first_bad(comps) matches Some(c) ==> !(c is Normal) && !(c is CurDir),
    decreases comps.len(),
{
    if comps.len() > 0 {
        let rest = comps.drop_first();
        lemma_all_may_descend(rest);
        if first_bad(comps) is None {
            assert forall|i: int| 0 <= i < comps.len() implies (#[trigger] comps[i] is Normal
                || comps[i] is CurDir) by {
                if i > 0 {
                    assert(rest[i - 1] == comps[i]);
                }
            }
        }
        if forall|i: int|
            0 <= i < comps.len() ==> (#[trigger] comps[i] is Normal || comps[i] is CurDir) {
            assert forall|i: int| 0 <= i < rest.len() implies (#[trigger] rest[i] is Normal
                || rest[i] is CurDir) by {
                assert(rest[i] == comps[i + 1]);
            }
            assert(comps[0] is Normal || comps[0] is CurDir);
        }
    }
}

/// Why a path is refused: because it is absolute; or else because of the first of its
/// components that is neither a named entry nor `.`, which is `..` or something worse.
pub proof fn law_first_bad_component_decides(rel: ReadingView, k: int)
    ensures
        rel.is_absolute ==> relative_verdict(rel) == Err::<(), AppErrorView>(
            invalid("Path must be relative"@),
        ),
        !rel.is_absolute && 0 <= k < rel.components.len() && rel.components[k] is ParentDir && (
        forall|i: int|
            0 <= i < k ==> (#[trigger] rel.components[i] is Normal || rel.components[i] is CurDir))
            ==> relative_verdict(rel) == Err::<(), AppErrorView>(
            invalid("Path cannot contain '..'"@),
        ),
        !rel.is_absolute && 0 <= k < rel.components.len() && (rel.components[k] is RootDir
            || rel.components[k] is Prefix) && (forall|i: int|
            0 <= i < k ==> (#[trigger] rel.components[i] is Normal || rel.components[i] is CurDir))
            ==> relative_verdict(rel) == Err::<(), AppErrorView>(
            invalid("Invalid path component"@),
        ),
{
    if 0 <= k < rel.components.len() && (forall|i: int|
        0 <= i < k ==> (#[trigger] rel.components[i] is Normal || rel.components[i] is CurDir)) {
        lemma_first_bad_at(rel.components, k);
    }
}

proof fn lemma_first_bad_at(comps: Seq<ComponentView>, k: int)
    requires
        0 <= k < comps.len(),
        forall|i: int|
            0 <= i < k ==> (#[trigger] comps[i] is Normal || comps[i] is CurDir),
    ensures
        !(comps[k] is Normal) && !(comps[k] is CurDir) ==> first_bad(comps) == Some(comps[k]),
    decreases comps.len(),
{
    if k > 0 {
        let rest = comps.drop_first();
        assert(comps[0] is Normal || comps[0] is CurDir);
        assert forall|i: int| 0 <= i < k - 1 implies (#[trigger] rest[i] is Normal || rest[i]
            is CurDir) by {
            assert(rest[i] == comps[i + 1]);
        }
        lemma_first_bad_at(rest, k - 1);
        assert(rest[k - 1] == comps[k]);
    }
}

/// Of components everything stays but `.`, in order.
pub proof fn law_current_directory_counts_for_nothing(comps: Seq<ComponentView>)
    ensures
        without_cur(comps) == comps.filter(|c: ComponentView| !(c is CurDir)),
    decreases comps.len(),
{
    reveal(Seq::filter);
    if comps.len() > 0 {
        law_current_directory_counts_for_nothing(comps.drop_last());
    } else {
        assert(without_cur(comps) =~= comps.filter(|c: ComponentView| !(c is CurDir)));
    }
}

/// Names joined to a root stand below it, one below the other; from where no root is given they
/// are all there is.
pub proof fn law_names_are_joined_to_the_root(root: ReadingView, names: Seq<Seq<char>>)
    ensures
        ({
            let below = names.map_values(|n: Seq<char>| ComponentView::Normal(n));
            let rel = ReadingView { is_absolute: false, components: below };
            &&& joined(root, rel).components == root.components + below
            &&& joined(root, rel).is_absolute == root.is_absolute
            &&& relative_verdict(rel) is Ok
            &&& normal_names(below) == names
            &&& normal_names(without_cur(below)) == names
        }),
{
    let below = names.map_values(|n: Seq<char>| ComponentView::Normal(n));
    let rel = ReadingView { is_absolute: false, components: below };
    assert(all_normal(below));
    law_relative_paths_are_accepted(rel);
    lemma_normal_without_cur(below);
    lemma_names_of_names(names);
    if root.components.len() == 0 {
        assert(root.components + below =~= below);
    }
}

proof fn lemma_normal_without_cur(comps: Seq<ComponentView>)
    requires
        all_normal(comps),
    ensures
        without_cur(comps) == comps,
    decreases comps.len(),
{
    if comps.len() == 0 {
        assert(comps =~= Seq::empty());
    } else {
        let head = comps.drop_last();
        assert forall|i: int| 0 <= i < head.len() implies #[trigger] head[i] is Normal by {
            assert(head[i] == comps[i]);
        }
        lemma_normal_without_cur(head);
        assert(comps[comps.len() - 1] is Normal);
        assert(without_cur(comps) =~= comps);
    }
}

proof fn lemma_names_of_names(names: Seq<Seq<char>>)
    ensures
        normal_names(names.map_values(|n: Seq<char>| ComponentView::Normal(n))) == names,
    decreases names.len(),
{
    let normal = |n: Seq<char>| ComponentView::Normal(n);
    if names.len() == 0 {
        assert(names =~= Seq::empty());
        assert(normal_names(names.map_values(normal)) =~= names);
    } else {
        lemma_names_of_names(names.drop_last());
        assert(names.map_values(normal).drop_last() =~= names.drop_last().map_values(normal));
        assert(names.map_values(normal).last() == ComponentView::Normal(names.last()));
        assert(normal_names(names.map_values(normal)) =~= names);
    }
}

/// A path that ends with a named entry has that name and the rest as its parent; `.` and `..`
/// at the end leave it a parent but no name; a root, a drive and nothing at all have neither.
pub proof fn law_last_component_names_the_path(
    is_absolute: bool,
    init: Seq<ComponentView>,
    last: ComponentView,
)
    ensures
        file_name(init.push(last)) == match last {
            ComponentView::Normal(n) => Some(n),
            _ => None,
        },
        last is Normal || last is CurDir || last is ParentDir ==> parent_of(
            (ReadingView { is_absolute, components: init.push(last) }),
        ) == Some((ReadingView { is_absolute, components: init })),
        last is RootDir || last is Prefix ==> parent_of(
            (ReadingView { is_absolute, components: init.push(last) }),
        ) is None,
        file_name(Seq::empty()) is None,
        parent_of((ReadingView { is_absolute, components: Seq::empty() })) is None,
{
    assert(init.push(last).drop_last() =~= init);
}

/// A path begins with another exactly if it is that other one with more components behind it.
pub proof fn law_path_begins_with_another(
    path: Seq<ComponentView>,
    base: Seq<ComponentView>,
    rest: Seq<ComponentView>,
)
    ensures
        starts_with(base + rest, base),
        path == base + rest ==> starts_with(path, base),
        starts_with(path, base) ==> base.len() <= path.len() && path == base + path.skip(
            base.len() as int,
        ),
        starts_with(path, base) <==> base.len() <= path.len() && forall|i: int|
            0 <= i < base.len() ==> #[trigger] path[i] == base[i],
{
    assert((base + rest).take(base.len() as int) =~= base);
    if starts_with(path, base) {
        assert(path =~= base + path.skip(base.len() as int));
        assert forall|i: int| 0 <= i < base.len() implies #[trigger] path[i] == base[i] by {
            assert(path.take(base.len() as int)[i] == path[i]);
        }
    }
    if base.len() <= path.len() && (forall|i: int|
        0 <= i < base.len() ==> #[trigger] path[i] == base[i]) {
        assert(path.take(base.len() as int) =~= base);
    }
}

/// An entry of a directory is one name below it, and the directory is its directory.
pub proof fn law_entry_is_one_name_below(dir: EntryView, name: Seq<char>)
    ensures
        entry_in(dir, name).base == dir.base,
        entry_in(dir, name).names == dir.names.push(name),
        dir_of(entry_in(dir, name)) == dir,
{
    assert(dir.names.push(name).drop_last() =~= dir.names);
}

/// A slash in front of a POSIX path makes it absolute: the root directory comes first, and `.`
/// behind it counts for nothing; more slashes in front change nothing.
pub proof fn law_leading_slash_is_the_root(b: Seq<char>)
    ensures
        posix_reading(seq!['/'] + b).is_absolute,
        b.len() == 0 || b[0] != '/' ==> posix_reading(seq!['/'] + b).components == seq![
            ComponentView::RootDir,
        ] + without_cur(posix_reading(b).components),
        posix_reading(seq!['/', '/'] + b) == posix_reading(seq!['/'] + b),
{
    let set = CharSet::Slash;
    let none = Seq::<char>::empty();
    lemma_split_single(none, set);
    lemma_split_concat(none, '/', b, set);
    assert(none.push('/') + b =~= seq!['/'] + b);
    let y = split(b, set);
    lemma_piece_components_concat(seq![none], y);
    assert(seq![none].drop_last() =~= Seq::empty());
    assert(seq![none].last() == none);
    assert(piece_components(seq![none].drop_last()) == Seq::<ComponentView>::empty());
    assert(piece_components(seq![none]) == Seq::<ComponentView>::empty());
    let x = without_cur(piece_components(y));
    assert(piece_components(seq![none] + y) =~= x);
    assert(components(seq!['/'] + b) =~= seq![ComponentView::RootDir] + x);
    lemma_split_concat(none, '/', seq!['/'] + b, set);
    assert(none.push('/') + (seq!['/'] + b) =~= seq!['/', '/'] + b);
    assert(seq![none] + (seq![none] + y) =~= (seq![none] + seq![none]) + y);
    lemma_piece_components_concat(seq![none] + seq![none], y);
    let two = seq![none] + seq![none];
    assert(two.drop_last() =~= seq![none]);
    assert(two.last() == none);
    assert(piece_components(two) == Seq::<ComponentView>::empty());
    assert(components(seq!['/', '/'] + b) =~= seq![ComponentView::RootDir] + x);
}

/// Joining keeps the root as it is and puts behind it every component but `.`; where there is no
/// root, the path stays as it is.
pub proof fn law_joining_keeps_the_root(root: ReadingView, rel: ReadingView)
    ensures
        joined(root, rel).is_absolute == root.is_absolute,
        root.components.len() > 0 ==> joined(root, rel).components == root.components
            + rel.components.filter(|c: ComponentView| !(c is CurDir)),
        root.components.len() == 0 ==> joined(root, rel).components == rel.components,
{
    law_current_directory_counts_for_nothing(rel.components);
}

/// Names, components, paths and places are seen by what they hold.
pub proof fn law_paths_are_seen_as_they_are(
    names: Seq<String>,
    comps: Seq<PathComponent>,
    path: PathReading,
    place: EntryPath,
    i: int,
)
    ensures
        names_of(names).len() == names.len(),
        0 <= i < names.len() ==> names_of(names)[i] == names[i]@,
        components_of(comps).len() == comps.len(),
        0 <= i < comps.len() ==> components_of(comps)[i] == match comps[i] {
            PathComponent::Prefix(s) => ComponentView::Prefix(s@),
            PathComponent::RootDir => ComponentView::RootDir,
            PathComponent::CurDir => ComponentView::CurDir,
            PathComponent::ParentDir => ComponentView::ParentDir,
            PathComponent::Normal(s) => ComponentView::Normal(s@),
        },
        path@.is_absolute == path.is_absolute,
        path@.components == components_of(path.components@),
        place@.base == place.base@,
        place@.names == names_of(place.names@),
{
}

} // verus!
