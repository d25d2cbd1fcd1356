//! What becomes of the names in an upload's path: which are kept as they are, and what is left
//! of the others.
use vstd::prelude::*;
use crate::error::{invalid, AppErrorView};
use crate::text::{is_control, is_white, join, lemma_split_concat, lemma_split_join, lemma_split_len, lemma_split_single, split, CharSet};
use crate::text_laws::{all_of, law_blank_text_leaves_nothing, law_trim_end_takes_the_back, law_trimmed_takes_the_frame, none_of};
use super::upload_path::{as_path, clean_segment, cleaned, hostile, law_segment_is_clean, named_pieces, segment, subpath_segments, upload_segments};

verus! {

/// A name that needs no cleaning: not empty, no white space at either end, no dot at its end,
/// and no character that is a control character or one of the ten that some file system does
/// not take.
pub open spec fn plain_name(s: Seq<char>) -> bool {
    &&& s.len() > 0
    &&& !is_white(s[0])
    &&& !is_white(s.last())
    &&& s.last() != '.'
    &&& forall|i: int|
        0 <= i < s.len() ==> 0x20 <= (#[trigger] s[i] as u32) && !(0x7f <= (s[i] as u32) <= 0x9f)
            && s[i] != '/' && s[i] != '\\' && s[i] != ':' && s[i] != '*' && s[i] != '?' && s[i]
            != '"' && s[i] != '<' && s[i] != '>' && s[i] != '|'
}

/// A list of such names that is not empty.
pub open spec fn plain_list(names: Seq<Seq<char>>) -> bool {
    names.len() > 0 && forall|i: int| 0 <= i < names.len() ==> plain_name(#[trigger] names[i])
}

/// The characters that no segment holds, one by one: the ten that some file system does not
/// take, and no others but control characters.
pub proof fn law_hostile_characters(c: char)
    ensures
        hostile(c) <==> seq!['/', '\\', ':', '*', '?', '"', '<', '>', '|', '\0'].contains(c),
        is_control(c) <==> (c as u32) < 0x20 || 0x7f <= (c as u32) <= 0x9f,
{
    let list = seq!['/', '\\', ':', '*', '?', '"', '<', '>', '|', '\0'];
    assert(list[0] == '/' && list[1] == '\\' && list[2] == ':' && list[3] == '*' && list[4] == '?'
        && list[5] == '"' && list[6] == '<' && list[7] == '>' && list[8] == '|' && list[9] == '\0');
}

/// Cleaning goes character by character: a text is cleaned part by part.
pub proof fn law_parts_are_cleaned_alone(a: Seq<char>, b: Seq<char>)
    ensures
        cleaned(a + b) == cleaned(a) + cleaned(b),
    decreases b.len(),
{
    if b.len() == 0 {
        assert(a + b =~= a);
        assert(cleaned(a) + cleaned(b) =~= cleaned(a));
    } else {
        law_parts_are_cleaned_alone(a, b.drop_last());
        assert((a + b).drop_last() =~= a + b.drop_last());
        assert((a + b).last() == b.last());
        assert(cleaned(a + b) =~= cleaned(a) + cleaned(b));
    }
}

/// A control character is dropped, a hostile one becomes `_`, any other one stays.
pub proof fn law_a_character_is_cleaned(c: char)
    ensures
        (c as u32) < 0x20 || 0x7f <= (c as u32) <= 0x9f ==> cleaned(seq![c]) == Seq::<char>::empty(),
        c == '/' || c == '\\' || c == ':' || c == '*' || c == '?' || c == '"' || c == '<' || c
            == '>' || c == '|' ==> cleaned(seq![c]) == seq!['_'],
        0x20 <= (c as u32) && !(0x7f <= (c as u32) <= 0x9f) && !hostile(c) ==> cleaned(seq![c])
            == seq![c],
{
    let one = seq![c];
    assert(one.drop_last() =~= Seq::empty());
    assert(one.last() == c);
    reveal_with_fuel(cleaned, 2);
    assert(cleaned(one) =~= if is_control(c) {
        Seq::empty()
    } else if hostile(c) {
        seq!['_']
    } else {
        seq![c]
    });
}

/// A text without control and hostile characters is clean already.
pub proof fn law_clean_text_stays(s: Seq<char>)
    requires
        forall|i: int| 0 <= i < s.len() ==> !is_control(#[trigger] s[i]) && !hostile(s[i]),
    ensures
        cleaned(s) == s,
    decreases s.len(),
{
    if s.len() == 0 {
        assert(s =~= Seq::empty());
    } else {
        let head = s.drop_last();
        assert forall|i: int| 0 <= i < head.len() implies !is_control(#[trigger] head[i])
            && !hostile(head[i]) by {
            assert(head[i] == s[i]);
        }
        law_clean_text_stays(head);
        assert(!is_control(s[s.len() - 1]));
        assert(cleaned(s) =~= s);
    }
}

/// What a segment keeps: of the cleaned text everything but the white space round it and then
/// the dots at its end, `.` at the beginning included.
pub proof fn law_segment_keeps_the_name(
    raw: Seq<char>,
    lead: Seq<char>,
    kept: Seq<char>,
    dots: Seq<char>,
    tail: Seq<char>,
)
    requires
        cleaned(raw) == lead + kept + dots + tail,
        all_of(lead, CharSet::White),
        all_of(tail, CharSet::White),
        all_of(dots, CharSet::Dot),
        kept.len() > 0,
        !is_white(kept[0]),
        kept.last() != '.',
        dots.len() > 0 || !is_white(kept.last()),
    ensures
        segment(raw) == kept,
{
    let inner = kept + dots;
    assert(lead + kept + dots + tail =~= lead + inner + tail);
    assert(inner[0] == kept[0]);
    if dots.len() > 0 {
        assert(inner.last() == dots[dots.len() - 1]);
    } else {
        assert(inner.last() == kept.last());
    }
    law_trimmed_takes_the_frame(lead, inner, tail);
    law_trim_end_takes_the_back(kept, dots, CharSet::Dot);
}

/// A text that holds nothing but white space round dots, once cleaned, becomes `file`.
pub proof fn law_nothing_becomes_file(
    raw: Seq<char>,
    lead: Seq<char>,
    dots: Seq<char>,
    tail: Seq<char>,
)
    requires
        cleaned(raw) == lead + dots + tail,
        all_of(lead, CharSet::White),
        all_of(tail, CharSet::White),
        all_of(dots, CharSet::Dot),
    ensures
        segment(raw) == seq!['f', 'i', 'l', 'e'],
{
    if dots.len() > 0 {
        assert(dots[0] == '.' && dots[dots.len() - 1] == '.');
    }
    law_trimmed_takes_the_frame(lead, dots, tail);
    assert(Seq::<char>::empty() + dots =~= dots);
    law_trim_end_takes_the_back(Seq::empty(), dots, CharSet::Dot);
    reveal_strlit("file");
    assert("file"@ =~= seq!['f', 'i', 'l', 'e']);
}

/// A clean segment without white space at its end is a plain name, and the other way round.
pub proof fn law_clean_segment_is_a_plain_name(s: Seq<char>)
    ensures
        plain_name(s) <==> clean_segment(s) && !is_white(s.last()),
{
    if plain_name(s) {
        assert forall|i: int| 0 <= i < s.len() implies !is_control(#[trigger] s[i]) && !hostile(
            s[i],
        ) by {
            assert(0x20 <= (s[i] as u32));
        }
    }
    if clean_segment(s) && !is_white(s.last()) {
        assert forall|i: int| 0 <= i < s.len() implies 0x20 <= (#[trigger] s[i] as u32) && !(0x7f
            <= (s[i] as u32) <= 0x9f) && s[i] != '/' && s[i] != '\\' && s[i] != ':' && s[i] != '*'
            && s[i] != '?' && s[i] != '"' && s[i] != '<' && s[i] != '>' && s[i] != '|' by {
            assert(!is_control(s[i]) && !hostile(s[i]));
        }
    }
}

/// A name that needs no cleaning is stored as it is, wherever but at its end it has dots.
pub proof fn law_plain_name_is_kept(s: Seq<char>)
    requires
        plain_name(s) || (clean_segment(s) && !is_white(s.last())),
    ensures
        segment(s) == s,
{
    let none = Seq::<char>::empty();
    law_clean_segment_is_a_plain_name(s);
    law_clean_text_stays(s);
    assert(none + s + none + none =~= s);
    law_segment_keeps_the_name(s, none, s, none, none);
}

/// Sanitizing twice is sanitizing once, but for white space that the removed dots laid bare.
pub proof fn law_segment_of_a_segment(raw: Seq<char>)
    requires
        !is_white(segment(raw).last()),
    ensures
        segment(segment(raw)) == segment(raw),
{
    law_segment_is_clean(raw);
    law_plain_name_is_kept(segment(raw));
}

proof fn lemma_named_concat(a: Seq<Seq<char>>, b: Seq<Seq<char>>)
    ensures
        named_pieces(a + b) == named_pieces(a) + named_pieces(b),
    decreases b.len(),
{
    if b.len() == 0 {
        assert(a + b =~= a);
        assert(named_pieces(a) + named_pieces(b) =~= named_pieces(a));
    } else {
        lemma_named_concat(a, b.drop_last());
        assert((a + b).drop_last() =~= a + b.drop_last());
        assert((a + b).last() == b.last());
        assert(named_pieces(a + b) =~= named_pieces(a) + named_pieces(b));
    }
}

/// A sub-path of one piece: nothing and `.` name nothing, `..` climbs, and anything else is one
/// segment.
pub proof fn law_subpath_of_one_piece(p: Seq<char>)
    requires
        forall|i: int| 0 <= i < p.len() ==> #[trigger] p[i] != '/' && p[i] != '\\',
    ensures
        p.len() == 0 || p == seq!['.'] ==> subpath_segments(p) == Err::<Seq<Seq<char>>, _>(
            invalid("Invalid upload path"@),
        ),
        p == seq!['.', '.'] ==> subpath_segments(p) == Err::<Seq<Seq<char>>, _>(
            invalid("Path cannot contain '..'"@),
        ),
        p.len() > 0 && p != seq!['.'] && p != seq!['.', '.'] ==> subpath_segments(p) == Ok::<
            _,
            AppErrorView,
        >(seq![segment(p)]),
{
    lemma_split_single(p, CharSet::AnySlash);
    let one = seq![p];
    assert(one.drop_last() =~= Seq::empty());
    assert(one.last() == p);
    reveal_with_fuel(named_pieces, 2);
    let named = named_pieces(split(p, CharSet::AnySlash));
    assert(seq!['.', '.'].len() == 2 && seq!['.'].len() == 1);
    if p.len() == 0 || p == seq!['.'] {
        assert(named =~= Seq::empty());
    } else {
        assert(named =~= one);
        assert(named[0] == p);
        assert(named.map_values(|q: Seq<char>| segment(q)) =~= seq![segment(p)]);
    }
}

/// A slash of either kind joins sub-paths: the segments are those of the one followed by those
/// of the other; a side that names nothing adds nothing; a side that climbs spoils the whole.
pub proof fn law_subpaths_are_joined(a: Seq<char>, sep: char, b: Seq<char>)
    requires
        sep == '/' || sep == '\\',
    ensures
        match (subpath_segments(a), subpath_segments(b)) {
            (Ok(x), Ok(y)) => subpath_segments(a.push(sep) + b) == Ok::<_, AppErrorView>(x + y),
            (Err(e), Ok(y)) => subpath_segments(a.push(sep) + b) == if e == invalid(
                "Invalid upload path"@,
            ) {
                Ok(y)
            } else {
                Err(e)
            },
            (Ok(x), Err(f)) => subpath_segments(a.push(sep) + b) == if f == invalid(
                "Invalid upload path"@,
            ) {
                Ok(x)
            } else {
                Err(f)
            },
            (Err(e), Err(f)) => subpath_segments(a.push(sep) + b) == Err::<Seq<Seq<char>>, _>(
                if e == invalid("Invalid upload path"@) {
                    f
                } else {
                    e
                },
            ),
        },
{
    let seg = |p: Seq<char>| segment(p);
    let up = seq!['.', '.'];
    let m = named_pieces(split(a, CharSet::AnySlash));
    let n = named_pieces(split(b, CharSet::AnySlash));
    lemma_split_concat(a, sep, b, CharSet::AnySlash);
    lemma_named_concat(split(a, CharSet::AnySlash), split(b, CharSet::AnySlash));
    reveal_strlit("Invalid upload path");
    reveal_strlit("Path cannot contain '..'");
    assert("Invalid upload path"@.len() != "Path cannot contain '..'"@.len());
    assert(invalid("Invalid upload path"@) != invalid("Path cannot contain '..'"@));
    assert((m + n).map_values(seg) =~= m.map_values(seg) + n.map_values(seg));
    if m.contains(up) {
        let k = choose|k: int| 0 <= k < m.len() && m[k] == up;
        assert((m + n)[k] == up);
    }
    if n.contains(up) {
        let k = choose|k: int| 0 <= k < n.len() && n[k] == up;
        assert((m + n)[m.len() + k] == up);
    }
    if (m + n).contains(up) {
        let k = choose|k: int| 0 <= k < (m + n).len() && (m + n)[k] == up;
        if k < m.len() {
            assert(m[k] == up);
        } else {
            assert(n[k - m.len()] == up);
        }
    }
    if m.len() == 0 {
        assert(m + n =~= n);
    }
    if n.len() == 0 {
        assert(m + n =~= m);
    }
}

proof fn lemma_named_plain(names: Seq<Seq<char>>)
    requires
        forall|i: int| 0 <= i < names.len() ==> plain_name(#[trigger] names[i]),
    ensures
        named_pieces(names) == names,
    decreases names.len(),
{
    if names.len() == 0 {
        assert(names =~= Seq::empty());
    } else {
        let head = names.drop_last();
        assert forall|i: int| 0 <= i < head.len() implies plain_name(#[trigger] head[i]) by {
            assert(head[i] == names[i]);
        }
        lemma_named_plain(head);
        assert(plain_name(names[names.len() - 1]));
        assert(seq!['.'].last() == '.');
        assert(named_pieces(names) =~= names);
    }
}

/// A sub-path made of plain names, with either kind of slash between them, keeps every one of
/// them, in order.
pub proof fn law_plain_subpath_is_kept(names: Seq<Seq<char>>, sep: char)
    requires
        plain_list(names),
        sep == '/' || sep == '\\',
    ensures
        subpath_segments(join(names, sep)) == Ok::<_, AppErrorView>(names),
{
    assert forall|i: int, j: int| 0 <= i < names.len() && 0 <= j < names[i].len() implies
        !CharSet::AnySlash.has(#[trigger] names[i][j]) by {
        assert(plain_name(names[i]));
        assert(0x20 <= (names[i][j] as u32));
    }
    lemma_split_join(names, sep, CharSet::AnySlash);
    lemma_named_plain(names);
    let up = seq!['.', '.'];
    if names.contains(up) {
        let k = choose|k: int| 0 <= k < names.len() && names[k] == up;
        assert(plain_name(names[k]));
        assert(up.last() == '.');
    }
    let seg = |p: Seq<char>| segment(p);
    assert forall|i: int| 0 <= i < names.len() implies #[trigger] names.map_values(seg)[i]
        == names[i] by {
        assert(plain_name(names[i]));
        law_plain_name_is_kept(names[i]);
    }
    assert(names.map_values(seg) =~= names);
}

proof fn lemma_join_ends(names: Seq<Seq<char>>, sep: char)
    requires
        plain_list(names),
    ensures
        join(names, sep).len() > 0,
        join(names, sep)[0] == names[0][0],
        join(names, sep).last() == names.last().last(),
    decreases names.len(),
{
    assert(plain_name(names[0]));
    assert(plain_name(names[names.len() - 1]));
    if names.len() > 1 {
        let head = names.drop_last();
        assert forall|i: int| 0 <= i < head.len() implies plain_name(#[trigger] head[i]) by {
            assert(head[i] == names[i]);
        }
        lemma_join_ends(head, sep);
    }
}

/// An upload whose target directory and relative path consist of plain names is stored at
/// exactly those names, whatever the file is called; without a target directory at those of the
/// relative path.
pub proof fn law_plain_upload_is_stored_where_asked(
    dir: Seq<Seq<char>>,
    path: Seq<Seq<char>>,
    sep: char,
    blank: Seq<char>,
    hint: Seq<char>,
)
    requires
        plain_list(dir),
        plain_list(path),
        sep == '/' || sep == '\\',
        all_of(blank, CharSet::White),
    ensures
        upload_segments(join(dir, sep), join(path, sep), hint) == Ok::<_, AppErrorView>(dir + path),
        upload_segments(blank, join(path, sep), hint) == Ok::<_, AppErrorView>(path),
{
    let none = Seq::<char>::empty();
    let d = join(dir, sep);
    let p = join(path, sep);
    law_plain_subpath_is_kept(dir, sep);
    law_plain_subpath_is_kept(path, sep);
    lemma_join_ends(dir, sep);
    lemma_join_ends(path, sep);
    assert(plain_name(dir[0]) && plain_name(dir[dir.len() - 1]));
    assert(plain_name(path[0]) && plain_name(path[path.len() - 1]));
    let last = dir[dir.len() - 1];
    assert(0x20 <= (last[last.len() - 1] as u32));
    assert(none + d + none =~= d);
    assert(none + p + none =~= p);
    assert(none + none + blank =~= blank);
    law_trimmed_takes_the_frame(none, d, none);
    law_trimmed_takes_the_frame(none, p, none);
    law_trimmed_takes_the_frame(none, none, blank);
    assert(d + none =~= d);
    law_trim_end_takes_the_back(d, none, CharSet::AnySlash);
    assert(none + none =~= none);
    law_trim_end_takes_the_back(none, none, CharSet::AnySlash);
}

/// The file name counts only where the relative path is blank, and of it only what follows its
/// last slash.
pub proof fn law_file_name_stands_in_for_a_blank_path(
    target_dir: Seq<char>,
    blank: Seq<char>,
    dirs: Seq<char>,
    sep: char,
    name: Seq<char>,
)
    requires
        all_of(blank, CharSet::White),
        sep == '/' || sep == '\\',
        forall|i: int| 0 <= i < name.len() ==> #[trigger] name[i] != '/' && name[i] != '\\',
    ensures
        upload_segments(target_dir, blank, dirs.push(sep) + name) == upload_segments(
            target_dir,
            blank,
            name,
        ),
        upload_segments(Seq::empty(), blank, name) == Ok::<_, AppErrorView>(seq![segment(name)]),
{
    let none = Seq::<char>::empty();
    assert(none + none + blank =~= blank);
    law_trimmed_takes_the_frame(none, none, blank);
    lemma_split_concat(dirs, sep, name, CharSet::AnySlash);
    lemma_split_single(name, CharSet::AnySlash);
    lemma_split_len(dirs, CharSet::AnySlash);
    assert(split(dirs.push(sep) + name, CharSet::AnySlash).last() == name);
    assert(none + none + none =~= none);
    law_trimmed_takes_the_frame(none, none, none);
    assert(none + none =~= none);
    law_trim_end_takes_the_back(none, none, CharSet::AnySlash);
}

/// Where a relative path is given the file name does not matter, and the segments are those of
/// the relative path.
pub proof fn law_relative_path_replaces_the_file_name(
    target_dir: Seq<char>,
    relative_path: Seq<char>,
    at: int,
    hint: Seq<char>,
    other: Seq<char>,
)
    requires
        0 <= at < relative_path.len(),
        !is_white(relative_path[at]),
    ensures
        upload_segments(target_dir, relative_path, hint) == upload_segments(
            target_dir,
            relative_path,
            other,
        ),
        upload_segments(Seq::empty(), relative_path, hint) == subpath_segments(relative_path),
{
    law_blank_text_leaves_nothing(relative_path);
    assert(!CharSet::White.has(relative_path[at]));
    let none = Seq::<char>::empty();
    assert(none + none + none =~= none);
    law_trimmed_takes_the_frame(none, none, none);
    assert(none + none =~= none);
    law_trim_end_takes_the_back(none, none, CharSet::AnySlash);
}

/// White space round the target directory and slashes at its end do not matter; what is left of
/// it goes in front of the rest of the path; a target directory of nothing else is none.
pub proof fn law_target_directory_goes_in_front(
    lead: Seq<char>,
    dir: Seq<char>,
    slashes: Seq<char>,
    tail: Seq<char>,
    relative_path: Seq<char>,
    hint: Seq<char>,
)
    requires
        all_of(lead, CharSet::White),
        all_of(tail, CharSet::White),
        all_of(slashes, CharSet::AnySlash),
        dir.len() == 0 || (!is_white(dir[0]) && dir.last() != '/' && dir.last() != '\\'),
        dir.len() > 0 && slashes.len() == 0 ==> !is_white(dir.last()),
    ensures
        match upload_segments(Seq::empty(), relative_path, hint) {
            Err(e) => upload_segments(lead + dir + slashes + tail, relative_path, hint) == Err::<
                Seq<Seq<char>>,
                _,
            >(e),
            Ok(rest) => upload_segments(lead + dir + slashes + tail, relative_path, hint)
                == if dir.len() == 0 {
                Ok(rest)
            } else {
                match subpath_segments(dir) {
                    Ok(front) => Ok(front + rest),
                    Err(e) => Err(e),
                }
            },
        },
{
    let none = Seq::<char>::empty();
    let inner = dir + slashes;
    assert(lead + dir + slashes + tail =~= lead + inner + tail);
    if slashes.len() > 0 {
        assert(CharSet::AnySlash.has(slashes[0]));
        assert(CharSet::AnySlash.has(slashes[slashes.len() - 1]));
        assert(inner.last() == slashes[slashes.len() - 1]);
    } else {
        assert(inner =~= dir);
    }
    if dir.len() > 0 {
        assert(inner[0] == dir[0]);
    } else if slashes.len() > 0 {
        assert(inner[0] == slashes[0]);
    }
    law_trimmed_takes_the_frame(lead, inner, tail);
    law_trim_end_takes_the_back(dir, slashes, CharSet::AnySlash);
    assert(none + none + none =~= none);
    law_trimmed_takes_the_frame(none, none, none);
    assert(none + none =~= none);
    law_trim_end_takes_the_back(none, none, CharSet::AnySlash);
}

/// The segments of a path stand in it with one `/` between neighbours, and a refusal stays one.
pub proof fn law_segments_stand_in_the_path(parts: Seq<Seq<char>>, e: AppErrorView)
    requires
        parts.len() > 0,
        forall|i: int| 0 <= i < parts.len() ==> none_of(#[trigger] parts[i], CharSet::Slash),
    ensures
        as_path(Ok(parts)) matches Ok(path) && split(path, CharSet::Slash) == parts,
        as_path(Err(e)) == Err::<Seq<char>, _>(e),
{
    assert forall|i: int, j: int| 0 <= i < parts.len() && 0 <= j < parts[i].len() implies
        !CharSet::Slash.has(#[trigger] parts[i][j]) by {
        assert(none_of(parts[i], CharSet::Slash));
    }
    lemma_split_join(parts, '/', CharSet::Slash);
}

} // verus!
