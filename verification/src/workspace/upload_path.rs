//! Where an upload goes: turning what a browser sends into a path below the workspace root.
use vstd::prelude::*;
use crate::error::{invalid, text_result, AppCommandError, AppErrorView};
use crate::text::{append_chars, char_is_control, chars_of, is_control, is_white, join, join_chars, lemma_join_concat, lemma_pieces_push, lemma_split_join, lemma_split_len, lemma_trim_end, lemma_trimmed, pieces_of, split, split_chars, string_of, trim_chars, trim_end, trim_end_chars, trimmed, CharSet};
use super::path::{absolute, component_at, components, first_bad, piece_components, posix_reading, read_posix_path, relative_verdict, validate_relative_components, ComponentView};

verus! {

/// Characters that some file system does not take in a name.
pub open spec fn hostile(c: char) -> bool {
    c == '/' || c == '\\' || c == ':' || c == '*' || c == '?' || c == '"' || c == '<' || c == '>'
        || c == '|' || c == '\0'
}

/// `raw` without control characters and with `_` for each hostile character.
pub open spec fn cleaned(raw: Seq<char>) -> Seq<char>
    decreases raw.len(),
{
    if raw.len() == 0 {
        Seq::empty()
    } else {
        let head = cleaned(raw.drop_last());
        if is_control(raw.last()) {
            head
        } else if hostile(raw.last()) {
            head.push('_')
        } else {
            head.push(raw.last())
        }
    }
}

/// The path segment that stands for `raw`: cleaned, without white space at either end,
/// then without trailing dots; `file` where nothing is left.
pub open spec fn segment(raw: Seq<char>) -> Seq<char> {
    let kept = trim_end(trimmed(cleaned(raw)), CharSet::Dot);
    if kept.len() == 0 {
        "file"@
    } else {
        kept
    }
}

/// The pieces that name something: neither empty nor `.`.
pub open spec fn named_pieces(pieces: Seq<Seq<char>>) -> Seq<Seq<char>>
    decreases pieces.len(),
{
    if pieces.len() == 0 {
        Seq::empty()
    } else {
        let head = named_pieces(pieces.drop_last());
        if pieces.last().len() == 0 || pieces.last() == seq!['.'] {
            head
        } else {
            head.push(pieces.last())
        }
    }
}

/// The segments of a sub-path with either kind of slash. A path that names nothing or
/// climbs with `..` is refused.
pub open spec fn subpath_segments(raw: Seq<char>) -> Result<Seq<Seq<char>>, AppErrorView> {
    let named = named_pieces(split(raw, CharSet::AnySlash));
    if named.len() == 0 {
        Err(invalid("Invalid upload path"@))
    } else if named.contains(seq!['.', '.']) {
        Err(invalid("Path cannot contain '..'"@))
    } else {
        Ok(named.map_values(|p: Seq<char>| segment(p)))
    }
}

/// The segments of the path below the workspace root that an upload is stored at: those
/// of the target directory, if one is given, followed by those of the relative path, or
/// by the last piece of the file name where no relative path is given.
pub open spec fn upload_segments(
    target_dir: Seq<char>,
    relative_path: Seq<char>,
    file_name_hint: Seq<char>,
) -> Result<Seq<Seq<char>>, AppErrorView> {
    let dir = trim_end(trimmed(target_dir), CharSet::AnySlash);
    let body = if trimmed(relative_path).len() > 0 {
        subpath_segments(relative_path)
    } else {
        Ok(seq![segment(split(file_name_hint, CharSet::AnySlash).last())])
    };
    match body {
        Err(e) => Err(e),
        Ok(tail) => if dir.len() == 0 {
            Ok(tail)
        } else {
            match subpath_segments(dir) {
                Err(e) => Err(e),
                Ok(lead) => Ok(lead + tail),
            }
        },
    }
}

/// Segments as one path, or the error in their place.
pub open spec fn as_path(r: Result<Seq<Seq<char>>, AppErrorView>) -> Result<
    Seq<char>,
    AppErrorView,
> {
    match r {
        Ok(parts) => Ok(join(parts, '/')),
        Err(e) => Err(e),
    }
}

/// A segment that is a plain name on every file system: not empty, free of control and
/// hostile characters, not beginning with white space and not ending with a dot.
pub open spec fn clean_segment(s: Seq<char>) -> bool {
    &&& s.len() > 0
    &&& !is_white(s[0])
    &&& s.last() != '.'
    &&& forall|i: int|
        0 <= i < s.len() ==> !is_control(#[trigger] s[i]) && !hostile(s[i])
}

proof fn lemma_cleaned(raw: Seq<char>)
    ensures
        forall|i: int|
            0 <= i < cleaned(raw).len() ==> !is_control(#[trigger] cleaned(raw)[i]) && !hostile(
                cleaned(raw)[i],
            ),
    decreases raw.len(),
{
    if raw.len() > 0 {
        let head = cleaned(raw.drop_last());
        lemma_cleaned(raw.drop_last());
        assert forall|i: int| 0 <= i < cleaned(raw).len() implies !is_control(
            #[trigger] cleaned(raw)[i],
        ) && !hostile(cleaned(raw)[i]) by {
            if i < head.len() {
                assert(cleaned(raw)[i] == head[i]);
            }
        }
    }
}

/// Whatever the input, a sanitized segment is a plain name.
pub proof fn law_segment_is_clean(raw: Seq<char>)
    ensures
        clean_segment(segment(raw)),
{
    let c = cleaned(raw);
    let t = trimmed(c);
    let kept = trim_end(t, CharSet::Dot);
    lemma_cleaned(raw);
    lemma_trimmed(c);
    lemma_trim_end(t, CharSet::Dot);
    if kept.len() == 0 {
        reveal_strlit("file");
    } else {
        let (a, b) = choose|a: int, b: int|
            0 <= a <= b <= c.len() && t == #[trigger] c.subrange(a, b);
        assert forall|i: int| 0 <= i < kept.len() implies !is_control(#[trigger] kept[i])
            && !hostile(kept[i]) by {
            assert(kept[i] == t[i]);
            assert(t[i] == c[a + i]);
        }
    }
}

/// Strips characters that are hostile to some file system from a single path segment.
/// Input that leaves nothing becomes `file`.
pub fn sanitize_segment(raw: &str) -> (s: String)
    ensures
        s@ == segment(raw@),
        clean_segment(s@),
{
    proof {
        law_segment_is_clean(raw@);
    }
    string_of(&segment_chars(&chars_of(raw)))
}

fn char_is_hostile(c: char) -> (b: bool)
    ensures
        b == hostile(c),
{
    c == '/' || c == '\\' || c == ':' || c == '*' || c == '?' || c == '"' || c == '<' || c == '>'
        || c == '|' || c == '\0'
}

fn segment_chars(raw: &Vec<char>) -> (v: Vec<char>)
    ensures
        v@ == segment(raw@),
{
    let mut clean: Vec<char> = Vec::new();
    let mut i: usize = 0;
    while i < raw.len()
        invariant
            i <= raw.len(),
            clean@ == cleaned(raw@.take(i as int)),
        decreases raw.len() - i,
    {
        let c = raw[i];
        assert(raw@.take(i + 1).drop_last() == raw@.take(i as int));
        if !char_is_control(c) {
            if char_is_hostile(c) {
                clean.push('_');
            } else {
                clean.push(c);
            }
        }
        i += 1;
    }
    assert(raw@.take(i as int) == raw@);
    let kept = trim_end_chars(&trim_chars(&clean), CharSet::Dot);
    if kept.len() == 0 {
        chars_of("file")
    } else {
        kept
    }
}

fn is_dots(piece: &Vec<char>, n: usize) -> (b: bool)
    requires
        n == 1 || n == 2,
    ensures
        b == (piece@ == if n == 1 {
            seq!['.']
        } else {
            seq!['.', '.']
        }),
{
    if piece.len() != n {
        return false;
    }
    let b = piece[0] == '.' && piece[n - 1] == '.';
    if b {
        if n == 1 {
            assert(piece@ =~= seq!['.']);
        } else {
            assert(piece@ =~= seq!['.', '.']);
        }
    } else {
        assert(seq!['.', '.'][0] == '.' && seq!['.', '.'][1] == '.' && seq!['.'][0] == '.');
    }
    b
}

/// The segments of a sub-path.
fn subpath_parts(raw: &Vec<char>) -> (r: Result<Vec<Vec<char>>, AppCommandError>)
    ensures
        match subpath_segments(raw@) {
            Ok(parts) => r matches Ok(v) && pieces_of(v@) == parts,
            Err(e) => r matches Err(f) && f@ == e,
        },
{
    let pieces = split_chars(raw, CharSet::AnySlash);
    let ghost all = pieces_of(pieces@);
    let mut parts: Vec<Vec<char>> = Vec::new();
    let mut climbs: bool = false;
    let mut i: usize = 0;
    let ghost seg = |p: Seq<char>| segment(p);
    assert(pieces_of(parts@) =~= named_pieces(all.take(0)).map_values(seg));
    while i < pieces.len()
        invariant
            i <= pieces.len(),
            all == pieces_of(pieces@),
            seg == (|p: Seq<char>| segment(p)),
            pieces_of(parts@) == named_pieces(all.take(i as int)).map_values(seg),
            climbs == named_pieces(all.take(i as int)).contains(seq!['.', '.']),
        decreases pieces.len() - i,
    {
        let ghost before = named_pieces(all.take(i as int));
        let ghost piece = pieces@[i as int]@;
        assert(all.take(i + 1).drop_last() == all.take(i as int));
        assert(all.take(i + 1).last() == piece);
        if pieces[i].len() > 0 && !is_dots(&pieces[i], 1) {
            let up = is_dots(&pieces[i], 2);
            let s = segment_chars(&pieces[i]);
            proof {
                lemma_pieces_push(parts@, s);
                let after = before.push(piece);
                assert(named_pieces(all.take(i + 1)) == after);
                assert(after.map_values(seg) =~= before.map_values(seg).push(segment(piece)));
                if climbs {
                    let k = choose|k: int|
                        0 <= k < before.len() && before[k] == seq!['.', '.'];
                    assert(after[k] == seq!['.', '.']);
                }
                if up {
                    assert(after[before.len() as int] == seq!['.', '.']);
                }
                if after.contains(seq!['.', '.']) && !up {
                    let k = choose|k: int| 0 <= k < after.len() && after[k] == seq!['.', '.'];
                    assert(before[k] == seq!['.', '.']);
                }
            }
            climbs = climbs || up;
            parts.push(s);
        }
        i += 1;
    }
    assert(all.take(i as int) == all);
    assert(parts@.len() == named_pieces(all).len());
    if parts.len() == 0 {
        return Err(AppCommandError::invalid_input("Invalid upload path"));
    }
    if climbs {
        return Err(AppCommandError::invalid_input("Path cannot contain '..'"));
    }
    Ok(parts)
}

/// A sub-path with every segment sanitized and `/` between them. Empty segments and `.`
/// are dropped; a path that is then empty, or that climbs with `..`, is refused.
pub fn sanitize_relative_subpath(raw: &str) -> (r: Result<String, AppCommandError>)
    ensures
        text_result(r) == as_path(subpath_segments(raw@)),
{
    match subpath_parts(&chars_of(raw)) {
        Ok(parts) => Ok(string_of(&join_chars(&parts, '/'))),
        Err(e) => Err(e),
    }
}

/// The segments of a sub-path are plain names, and there is at least one.
pub proof fn law_subpath_segments_are_clean(raw: Seq<char>)
    ensures
        subpath_segments(raw) matches Ok(parts) ==> parts.len() > 0 && forall|i: int|
            0 <= i < parts.len() ==> clean_segment(#[trigger] parts[i]),
{
    if let Ok(parts) = subpath_segments(raw) {
        let named = named_pieces(split(raw, CharSet::AnySlash));
        assert forall|i: int| 0 <= i < parts.len() implies clean_segment(#[trigger] parts[i]) by {
            law_segment_is_clean(named[i]);
            assert(parts[i] == segment(named[i]));
        }
    }
}

/// The segments of an upload's path are plain names, and there is at least one.
pub proof fn law_upload_segments_are_clean(
    target_dir: Seq<char>,
    relative_path: Seq<char>,
    file_name_hint: Seq<char>,
)
    ensures
        upload_segments(target_dir, relative_path, file_name_hint) matches Ok(parts) ==> parts.len()
            > 0 && forall|i: int| 0 <= i < parts.len() ==> clean_segment(#[trigger] parts[i]),
{
    law_subpath_segments_are_clean(relative_path);
    law_subpath_segments_are_clean(trim_end(trimmed(target_dir), CharSet::AnySlash));
    law_segment_is_clean(split(file_name_hint, CharSet::AnySlash).last());
}

/// The components of a path made of plain names are those names.
pub proof fn law_clean_path_components(parts: Seq<Seq<char>>)
    requires
        parts.len() > 0,
        forall|i: int| 0 <= i < parts.len() ==> clean_segment(#[trigger] parts[i]),
    ensures
        !absolute(join(parts, '/')),
        split(join(parts, '/'), CharSet::Slash) == parts,
        components(join(parts, '/')) == parts.map_values(|p: Seq<char>| ComponentView::Normal(p)),
        relative_verdict(posix_reading(join(parts, '/'))) is Ok,
{
    let path = join(parts, '/');
    assert forall|i: int, j: int| 0 <= i < parts.len() && 0 <= j < parts[i].len() implies
        !CharSet::Slash.has(#[trigger] parts[i][j]) by {
        assert(clean_segment(parts[i]));
        assert(!hostile(parts[i][j]));
    }
    lemma_split_join(parts, '/', CharSet::Slash);
    lemma_join_first(parts);
    assert(clean_segment(parts[0]));
    assert(!hostile(parts[0][0]));
    lemma_clean_pieces(parts);
    lemma_all_descend(components(path));
}

proof fn lemma_join_first(parts: Seq<Seq<char>>)
    requires
        parts.len() > 0,
        parts[0].len() > 0,
    ensures
        join(parts, '/').len() > 0,
        join(parts, '/')[0] == parts[0][0],
    decreases parts.len(),
{
    if parts.len() > 1 {
        lemma_join_first(parts.drop_last());
    }
}

proof fn lemma_clean_pieces(parts: Seq<Seq<char>>)
    requires
        forall|i: int| 0 <= i < parts.len() ==> clean_segment(#[trigger] parts[i]),
    ensures
        piece_components(parts) == parts.map_values(|p: Seq<char>| ComponentView::Normal(p)),
    decreases parts.len(),
{
    let normal = |p: Seq<char>| ComponentView::Normal(p);
    if parts.len() > 0 {
        let head = parts.drop_last();
        assert forall|i: int| 0 <= i < head.len() implies clean_segment(#[trigger] head[i]) by {
            assert(head[i] == parts[i]);
        }
        lemma_clean_pieces(head);
        assert(clean_segment(parts[parts.len() - 1]));
        assert(seq!['.'].last() == '.' && seq!['.', '.'].last() == '.');
        assert(component_at(parts.len() - 1, parts.last()) == Some(
            ComponentView::Normal(parts.last()),
        ));
        assert(piece_components(parts) =~= parts.map_values(normal));
    } else {
        assert(piece_components(parts) =~= parts.map_values(normal));
    }
}

proof fn lemma_all_descend(comps: Seq<ComponentView>)
    requires
        forall|i: int| 0 <= i < comps.len() ==> #[trigger] comps[i] is Normal,
    ensures
        first_bad(comps) is None,
    decreases comps.len(),
{
    if comps.len() > 0 {
        assert(comps[0] is Normal);
        let rest = comps.drop_first();
        assert forall|i: int| 0 <= i < rest.len() implies #[trigger] rest[i] is Normal by {
            assert(rest[i] == comps[i + 1]);
        }
        lemma_all_descend(rest);
    }
}

/// The path below the workspace root that an upload is stored at. The relative path, where
/// one is given, takes the place of the file name. What comes out is always a path below
/// the root, so the check of its components never refuses it.
pub fn compute_final_rel(target_dir: &str, relative_path: &str, file_name_hint: &str) -> (r: Result<
    String,
    AppCommandError,
>)
    ensures
        text_result(r) == as_path(upload_segments(target_dir@, relative_path@, file_name_hint@)),
        r matches Ok(s) ==> relative_verdict(posix_reading(s@)) is Ok,
{
    let dir = trim_end_chars(&trim_chars(&chars_of(target_dir)), CharSet::AnySlash);
    let relative = chars_of(relative_path);
    let tail = if trim_chars(&relative).len() > 0 {
        match subpath_parts(&relative) {
            Ok(parts) => parts,
            Err(e) => {
                return Err(e);
            },
        }
    } else {
        let pieces = split_chars(&chars_of(file_name_hint), CharSet::AnySlash);
        proof {
            lemma_split_len(file_name_hint@, CharSet::AnySlash);
        }
        assert(pieces@.len() == split(file_name_hint@, CharSet::AnySlash).len());
        assert(pieces_of(pieces@).last() == pieces@[pieces@.len() - 1]@);
        let mut one: Vec<Vec<char>> = Vec::new();
        one.push(segment_chars(&pieces[pieces.len() - 1]));
        assert(pieces_of(one@) =~= seq![
            segment(split(file_name_hint@, CharSet::AnySlash).last()),
        ]);
        one
    };
    let body = join_chars(&tail, '/');
    let combined = if dir.len() == 0 {
        body
    } else {
        match subpath_parts(&dir) {
            Ok(lead) => {
                let mut out = join_chars(&lead, '/');
                out.push('/');
                append_chars(&mut out, &body);
                proof {
                    law_subpath_segments_are_clean(dir@);
                    law_subpath_segments_are_clean(relative_path@);
                    lemma_join_concat(pieces_of(lead@), pieces_of(tail@), '/');
                }
                out
            },
            Err(e) => {
                return Err(e);
            },
        }
    };
    let combined = string_of(&combined);
    proof {
        law_upload_segments_are_clean(target_dir@, relative_path@, file_name_hint@);
        if let Ok(parts) = upload_segments(target_dir@, relative_path@, file_name_hint@) {
            law_clean_path_components(parts);
        }
    }
    match validate_relative_components(&read_posix_path(combined.as_str())) {
        Ok(()) => Ok(combined),
        Err(e) => Err(e),
    }
}

} // verus!
