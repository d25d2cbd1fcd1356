//! What trimming, splitting and joining do to a text, told by the text itself.
use vstd::prelude::*;
use crate::text::{clamp, is_white, join, lemma_pieces_hold_no_separator, lemma_split_concat, lemma_split_len, lemma_split_single, lemma_trim_end, lemma_trim_start, nonempty, opt_str, opt_text, pieces_of, split, trim_end, trim_start, trimmed, words, CharSet};

verus! {

/// Whether every character belongs to the class.
pub open spec fn all_of(s: Seq<char>, set: CharSet) -> bool {
    forall|i: int| 0 <= i < s.len() ==> set.has(#[trigger] s[i])
}

/// Whether no character belongs to the class.
pub open spec fn none_of(s: Seq<char>, set: CharSet) -> bool {
    forall|i: int| 0 <= i < s.len() ==> !set.has(#[trigger] s[i])
}

/// The classes: white space, the full stop, the slash, and either slash.
pub proof fn law_character_classes(c: char)
    ensures
        CharSet::White.has(c) <==> is_white(c),
        CharSet::Dot.has(c) <==> c == '.',
        CharSet::Slash.has(c) <==> c == '/',
        CharSet::AnySlash.has(c) <==> c == '/' || c == '\\',
        is_white(' ') && is_white('\n') && is_white('\t'),
        !is_white('.') && !is_white('/') && !is_white('\\') && !is_white('_') && !is_white('"')
            && !is_white('\''),
{
}

/// Trimming at the start takes away exactly the characters of the class in front.
pub proof fn law_trim_start_takes_the_front(lead: Seq<char>, kept: Seq<char>, set: CharSet)
    requires
        all_of(lead, set),
        kept.len() == 0 || !set.has(kept[0]),
    ensures
        trim_start(lead + kept, set) == kept,
    decreases lead.len(),
{
    let s = lead + kept;
    if lead.len() == 0 {
        assert(s =~= kept);
    } else {
        assert(s[0] == lead[0]);
        assert(s.drop_first() =~= lead.drop_first() + kept);
        assert forall|i: int| 0 <= i < lead.drop_first().len() implies set.has(
            #[trigger] lead.drop_first()[i],
        ) by {
            assert(lead.drop_first()[i] == lead[i + 1]);
        }
        law_trim_start_takes_the_front(lead.drop_first(), kept, set);
    }
}

/// Trimming at the end takes away exactly the characters of the class behind.
pub proof fn law_trim_end_takes_the_back(kept: Seq<char>, tail: Seq<char>, set: CharSet)
    requires
        all_of(tail, set),
        kept.len() == 0 || !set.has(kept.last()),
    ensures
        trim_end(kept + tail, set) == kept,
    decreases tail.len(),
{
    let s = kept + tail;
    if tail.len() == 0 {
        assert(s =~= kept);
    } else {
        assert(s.last() == tail.last());
        assert(tail.last() == tail[tail.len() - 1]);
        assert(s.drop_last() =~= kept + tail.drop_last());
        assert forall|i: int| 0 <= i < tail.drop_last().len() implies set.has(
            #[trigger] tail.drop_last()[i],
        ) by {
            assert(tail.drop_last()[i] == tail[i]);
        }
        law_trim_end_takes_the_back(kept, tail.drop_last(), set);
    }
}

/// Trimming takes away exactly the white space round a text.
pub proof fn law_trimmed_takes_the_frame(lead: Seq<char>, kept: Seq<char>, tail: Seq<char>)
    requires
        all_of(lead, CharSet::White),
        all_of(tail, CharSet::White),
        kept.len() == 0 || (!is_white(kept[0]) && !is_white(kept.last())),
    ensures
        trimmed(lead + kept + tail) == kept,
{
    let set = CharSet::White;
    if kept.len() == 0 {
        let all = lead + tail;
        assert(lead + kept + tail =~= all + kept);
        assert forall|i: int| 0 <= i < all.len() implies set.has(#[trigger] all[i]) by {
            if i < lead.len() {
                assert(all[i] == lead[i]);
            } else {
                assert(all[i] == tail[i - lead.len()]);
            }
        }
        law_trim_start_takes_the_front(all, kept, set);
        assert(kept =~= kept + Seq::<char>::empty());
        law_trim_end_takes_the_back(kept, Seq::empty(), set);
    } else {
        assert(lead + kept + tail =~= lead + (kept + tail));
        assert((kept + tail)[0] == kept[0]);
        law_trim_start_takes_the_front(lead, kept + tail, set);
        law_trim_end_takes_the_back(kept, tail, set);
    }
}

proof fn lemma_nonempty_concat(a: Seq<Seq<char>>, b: Seq<Seq<char>>)
    ensures
        nonempty(a + b) == nonempty(a) + nonempty(b),
    decreases b.len(),
{
    if b.len() == 0 {
        assert(a + b =~= a);
        assert(nonempty(a) + nonempty(b) =~= nonempty(a));
    } else {
        lemma_nonempty_concat(a, b.drop_last());
        assert((a + b).drop_last() =~= a + b.drop_last());
        assert((a + b).last() == b.last());
        assert(nonempty(a + b) =~= nonempty(a) + nonempty(b));
    }
}

/// A white character parts words: the words of two texts with one between them are the words
/// of both.
pub proof fn law_white_space_parts_words(a: Seq<char>, c: char, b: Seq<char>)
    requires
        is_white(c),
    ensures
        words(a.push(c) + b) == words(a) + words(b),
{
    lemma_split_concat(a, c, b, CharSet::White);
    lemma_nonempty_concat(split(a, CharSet::White), split(b, CharSet::White));
}

/// A text without white space is one word, unless it is empty.
pub proof fn law_text_without_white_space_is_a_word(s: Seq<char>)
    requires
        none_of(s, CharSet::White),
    ensures
        s.len() > 0 ==> words(s) == seq![s],
        s.len() == 0 ==> words(s) == Seq::<Seq<char>>::empty(),
{
    lemma_split_single(s, CharSet::White);
    let one = seq![s];
    assert(one.drop_last() =~= Seq::empty());
    reveal_with_fuel(nonempty, 2);
    if s.len() > 0 {
        assert(words(s) =~= seq![s]);
    } else {
        assert(words(s) =~= Seq::empty());
    }
}

/// Separators part pieces, empty ones kept: the pieces of two texts with a separator between
/// them are the pieces of both, and a text without one is its own only piece.
pub proof fn law_separators_part_pieces(a: Seq<char>, sep: char, b: Seq<char>, set: CharSet)
    requires
        set.has(sep),
    ensures
        split(a.push(sep) + b, set) == split(a, set) + split(b, set),
        none_of(a, set) ==> split(a, set) == seq![a],
{
    lemma_split_concat(a, sep, b, set);
    if none_of(a, set) {
        lemma_split_single(a, set);
    }
}

/// Joined parts stand one after the other with one separator between neighbours.
pub proof fn law_join_puts_one_separator_between(parts: Seq<Seq<char>>, part: Seq<char>, sep: char)
    ensures
        join(Seq::empty(), sep) == Seq::<char>::empty(),
        join(seq![part], sep) == part,
        parts.len() > 0 ==> join(parts.push(part), sep) == join(parts, sep) + seq![sep] + part,
{
    if parts.len() > 0 {
        assert(parts.push(part).drop_last() =~= parts);
        assert(join(parts.push(part), sep) =~= join(parts, sep) + seq![sep] + part);
    }
}

/// Cutting to length keeps the beginning: all of a text that fits, and as much as fits of one
/// that does not.
pub proof fn law_clamp_keeps_the_beginning(s: Seq<char>, max: nat)
    ensures
        s.len() <= max ==> clamp(s, max) == s,
        s.len() > max ==> clamp(s, max).len() == max,
        forall|i: int| 0 <= i < clamp(s, max).len() ==> clamp(s, max)[i] == s[i],
{
}

/// Nothing is left of a trimmed text exactly if it is white space all through.
pub proof fn law_blank_text_leaves_nothing(s: Seq<char>)
    ensures
        trimmed(s).len() == 0 <==> all_of(s, CharSet::White),
{
    let none = Seq::<char>::empty();
    let t = trim_start(s, CharSet::White);
    lemma_trim_start(s, CharSet::White);
    lemma_trim_end(t, CharSet::White);
    if all_of(s, CharSet::White) {
        assert(none + none + s =~= s);
        law_trimmed_takes_the_frame(none, none, s);
    }
    if trimmed(s).len() == 0 {
        if t.len() > 0 {
            assert(CharSet::White.has(t[0]));
        }
        lemma_trim_start_takes_white(s);
    }
}

proof fn lemma_trim_start_takes_white(s: Seq<char>)
    requires
        trim_start(s, CharSet::White).len() == 0,
    ensures
        all_of(s, CharSet::White),
    decreases s.len(),
{
    if s.len() > 0 {
        let rest = s.drop_first();
        lemma_trim_start_takes_white(rest);
        assert forall|i: int| 0 <= i < s.len() implies CharSet::White.has(#[trigger] s[i]) by {
            if i > 0 {
                assert(rest[i - 1] == s[i]);
            }
        }
    }
}

/// The words of a text are words, and there is one exactly if the text is not white space all
/// through.
pub proof fn law_words_are_words(s: Seq<char>)
    ensures
        forall|i: int|
            0 <= i < words(s).len() ==> (#[trigger] words(s)[i]).len() > 0 && none_of(
                words(s)[i],
                CharSet::White,
            ),
        words(s).len() == 0 <==> all_of(s, CharSet::White),
{
    let pieces = split(s, CharSet::White);
    lemma_pieces_hold_no_separator(s, CharSet::White);
    assert forall|i: int| 0 <= i < pieces.len() implies none_of(
        #[trigger] pieces[i],
        CharSet::White,
    ) by {
    }
    lemma_nonempty_pieces(pieces);
    lemma_blank_pieces(s);
}

proof fn lemma_nonempty_pieces(pieces: Seq<Seq<char>>)
    requires
        forall|i: int| 0 <= i < pieces.len() ==> none_of(#[trigger] pieces[i], CharSet::White),
    ensures
        forall|i: int|
            0 <= i < nonempty(pieces).len() ==> (#[trigger] nonempty(pieces)[i]).len() > 0
                && none_of(nonempty(pieces)[i], CharSet::White),
        nonempty(pieces).len() == 0 <==> forall|i: int|
            0 <= i < pieces.len() ==> (#[trigger] pieces[i]).len() == 0,
    decreases pieces.len(),
{
    if pieces.len() > 0 {
        let head = pieces.drop_last();
        assert forall|i: int| 0 <= i < head.len() implies none_of(
            #[trigger] head[i],
            CharSet::White,
        ) by {
            assert(head[i] == pieces[i]);
        }
        lemma_nonempty_pieces(head);
        assert(none_of(pieces[pieces.len() - 1], CharSet::White));
        assert forall|i: int| 0 <= i < nonempty(pieces).len() implies (
        #[trigger] nonempty(pieces)[i]).len() > 0 && none_of(
            nonempty(pieces)[i],
            CharSet::White,
        ) by {
            if i < nonempty(head).len() {
                assert(nonempty(pieces)[i] == nonempty(head)[i]);
            }
        }
        if nonempty(pieces).len() == 0 {
            assert forall|i: int| 0 <= i < pieces.len() implies (#[trigger] pieces[i]).len()
                == 0 by {
                if i < head.len() {
                    assert(head[i] == pieces[i]);
                }
            }
        }
        if forall|i: int| 0 <= i < pieces.len() ==> (#[trigger] pieces[i]).len() == 0 {
            assert(pieces[pieces.len() - 1].len() == 0);
            assert forall|i: int| 0 <= i < head.len() implies (#[trigger] head[i]).len() == 0 by {
                assert(head[i] == pieces[i]);
            }
        }
    }
}

proof fn lemma_blank_pieces(s: Seq<char>)
    ensures
        (forall|i: int|
            0 <= i < split(s, CharSet::White).len() ==> (#[trigger] split(
                s,
                CharSet::White,
            )[i]).len() == 0) <==> all_of(s, CharSet::White),
    decreases s.len(),
{
    let pieces = split(s, CharSet::White);
    if s.len() > 0 {
        let init = s.drop_last();
        let head = split(init, CharSet::White);
        lemma_split_len(init, CharSet::White);
        lemma_blank_pieces(init);
        let last = s[s.len() - 1];
        if CharSet::White.has(last) {
            assert(pieces =~= head.push(Seq::empty()));
            if all_of(s, CharSet::White) {
                assert(all_of(init, CharSet::White)) by {
                    assert forall|i: int| 0 <= i < init.len() implies CharSet::White.has(
                        #[trigger] init[i],
                    ) by {
                        assert(init[i] == s[i]);
                    }
                }
                assert forall|i: int| 0 <= i < pieces.len() implies (#[trigger] pieces[i]).len()
                    == 0 by {
                    if i < head.len() {
                        assert(pieces[i] == head[i]);
                    }
                }
            }
            if forall|i: int| 0 <= i < pieces.len() ==> (#[trigger] pieces[i]).len() == 0 {
                assert forall|i: int| 0 <= i < head.len() implies (#[trigger] head[i]).len()
                    == 0 by {
                    assert(head[i] == pieces[i]);
                }
                assert forall|i: int| 0 <= i < s.len() implies CharSet::White.has(
                    #[trigger] s[i],
                ) by {
                    if i < init.len() {
                        assert(init[i] == s[i]);
                    }
                }
            }
        } else {
            assert(pieces[pieces.len() - 1].len() > 0);
        }
    }
}

/// Vectors and options of text are seen by the text they hold.
pub proof fn law_text_is_seen_as_it_is(v: Seq<Vec<char>>, s: String, t: &str, i: int)
    ensures
        pieces_of(v).len() == v.len(),
        0 <= i < v.len() ==> pieces_of(v)[i] == v[i]@,
        opt_text(Some(s)) == Some(s@),
        opt_text(None) is None,
        opt_str(Some(t)) == Some(t@),
        opt_str(None) is None,
{
}

} // verus!
