//! Which title a reply stands for, told by the words of the reply, and what the model is asked.
use vstd::prelude::*;
use crate::json::JsonTree;
use crate::text::{is_white, join, lemma_pieces_hold_no_separator, lemma_split_join, lemma_split_len, nonempty, split, words, CharSet};
use crate::text_laws::{all_of, law_blank_text_leaves_nothing, law_text_without_white_space_is_a_word, law_trim_end_takes_the_back, law_trimmed_takes_the_frame, law_white_space_parts_words, law_words_are_words, none_of};
use super::flow::{asks_for_title, base_url, can_ask, TitleRequest};
use super::title::{body_title, reply_content, tidy, title_of, title_of_words, user_content};

verus! {

/// A list of words, each of them not empty and free of white space.
pub open spec fn word_list(ws: Seq<Seq<char>>) -> bool {
    forall|i: int|
        0 <= i < ws.len() ==> (#[trigger] ws[i]).len() > 0 && none_of(ws[i], CharSet::White)
}

/// Whether `t` is the title made of a reply's words: all of them where six words and sixty-four
/// characters hold them; the first six where there are more; and where these are too long their
/// beginning, cut at sixty-four characters, or one earlier so that it does not end with a space.
pub open spec fn titles(t: Seq<char>, ws: Seq<Seq<char>>) -> bool {
    let first = if ws.len() <= 6 {
        join(ws, ' ')
    } else {
        join(ws.take(6), ' ')
    };
    if first.len() <= 64 {
        t == first
    } else {
        &&& t.len() == 64 || (t.len() == 63 && first[63] == ' ')
        &&& first[63] == ' ' ==> t.len() == 63
        &&& forall|i: int| 0 <= i < t.len() ==> #[trigger] t[i] == first[i]
    }
}

proof fn lemma_all_nonempty(ws: Seq<Seq<char>>)
    requires
        forall|i: int| 0 <= i < ws.len() ==> (#[trigger] ws[i]).len() > 0,
    ensures
        nonempty(ws) == ws,
    decreases ws.len(),
{
    if ws.len() == 0 {
        assert(ws =~= Seq::empty());
    } else {
        let head = ws.drop_last();
        assert forall|i: int| 0 <= i < head.len() implies (#[trigger] head[i]).len() > 0 by {
            assert(head[i] == ws[i]);
        }
        lemma_all_nonempty(head);
        assert(ws[ws.len() - 1].len() > 0);
        assert(nonempty(ws) =~= ws);
    }
}

/// The words of a text of words with single spaces between them are those words.
pub proof fn law_words_of_joined_words(ws: Seq<Seq<char>>)
    requires
        ws.len() > 0,
        word_list(ws),
    ensures
        words(join(ws, ' ')) == ws,
{
    assert forall|i: int, j: int| 0 <= i < ws.len() && 0 <= j < ws[i].len() implies
        !CharSet::White.has(#[trigger] ws[i][j]) by {
        assert(none_of(ws[i], CharSet::White));
    }
    lemma_split_join(ws, ' ', CharSet::White);
    lemma_all_nonempty(ws);
}

/// A text of words begins and ends like its first and last word, and has no two white
/// characters side by side.
proof fn lemma_joined(ws: Seq<Seq<char>>)
    requires
        ws.len() > 0,
        word_list(ws),
    ensures
        join(ws, ' ').len() > 0,
        join(ws, ' ')[0] == ws[0][0],
        join(ws, ' ').last() == ws.last().last(),
        !is_white(join(ws, ' ')[0]),
        !is_white(join(ws, ' ').last()),
        forall|i: int|
            0 <= i < join(ws, ' ').len() && is_white(#[trigger] join(ws, ' ')[i]) ==> 0 < i && i + 1
                < join(ws, ' ').len() && join(ws, ' ')[i] == ' ' && !is_white(
                join(ws, ' ')[i - 1],
            ),
    decreases ws.len(),
{
    let last = ws[ws.len() - 1];
    assert(last.len() > 0 && none_of(last, CharSet::White));
    assert(ws[0].len() > 0 && none_of(ws[0], CharSet::White));
    assert(!CharSet::White.has(last[0]));
    assert(!CharSet::White.has(last[last.len() - 1]));
    assert(!CharSet::White.has(ws[0][0]));
    if ws.len() > 1 {
        let init = ws.drop_last();
        assert forall|i: int| 0 <= i < init.len() implies (#[trigger] init[i]).len() > 0
            && none_of(init[i], CharSet::White) by {
            assert(init[i] == ws[i]);
        }
        lemma_joined(init);
        let head = join(init, ' ');
        let s = join(ws, ' ');
        assert(s =~= head.push(' ') + last);
        assert forall|i: int| 0 <= i < s.len() && is_white(#[trigger] s[i]) implies 0 < i && i + 1
            < s.len() && s[i] == ' ' && !is_white(s[i - 1]) by {
            if i < head.len() {
                assert(s[i] == head[i]);
                assert(s[i - 1] == head[i - 1]);
            } else if i == head.len() {
                assert(s[i - 1] == head[head.len() - 1]);
            } else {
                assert(s[i] == last[i - head.len() - 1]);
                assert(!CharSet::White.has(last[i - head.len() - 1]));
            }
        }
    } else {
        assert forall|i: int| 0 <= i < last.len() implies !is_white(#[trigger] last[i]) by {
            assert(!CharSet::White.has(last[i]));
        }
    }
}

proof fn lemma_title_of_words(ws: Seq<Seq<char>>)
    requires
        ws.len() > 0,
        word_list(ws),
    ensures
        titles(title_of_words(ws), ws),
{
    let kept = if ws.len() > 6 {
        ws.take(6)
    } else {
        ws
    };
    assert forall|i: int| 0 <= i < kept.len() implies (#[trigger] kept[i]).len() > 0 && none_of(
        kept[i],
        CharSet::White,
    ) by {
        assert(kept[i] == ws[i]);
    }
    lemma_joined(kept);
    let first = join(kept, ' ');
    let none = Seq::<char>::empty();
    if first.len() > 64 {
        let cut = first.take(64);
        if is_white(first[63]) {
            let short = first.take(63);
            assert(!is_white(first[62]));
            assert(short[0] == first[0]);
            assert(none + short + seq![' '] =~= cut);
            law_trimmed_takes_the_frame(none, short, seq![' ']);
        } else {
            assert(cut[0] == first[0]);
            assert(none + cut + none =~= cut);
            law_trimmed_takes_the_frame(none, cut, none);
        }
    }
}

/// What is left of a reply once the white space round it, a layer of quotes and the dots at its
/// end are gone: not empty, no white space in front, no dot at the end, and white space there
/// only where dots stood behind it.
pub open spec fn reply_core(kept: Seq<char>, dots: Seq<char>) -> bool {
    &&& kept.len() > 0
    &&& !is_white(kept[0])
    &&& kept.last() != '.'
    &&& all_of(dots, CharSet::Dot)
    &&& dots.len() > 0 || !is_white(kept.last())
}

/// A reply that is not between quotes is titled by its words: white space round it and dots at
/// its end do not matter, dots inside it stay, and nothing else is lost but what is too long.
pub proof fn law_title_keeps_the_words(
    lead: Seq<char>,
    kept: Seq<char>,
    dots: Seq<char>,
    tail: Seq<char>,
)
    requires
        reply_core(kept, dots),
        all_of(lead, CharSet::White),
        all_of(tail, CharSet::White),
        !((kept + dots).len() >= 2 && kept[0] == '"' && (kept + dots).last() == '"'),
        !((kept + dots).len() >= 2 && kept[0] == '\'' && (kept + dots).last() == '\''),
    ensures
        title_of(lead + kept + dots + tail) matches Some(t) && titles(t, words(kept)),
{
    let body = kept + dots;
    let raw = lead + kept + dots + tail;
    assert(raw =~= lead + body + tail);
    assert(body[0] == kept[0]);
    if dots.len() > 0 {
        assert(CharSet::Dot.has(dots[dots.len() - 1]));
        assert(body.last() == dots[dots.len() - 1]);
    } else {
        assert(body =~= kept);
    }
    law_trimmed_takes_the_frame(lead, body, tail);
    law_trim_end_takes_the_back(kept, dots, CharSet::Dot);
    law_words_are_words(kept);
    assert(!CharSet::White.has(kept[0]));
    lemma_title_of_words(words(kept));
}

/// One layer of quotes round a reply is taken off, with the white space inside it, and no more
/// than one: what stood between the quotes is titled by its words.
pub proof fn law_one_layer_of_quotes_is_taken_off(
    lead: Seq<char>,
    q: char,
    before: Seq<char>,
    kept: Seq<char>,
    dots: Seq<char>,
    after: Seq<char>,
    tail: Seq<char>,
)
    requires
        q == '"' || q == '\'',
        reply_core(kept, dots),
        all_of(lead, CharSet::White),
        all_of(before, CharSet::White),
        all_of(after, CharSet::White),
        all_of(tail, CharSet::White),
    ensures
        title_of(
            lead + (seq![q] + (before + (kept + dots) + after) + seq![q]) + tail,
        ) matches Some(t) && titles(t, words(kept)),
{
    let body = kept + dots;
    let inner = before + body + after;
    let quoted = seq![q] + inner + seq![q];
    assert(body[0] == kept[0]);
    if dots.len() > 0 {
        assert(CharSet::Dot.has(dots[dots.len() - 1]));
        assert(body.last() == dots[dots.len() - 1]);
    } else {
        assert(body =~= kept);
    }
    assert(quoted[0] == q && quoted.last() == q);
    law_trimmed_takes_the_frame(lead, quoted, tail);
    assert(quoted.subrange(1, quoted.len() - 1) =~= inner);
    law_trimmed_takes_the_frame(before, body, after);
    law_trim_end_takes_the_back(kept, dots, CharSet::Dot);
    law_words_are_words(kept);
    assert(!CharSet::White.has(kept[0]));
    lemma_title_of_words(words(kept));
}

/// The words of a title that did not have to be cut are the words of the reply, all of them and
/// in order; of one that has more than six words they are the first six.
pub proof fn law_uncut_title_has_the_words_of_the_reply(t: Seq<char>, kept: Seq<char>)
    requires
        kept.len() > 0,
        !is_white(kept[0]),
        titles(t, words(kept)),
    ensures
        words(kept).len() <= 6 && join(words(kept), ' ').len() <= 64 ==> words(t) == words(kept),
        words(kept).len() > 6 && join(words(kept).take(6), ' ').len() <= 64 ==> words(t) == words(
            kept,
        ).take(6),
{
    let ws = words(kept);
    law_words_are_words(kept);
    assert(!CharSet::White.has(kept[0]));
    law_words_of_joined_words(ws);
    if ws.len() > 6 {
        let first = ws.take(6);
        assert forall|i: int| 0 <= i < first.len() implies (#[trigger] first[i]).len() > 0
            && none_of(first[i], CharSet::White) by {
            assert(first[i] == ws[i]);
        }
        law_words_of_joined_words(first);
    }
}

/// A reply of words is titled by them, whatever white space stands between them: the same words
/// with single spaces between them get the same title.
pub proof fn law_title_depends_on_the_words_alone(kept: Seq<char>, ws: Seq<Seq<char>>)
    requires
        reply_core(kept, Seq::empty()),
        words(kept) == ws,
        kept[0] != '"',
        kept[0] != '\'',
    ensures
        title_of(kept) == title_of(join(ws, ' ')),
        title_of(kept) matches Some(t) && titles(t, ws),
{
    let none = Seq::<char>::empty();
    law_words_are_words(kept);
    assert(!CharSet::White.has(kept[0]));
    lemma_joined(ws);
    lemma_same_ends(kept);
    assert(none + kept + none + none =~= kept);
    assert(kept + none =~= kept);
    law_title_keeps_the_words(none, kept, none, none);
    let flat = join(ws, ' ');
    assert(none + flat + none =~= flat);
    assert(none + kept + none =~= kept);
    assert(flat + none =~= flat);
    law_trimmed_takes_the_frame(none, flat, none);
    law_trimmed_takes_the_frame(none, kept, none);
    law_trim_end_takes_the_back(flat, none, CharSet::Dot);
    law_trim_end_takes_the_back(kept, none, CharSet::Dot);
    law_words_of_joined_words(ws);
}

/// The first and the last word begin and end as the text does that has no white space round it.
proof fn lemma_same_ends(s: Seq<char>)
    requires
        s.len() > 0,
        !is_white(s[0]),
        !is_white(s.last()),
    ensures
        words(s).len() > 0,
        words(s)[0][0] == s[0],
        words(s).last().last() == s.last(),
{
    law_words_are_words(s);
    assert(!CharSet::White.has(s[0]));
    lemma_first_word(s);
    lemma_last_word(s);
}

proof fn lemma_first_word(s: Seq<char>)
    requires
        s.len() > 0,
        !is_white(s[0]),
    ensures
        words(s).len() > 0,
        words(s)[0].len() > 0,
        words(s)[0][0] == s[0],
    decreases s.len(),
{
    let k = first_white(s, 0);
    lemma_first_white(s, 0);
    if k == s.len() {
        assert forall|i: int| 0 <= i < s.len() implies !CharSet::White.has(#[trigger] s[i]) by {
        }
        law_text_without_white_space_is_a_word(s);
    } else {
        let a = s.take(k);
        let b = s.skip(k + 1);
        assert(s =~= a.push(s[k]) + b);
        law_white_space_parts_words(a, s[k], b);
        assert forall|i: int| 0 <= i < a.len() implies !CharSet::White.has(#[trigger] a[i]) by {
            assert(a[i] == s[i]);
        }
        law_text_without_white_space_is_a_word(a);
        assert(words(s)[0] == a);
        assert(a[0] == s[0]);
    }
}

proof fn lemma_last_word(s: Seq<char>)
    requires
        s.len() > 0,
        !is_white(s.last()),
    ensures
        words(s).len() > 0,
        words(s).last().len() > 0,
        words(s).last().last() == s.last(),
{
    let k = last_white(s, s.len() as int);
    lemma_last_white(s, s.len() as int);
    if k == 0 {
        assert forall|i: int| 0 <= i < s.len() implies !CharSet::White.has(#[trigger] s[i]) by {
        }
        law_text_without_white_space_is_a_word(s);
    } else {
        let a = s.take(k - 1);
        let b = s.skip(k);
        assert(s =~= a.push(s[k - 1]) + b);
        law_white_space_parts_words(a, s[k - 1], b);
        assert(s.last() == s[s.len() - 1]);
        assert(k < s.len());
        assert forall|i: int| 0 <= i < b.len() implies !CharSet::White.has(#[trigger] b[i]) by {
            assert(b[i] == s[k + i]);
        }
        law_text_without_white_space_is_a_word(b);
        assert(words(s).last() == b);
    }
}

/// Where the first white character stands at or after `from`; the length where there is none.
spec fn first_white(s: Seq<char>, from: int) -> int
    decreases s.len() - from,
{
    if from >= s.len() {
        s.len() as int
    } else if is_white(s[from]) {
        from
    } else {
        first_white(s, from + 1)
    }
}

proof fn lemma_first_white(s: Seq<char>, from: int)
    requires
        0 <= from <= s.len(),
    ensures
        from <= first_white(s, from) <= s.len(),
        first_white(s, from) < s.len() ==> is_white(s[first_white(s, from)]),
        forall|i: int| from <= i < first_white(s, from) ==> !is_white(#[trigger] s[i]),
    decreases s.len() - from,
{
    if from < s.len() && !is_white(s[from]) {
        lemma_first_white(s, from + 1);
    }
}

/// One more than where the last white character stands before `to`; zero where there is none.
spec fn last_white(s: Seq<char>, to: int) -> int
    decreases to,
{
    if to <= 0 {
        0
    } else if is_white(s[to - 1]) {
        to
    } else {
        last_white(s, to - 1)
    }
}

proof fn lemma_last_white(s: Seq<char>, to: int)
    requires
        0 <= to <= s.len(),
    ensures
        0 <= last_white(s, to) <= to,
        last_white(s, to) > 0 ==> is_white(s[last_white(s, to) - 1]),
        forall|i: int| last_white(s, to) <= i < to ==> !is_white(#[trigger] s[i]),
    decreases to,
{
    if to > 0 && !is_white(s[to - 1]) {
        lemma_last_white(s, to - 1);
    }
}

/// A reply of nothing but white space round dots gives no title, nor does one between quotes.
pub proof fn law_reply_without_words_gives_no_title(
    lead: Seq<char>,
    q: char,
    dots: Seq<char>,
    tail: Seq<char>,
)
    requires
        q == '"' || q == '\'',
        all_of(lead, CharSet::White),
        all_of(tail, CharSet::White),
        all_of(dots, CharSet::Dot),
    ensures
        title_of(lead + dots + tail) is None,
        title_of(seq![q] + (lead + dots + tail) + seq![q]) is None,
{
    let none = Seq::<char>::empty();
    if dots.len() > 0 {
        assert(CharSet::Dot.has(dots[0]) && CharSet::Dot.has(dots[dots.len() - 1]));
        assert(dots[0] == '.' && dots.last() == '.');
    }
    law_trimmed_takes_the_frame(lead, dots, tail);
    assert(none + dots =~= dots);
    law_trim_end_takes_the_back(none, dots, CharSet::Dot);
    law_text_without_white_space_is_a_word(none);
    let quoted = seq![q] + (lead + dots + tail) + seq![q];
    assert(none + quoted + none =~= quoted);
    law_trimmed_takes_the_frame(none, quoted, none);
    assert(quoted.subrange(1, quoted.len() - 1) =~= lead + dots + tail);
}

/// A text in which single spaces are the only white space is its pieces joined by them.
proof fn lemma_join_split(s: Seq<char>)
    requires
        forall|i: int| 0 <= i < s.len() && is_white(#[trigger] s[i]) ==> s[i] == ' ',
    ensures
        join(split(s, CharSet::White), ' ') == s,
    decreases s.len(),
{
    let set = CharSet::White;
    let pieces = split(s, set);
    if s.len() == 0 {
        assert(pieces =~= seq![Seq::<char>::empty()]);
        assert(join(pieces, ' ') =~= s);
    } else {
        let init = s.drop_last();
        let head = split(init, set);
        assert forall|i: int| 0 <= i < init.len() && is_white(#[trigger] init[i]) implies init[i]
            == ' ' by {
            assert(init[i] == s[i]);
        }
        lemma_join_split(init);
        lemma_split_len(init, set);
        assert(s.last() == s[s.len() - 1]);
        if set.has(s.last()) {
            assert(pieces.drop_last() =~= head);
            assert(join(pieces, ' ') =~= join(head, ' ').push(' ') + Seq::<char>::empty());
            assert(join(pieces, ' ') =~= s);
        } else {
            assert(pieces.drop_last() =~= head.drop_last());
            assert(pieces.last() =~= head.last().push(s.last()));
            if head.len() == 1 {
                assert(join(head, ' ') == head[0]);
                assert(join(pieces, ' ') == pieces[0]);
            }
            assert(join(pieces, ' ') =~= join(head, ' ').push(s.last()));
            assert(join(pieces, ' ') =~= s);
        }
    }
}

/// The pieces of a text without white space at its beginning and without two white characters
/// side by side are words, but for the last one where the text ends with white space.
proof fn lemma_pieces_are_words(s: Seq<char>)
    requires
        s.len() > 0,
        !is_white(s[0]),
        forall|i: int|
            0 <= i && i + 1 < s.len() && is_white(#[trigger] s[i]) ==> !is_white(s[i + 1]),
    ensures
        forall|i: int|
            0 <= i < split(s, CharSet::White).len() - 1 ==> (#[trigger] split(
                s,
                CharSet::White,
            )[i]).len() > 0,
        split(s, CharSet::White).last().len() == 0 <==> is_white(s.last()),
    decreases s.len(),
{
    let set = CharSet::White;
    let init = s.drop_last();
    let head = split(init, set);
    let pieces = split(s, set);
    lemma_split_len(init, set);
    if init.len() == 0 {
        assert(init =~= Seq::empty());
        assert(head =~= seq![Seq::<char>::empty()]);
    } else {
        assert(init[0] == s[0]);
        assert forall|i: int|
            0 <= i && i + 1 < init.len() && is_white(#[trigger] init[i]) implies !is_white(
            init[i + 1],
        ) by {
            assert(init[i] == s[i] && init[i + 1] == s[i + 1]);
        }
        lemma_pieces_are_words(init);
        assert(init.last() == s[s.len() - 2]);
        if set.has(s.last()) {
            assert(!is_white(init.last()));
        }
        assert forall|i: int| 0 <= i < pieces.len() - 1 implies (#[trigger] pieces[i]).len() > 0 by {
            assert(pieces[i] == head[i]);
        }
    }
}

/// A good title is kept as it is: a tidy reply of at most six words and sixty-four characters
/// that does not end with a dot and is not between quotes.
pub proof fn law_good_title_is_kept(raw: Seq<char>)
    requires
        tidy(raw),
        words(raw).len() <= 6,
        raw.len() <= 64,
        raw.last() != '.',
        !(raw.len() >= 2 && raw[0] == '"' && raw.last() == '"'),
        !(raw.len() >= 2 && raw[0] == '\'' && raw.last() == '\''),
    ensures
        title_of(raw) == Some(raw),
{
    let none = Seq::<char>::empty();
    let ws = split(raw, CharSet::White);
    assert forall|i: int|
        0 <= i && i + 1 < raw.len() && is_white(#[trigger] raw[i]) implies !is_white(raw[i + 1]) by {
    }
    lemma_pieces_are_words(raw);
    lemma_split_len(raw, CharSet::White);
    lemma_join_split(raw);
    lemma_pieces_hold_no_separator(raw, CharSet::White);
    assert forall|i: int| 0 <= i < ws.len() implies (#[trigger] ws[i]).len() > 0 && none_of(
        ws[i],
        CharSet::White,
    ) by {
        if i == ws.len() - 1 {
            assert(ws.last() == ws[i]);
        }
    }
    lemma_all_nonempty(ws);
    assert(raw + none =~= raw);
    assert(none + raw + none + none =~= raw);
    law_title_keeps_the_words(none, raw, none, none);
}

/// The exchange is shown to the model whole, without the white space round either side: the
/// user's words first, then the assistant's, if there are any. Of a longer text the model sees
/// the first six hundred characters.
pub proof fn law_exchange_is_shown(
    lead: Seq<char>,
    user: Seq<char>,
    tail: Seq<char>,
    before: Seq<char>,
    reply: Seq<char>,
    after: Seq<char>,
)
    requires
        all_of(lead, CharSet::White),
        all_of(tail, CharSet::White),
        all_of(before, CharSet::White),
        all_of(after, CharSet::White),
        user.len() == 0 || (!is_white(user[0]) && !is_white(user.last())),
        reply.len() == 0 || (!is_white(reply[0]) && !is_white(reply.last())),
    ensures
        ({
            let asked = "User request:\n"@ + if user.len() <= 600 {
                user
            } else {
                user.take(600)
            };
            let answered = if reply.len() <= 600 {
                reply
            } else {
                reply.take(600)
            };
            user_content(lead + user + tail, before + reply + after) == if reply.len() == 0 {
                asked
            } else {
                asked + "\n\nAssistant reply:\n"@ + answered
            }
        }),
{
    law_trimmed_takes_the_frame(lead, user, tail);
    law_trimmed_takes_the_frame(before, reply, after);
}

/// The text of the first choice is found in a body of the expected shape.
pub proof fn law_first_choice_is_read(
    body: Map<Seq<char>, JsonTree>,
    choices: Seq<JsonTree>,
    choice: Map<Seq<char>, JsonTree>,
    message: Map<Seq<char>, JsonTree>,
    content: Seq<char>,
)
    requires
        body.contains_key("choices"@),
        body["choices"@] == JsonTree::Array(choices),
        choices.len() > 0,
        choices[0] == JsonTree::Object(choice),
        choice.contains_key("message"@),
        choice["message"@] == JsonTree::Object(message),
        message.contains_key("content"@),
        message["content"@] == JsonTree::Str(content),
    ensures
        reply_content(Some(JsonTree::Object(body))) == Some(content),
        body_title(Some(JsonTree::Object(body))) == title_of(content),
{
}

/// The text of a reply is the content of the message of the first of its choices, and there is
/// none where the body is shaped otherwise anywhere on the way.
pub proof fn law_body_is_read_by_its_shape(document: Option<JsonTree>)
    ensures
        reply_content(document) == match document {
            Some(JsonTree::Object(body)) => if body.contains_key("choices"@) {
                match body["choices"@] {
                    JsonTree::Array(choices) => if choices.len() == 0 {
                        None
                    } else {
                        match choices[0] {
                            JsonTree::Object(choice) => if choice.contains_key("message"@) {
                                match choice["message"@] {
                                    JsonTree::Object(message) => if message.contains_key(
                                        "content"@,
                                    ) {
                                        match message["content"@] {
                                            JsonTree::Str(content) => Some(content),
                                            _ => None,
                                        }
                                    } else {
                                        None
                                    },
                                    _ => None,
                                }
                            } else {
                                None
                            },
                            _ => None,
                        }
                    },
                    _ => None,
                }
            } else {
                None
            },
            _ => None,
        },
        body_title(document) == match reply_content(document) {
            Some(content) => title_of(content),
            None => None,
        },
{
}

/// The address loses the white space round it and the slashes at its end, and nothing else.
pub proof fn law_address_is_kept(
    lead: Seq<char>,
    url: Seq<char>,
    slashes: Seq<char>,
    tail: Seq<char>,
)
    requires
        all_of(lead, CharSet::White),
        all_of(tail, CharSet::White),
        all_of(slashes, CharSet::Slash),
        url.len() == 0 || (!is_white(url[0]) && url.last() != '/'),
        url.len() > 0 && slashes.len() == 0 ==> !is_white(url.last()),
    ensures
        base_url(lead + url + slashes + tail) == url,
{
    let inner = url + slashes;
    assert(lead + url + slashes + tail =~= lead + inner + tail);
    if slashes.len() > 0 {
        assert(CharSet::Slash.has(slashes[0]) && CharSet::Slash.has(slashes[slashes.len() - 1]));
        assert(inner.last() == slashes[slashes.len() - 1]);
    } else {
        assert(inner =~= url);
    }
    if url.len() > 0 {
        assert(inner[0] == url[0]);
    } else if slashes.len() > 0 {
        assert(inner[0] == slashes[0]);
    }
    law_trimmed_takes_the_frame(lead, inner, tail);
    law_trim_end_takes_the_back(url, slashes, CharSet::Slash);
}

/// A title is asked for exactly where the address is more than white space and slashes, and key,
/// model and the user's words are more than white space.
pub proof fn law_title_can_be_asked_for(
    api_url: Seq<char>,
    api_key: Seq<char>,
    model: Seq<char>,
    user_text: Seq<char>,
)
    ensures
        can_ask(api_url, api_key, model, user_text) <==> base_url(api_url).len() > 0 && !all_of(
            api_key,
            CharSet::White,
        ) && !all_of(model, CharSet::White) && !all_of(user_text, CharSet::White),
{
    law_blank_text_leaves_nothing(api_key);
    law_blank_text_leaves_nothing(model);
    law_blank_text_leaves_nothing(user_text);
}

/// It is asked of the chat-completion endpoint of the address, with the key and the model,
/// without white space round them, about this exchange; the answer is short, comes in one piece
/// and is waited for fifteen seconds.
pub proof fn law_title_is_asked_for(
    lead: Seq<char>,
    key: Seq<char>,
    model: Seq<char>,
    tail: Seq<char>,
    api_url: Seq<char>,
    user_text: Seq<char>,
    assistant_text: Seq<char>,
    r: TitleRequest,
)
    requires
        all_of(lead, CharSet::White),
        all_of(tail, CharSet::White),
        key.len() == 0 || (!is_white(key[0]) && !is_white(key.last())),
        model.len() == 0 || (!is_white(model[0]) && !is_white(model.last())),
        asks_for_title(
            r,
            api_url,
            lead + key + tail,
            lead + model + tail,
            user_text,
            assistant_text,
        ),
    ensures
        r.url@ == base_url(api_url) + "/chat/completions"@,
        r.key@ == key,
        r.model@ == model,
        r.user@ == user_content(user_text, assistant_text),
        r.system@
            == "You generate a short title for a coding conversation. Reply with ONLY a 3-5 word title, no quotes, no punctuation."@,
        !r.stream,
        r.max_tokens == 20,
        r.temperature_tenths == 3,
        r.timeout_secs == 15,
{
    law_trimmed_takes_the_frame(lead, key, tail);
    law_trimmed_takes_the_frame(lead, model, tail);
}

} // verus!
