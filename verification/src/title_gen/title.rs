//! What is sent to the title model and what becomes of its reply.
use vstd::prelude::*;
use crate::json::{json_at, json_get, json_of_text, json_tree, read_json, tree_at, tree_get, tree_str, JsonTree};
use crate::text::{append_chars, chars_of, clamp, clamp_chars, is_white, join, join_chars, lemma_split_join, lemma_split_len, lemma_trim_end, nonempty, opt_text, pieces_of, slice_chars, split, string_of, trim_chars, trim_end, trim_end_chars, trim_start, trimmed, words, words_of, CharSet};

verus! {

/// Most characters of either side of the conversation that the model gets to see.
pub const MAX_INPUT_CHARS: usize = 600;

/// Most words of a title.
pub const MAX_TITLE_WORDS: usize = 6;

/// Most characters of a title.
pub const MAX_TITLE_CHARS: usize = 64;

/// The opening exchange as the model gets to see it: both sides trimmed, cut to length and
/// labelled; the assistant's is left out where it is blank.
pub open spec fn user_content(user_text: Seq<char>, assistant_text: Seq<char>) -> Seq<char> {
    let user = clamp(trimmed(user_text), MAX_INPUT_CHARS as nat);
    let assistant = clamp(trimmed(assistant_text), MAX_INPUT_CHARS as nat);
    let asked = "User request:\n"@ + user;
    if assistant.len() == 0 {
        asked
    } else {
        asked + "\n\nAssistant reply:\n"@ + assistant
    }
}

/// Whether `t` stands between two quotes `q`.
pub open spec fn quoted_by(t: Seq<char>, q: char) -> bool {
    t.len() >= 2 && t[0] == q && t.last() == q
}

/// `t` without one layer of quotes round it, and trimmed inside them.
pub open spec fn unquoted(t: Seq<char>) -> Seq<char> {
    if quoted_by(t, '"') || quoted_by(t, '\'') {
        trimmed(t.subrange(1, t.len() - 1))
    } else {
        t
    }
}

/// The words of a reply: trimmed, taken out of one layer of quotes, and without the dots at
/// its end.
pub open spec fn reply_words(raw: Seq<char>) -> Seq<Seq<char>> {
    words(trim_end(unquoted(trimmed(raw)), CharSet::Dot))
}

/// The title made of some words: as many as a title may have, with single spaces between
/// them, cut to length and trimmed where they are longer than a title may be.
pub open spec fn title_of_words(all: Seq<Seq<char>>) -> Seq<char> {
    let kept = if all.len() > MAX_TITLE_WORDS {
        all.take(MAX_TITLE_WORDS as int)
    } else {
        all
    };
    let title = join(kept, ' ');
    if title.len() > MAX_TITLE_CHARS {
        trimmed(clamp(title, MAX_TITLE_CHARS as nat))
    } else {
        title
    }
}

/// The title that a reply stands for; none where the reply has no words.
pub open spec fn title_of(raw: Seq<char>) -> Option<Seq<char>> {
    let all = reply_words(raw);
    if all.len() == 0 {
        None
    } else {
        Some(title_of_words(all))
    }
}

/// The text of the first choice in the body of a reply.
pub open spec fn reply_content(document: Option<JsonTree>) -> Option<Seq<char>> {
    match document {
        Some(tree) => match tree_get(tree, "choices"@) {
            Some(choices) => match tree_at(choices, 0) {
                Some(choice) => match tree_get(choice, "message"@) {
                    Some(message) => match tree_get(message, "content"@) {
                        Some(content) => tree_str(content),
                        None => None,
                    },
                    None => None,
                },
                None => None,
            },
            None => None,
        },
        None => None,
    }
}

/// The title in the body of a reply.
pub open spec fn body_title(document: Option<JsonTree>) -> Option<Seq<char>> {
    match reply_content(document) {
        Some(content) => title_of(content),
        None => None,
    }
}

/// The first `max` characters of `s`, or all of `s` where there are fewer.
pub fn truncate_chars(s: &str, max: usize) -> (r: String)
    ensures
        r@ == clamp(s@, max as nat),
{
    string_of(&clamp_chars(&chars_of(s), max))
}

/// The opening exchange as the model gets to see it.
pub fn build_user_content(user_text: &str, assistant_text: &str) -> (r: String)
    ensures
        r@ == user_content(user_text@, assistant_text@),
{
    let user = clamp_chars(&trim_chars(&chars_of(user_text)), MAX_INPUT_CHARS);
    let assistant = clamp_chars(&trim_chars(&chars_of(assistant_text)), MAX_INPUT_CHARS);
    let mut out = chars_of("User request:\n");
    append_chars(&mut out, &user);
    if assistant.len() > 0 {
        append_chars(&mut out, &chars_of("\n\nAssistant reply:\n"));
        append_chars(&mut out, &assistant);
    }
    string_of(&out)
}

/// However long the conversation, the model gets to see at most two cut texts and their
/// labels.
pub proof fn law_user_content_is_bounded(user_text: Seq<char>, assistant_text: Seq<char>)
    ensures
        user_content(user_text, assistant_text).len() <= 2 * MAX_INPUT_CHARS + 33,
{
    reveal_strlit("User request:\n");
    reveal_strlit("\n\nAssistant reply:\n");
}

fn unquote(t: Vec<char>) -> (v: Vec<char>)
    ensures
        v@ == unquoted(t@),
{
    let n: usize = t.len();
    if n >= 2 && ((t[0] == '"' && t[n - 1] == '"') || (t[0] == '\'' && t[n - 1] == '\'')) {
        trim_chars(&slice_chars(&t, 1, n - 1))
    } else {
        t
    }
}

fn make_title(all: Vec<Vec<char>>) -> (v: Vec<char>)
    ensures
        v@ == title_of_words(pieces_of(all@)),
{
    let ghost every = pieces_of(all@);
    let mut kept = all;
    if kept.len() > MAX_TITLE_WORDS {
        kept.truncate(MAX_TITLE_WORDS);
        assert(pieces_of(kept@) =~= every.take(MAX_TITLE_WORDS as int));
    }
    let title = join_chars(&kept, ' ');
    if title.len() > MAX_TITLE_CHARS {
        trim_chars(&clamp_chars(&title, MAX_TITLE_CHARS))
    } else {
        title
    }
}

/// A clean title from the model's raw reply: trimmed, without one layer of quotes round it,
/// without dots at its end, with single spaces, and clamped in words and characters. There
/// is none exactly if no words are left.
pub fn sanitize_title(raw: &str) -> (r: Option<String>)
    ensures
        opt_text(r) == title_of(raw@),
{
    let t = unquote(trim_chars(&chars_of(raw)));
    let all = words_of(&trim_end_chars(&t, CharSet::Dot));
    assert(pieces_of(all@).len() == all@.len());
    if all.len() == 0 {
        None
    } else {
        Some(string_of(&make_title(all)))
    }
}

/// The title in the body of a reply that has been read as JSON.
pub fn title_in(value: &serde_json::Value) -> (r: Option<String>)
    ensures
        opt_text(r) == body_title(Some(json_tree(*value))),
{
    let choices = match json_get(value, "choices") {
        Some(v) => v,
        None => {
            return None;
        },
    };
    let choice = match json_at(choices, 0) {
        Some(v) => v,
        None => {
            return None;
        },
    };
    let message = match json_get(choice, "message") {
        Some(v) => v,
        None => {
            return None;
        },
    };
    let content = match json_get(message, "content") {
        Some(v) => v,
        None => {
            return None;
        },
    };
    match content.as_str() {
        Some(text) => sanitize_title(text),
        None => None,
    }
}

/// The title in the body of a reply; none for a body that is not JSON or has no usable
/// text.
pub fn title_from_response_body(body: &str) -> (r: Option<String>)
    ensures
        opt_text(r) == body_title(json_of_text(body@)),
{
    match read_json(body) {
        Ok(value) => title_in(&value),
        Err(_) => None,
    }
}

/// A text of words with single spaces between them and nothing round them.
pub open spec fn tidy(s: Seq<char>) -> bool {
    &&& s.len() > 0
    &&& !is_white(s[0])
    &&& !is_white(s.last())
    &&& forall|i: int|
        0 <= i < s.len() && is_white(#[trigger] s[i]) ==> s[i] == ' ' && (i + 1 < s.len()
            ==> !is_white(s[i + 1]))
}

/// Words: not empty, and free of white space.
pub open spec fn all_words(parts: Seq<Seq<char>>) -> bool {
    forall|i: int| 0 <= i < parts.len() ==> #[trigger] is_word(parts[i])
}

/// A word: not empty, and free of white space.
pub open spec fn is_word(s: Seq<char>) -> bool {
    s.len() > 0 && forall|i: int| 0 <= i < s.len() ==> !is_white(#[trigger] s[i])
}

proof fn lemma_join_tidy(parts: Seq<Seq<char>>)
    requires
        parts.len() > 0,
        all_words(parts),
    ensures
        tidy(join(parts, ' ')),
    decreases parts.len(),
{
    assert(is_word(parts[parts.len() - 1]));
    let last = parts.last();
    if parts.len() > 1 {
        let init = parts.drop_last();
        assert forall|i: int| 0 <= i < init.len() implies #[trigger] is_word(init[i]) by {
            assert(is_word(parts[i]));
        }
        lemma_join_tidy(init);
        let head = join(init, ' ');
        let s = head.push(' ') + last;
        assert(s.last() == last[last.len() - 1]);
        assert(s[0] == head[0]);
        assert forall|i: int| 0 <= i < s.len() && is_white(#[trigger] s[i]) implies s[i] == ' ' && (
        i + 1 < s.len() ==> !is_white(s[i + 1])) by {
            if i < head.len() {
                assert(s[i] == head[i]);
                assert(i + 1 < head.len()) by {
                    if i == head.len() - 1 {
                        assert(head.last() == head[i]);
                    }
                }
                assert(s[i + 1] == head[i + 1]);
            } else if i > head.len() {
                assert(s[i] == last[i - head.len() - 1]);
            } else {
                assert(s[i + 1] == last[0]);
            }
        }
    }
}

proof fn lemma_words_are_words(pieces: Seq<Seq<char>>)
    requires
        forall|i: int, j: int|
            0 <= i < pieces.len() && 0 <= j < pieces[i].len() ==> !is_white(#[trigger] pieces[i][j]),
    ensures
        all_words(nonempty(pieces)),
        nonempty(pieces).len() <= pieces.len(),
    decreases pieces.len(),
{
    if pieces.len() > 0 {
        let init = pieces.drop_last();
        assert forall|i: int, j: int| 0 <= i < init.len() && 0 <= j < init[i].len() implies
            !is_white(#[trigger] init[i][j]) by {
            assert(init[i] == pieces[i]);
        }
        lemma_words_are_words(init);
        assert forall|j: int| 0 <= j < pieces.last().len() implies !is_white(
            #[trigger] pieces.last()[j],
        ) by {
            assert(!is_white(pieces[pieces.len() - 1][j]));
        }
        assert forall|i: int| 0 <= i < nonempty(pieces).len() implies #[trigger] is_word(
            nonempty(pieces)[i],
        ) by {
            if i < nonempty(init).len() {
                assert(is_word(nonempty(init)[i]));
            }
        }
    }
}

/// A shorter text has no more pieces.
proof fn lemma_split_prefix(s: Seq<char>, k: int, set: CharSet)
    requires
        0 <= k <= s.len(),
    ensures
        split(s.take(k), set).len() <= split(s, set).len(),
    decreases s.len(),
{
    if k == s.len() {
        assert(s.take(k) =~= s);
    } else {
        lemma_split_prefix(s.drop_last(), k, set);
        lemma_split_len(s.drop_last(), set);
        assert(s.drop_last().take(k) =~= s.take(k));
    }
}

/// Whatever the model replies, a title is a tidy text: it is not empty, has single spaces
/// between its words and nothing round them, at most six words and at most sixty-four
/// characters.
pub proof fn law_title_is_tidy_and_short(raw: Seq<char>)
    ensures
        title_of(raw) matches Some(title) ==> {
            &&& tidy(title)
            &&& title.len() <= MAX_TITLE_CHARS
            &&& words(title).len() <= MAX_TITLE_WORDS
        },
{
    if let Some(title) = title_of(raw) {
        let set = CharSet::White;
        let body = trim_end(unquoted(trimmed(raw)), CharSet::Dot);
        let all = reply_words(raw);
        crate::text::lemma_pieces_hold_no_separator(body, set);
        lemma_words_are_words(split(body, set));
        let kept = if all.len() > MAX_TITLE_WORDS {
            all.take(MAX_TITLE_WORDS as int)
        } else {
            all
        };
        assert forall|i: int| 0 <= i < kept.len() implies #[trigger] is_word(kept[i]) by {
            assert(is_word(all[i]));
        }
        lemma_join_tidy(kept);
        let joined = join(kept, ' ');
        assert forall|i: int, j: int| 0 <= i < kept.len() && 0 <= j < kept[i].len() implies
            !set.has(#[trigger] kept[i][j]) by {
            assert(is_word(kept[i]));
        }
        lemma_split_join(kept, ' ', set);
        if joined.len() > MAX_TITLE_CHARS {
            let cut = joined.take(MAX_TITLE_CHARS as int);
            assert(cut[0] == joined[0]);
            assert(trim_start(cut, set) == cut);
            lemma_trim_end(cut, set);
            let n = title.len() as int;
            assert(title == cut.take(n));
            if n == 0 {
                assert(set.has(cut[0]));
            }
            assert(title =~= joined.take(n));
            lemma_split_prefix(joined, n, set);
            assert(title.last() == title[n - 1]);
            assert forall|i: int| 0 <= i < title.len() && is_white(#[trigger] title[i]) implies
                title[i] == ' ' && (i + 1 < title.len() ==> !is_white(title[i + 1])) by {
                assert(title[i] == joined[i]);
                if i + 1 < title.len() {
                    assert(title[i + 1] == joined[i + 1]);
                }
            }
        }
        lemma_nonempty_len(split(title, set));
    }
}

proof fn lemma_nonempty_len(pieces: Seq<Seq<char>>)
    ensures
        nonempty(pieces).len() <= pieces.len(),
    decreases pieces.len(),
{
    if pieces.len() > 0 {
        lemma_nonempty_len(pieces.drop_last());
    }
}

} // verus!
