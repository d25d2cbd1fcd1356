//! Response headers of a download.
use vstd::prelude::*;
use vstd::utf8::{encode_utf8, is_ascii_chars, is_ascii_chars_encode_utf8};
use crate::outside::{header_byte, header_value, hex_upper, percent_byte, percent_encode, percent_encoded};
use crate::number::{decimal, is_digit, lemma_decimal_digits, write_u64};
use crate::text::{append_chars, char_is_control, chars_of, is_control, string_of};

verus! {

/// `c` as it may stand in a quoted file name: ASCII stays, but for control characters, the
/// quote and the backslash; all else becomes `_`.
pub open spec fn header_safe_char(c: char) -> char {
    if is_control(c) || c == '"' || c == '\\' || c as u32 >= 0x80 {
        '_'
    } else {
        c
    }
}

/// `name` as it may stand in a quoted file name.
pub open spec fn header_safe(name: Seq<char>) -> Seq<char> {
    name.map_values(|c: char| header_safe_char(c))
}

/// The content disposition of a download called `name`: the name in plain ASCII for old
/// clients, then percent-encoded in full.
pub open spec fn attachment_text(name: Seq<char>) -> Seq<char> {
    "attachment; filename=\""@ + header_safe(name) + "\"; filename*=UTF-8''"@ + percent_encoded(
        encode_utf8(name),
    )
}

/// A printable ASCII character.
pub open spec fn printable(c: char) -> bool {
    ' ' <= c && c <= '~'
}

/// `name` with `_` for each character that may not stand in a quoted file name.
pub fn header_safe_filename(name: &str) -> (s: String)
    ensures
        s@ == header_safe(name@),
{
    let chars = chars_of(name);
    let mut out: Vec<char> = Vec::new();
    let mut i: usize = 0;
    while i < chars.len()
        invariant
            i <= chars.len(),
            out@ == header_safe(chars@.take(i as int)),
        decreases chars.len() - i,
    {
        let c = chars[i];
        assert(chars@.take(i + 1) =~= chars@.take(i as int).push(c));
        let safe = if char_is_control(c) || c == '"' || c == '\\' || c as u32 >= 0x80 {
            '_'
        } else {
            c
        };
        out.push(safe);
        assert(out@ =~= header_safe(chars@.take(i + 1)));
        i += 1;
    }
    assert(chars@.take(i as int) == chars@);
    string_of(&out)
}

proof fn lemma_percent_printable(bytes: Seq<u8>)
    ensures
        forall|i: int| 0 <= i < percent_encoded(bytes).len() ==> printable(
            #[trigger] percent_encoded(bytes)[i],
        ),
    decreases bytes.len(),
{
    if bytes.len() > 0 {
        lemma_percent_printable(bytes.drop_last());
        let head = percent_encoded(bytes.drop_last());
        let b = bytes.last();
        let tail = percent_byte(b);
        assert forall|i: int| 0 <= i < tail.len() implies printable(#[trigger] tail[i]) by {
            let hi = b as int / 16;
            let lo = b as int % 16;
            assert(0 <= hi < 16 && 0 <= lo < 16);
            assert(printable(hex_upper(hi)) && printable(hex_upper(lo)));
        }
        assert forall|i: int| 0 <= i < percent_encoded(bytes).len() implies printable(
            #[trigger] percent_encoded(bytes)[i],
        ) by {
            if i < head.len() {
                assert(percent_encoded(bytes)[i] == head[i]);
            } else {
                assert(percent_encoded(bytes)[i] == tail[i - head.len()]);
            }
        }
    }
}

/// Whatever the name, the content disposition holds printable ASCII only, so it can always
/// be sent.
pub proof fn law_attachment_text_is_printable(name: Seq<char>)
    ensures
        forall|i: int| 0 <= i < attachment_text(name).len() ==> printable(
            #[trigger] attachment_text(name)[i],
        ),
        forall|i: int| 0 <= i < encode_utf8(attachment_text(name)).len() ==> header_byte(
            #[trigger] encode_utf8(attachment_text(name))[i],
        ),
{
    let a = "attachment; filename=\""@;
    let b = header_safe(name);
    let c = "\"; filename*=UTF-8''"@;
    let d = percent_encoded(encode_utf8(name));
    let text = attachment_text(name);
    reveal_strlit("attachment; filename=\"");
    reveal_strlit("\"; filename*=UTF-8''");
    lemma_percent_printable(encode_utf8(name));
    assert forall|i: int| 0 <= i < text.len() implies printable(#[trigger] text[i]) by {
        if i < a.len() {
            assert(text[i] == a[i]);
        } else if i < a.len() + b.len() {
            assert(text[i] == b[i - a.len()]);
        } else if i < a.len() + b.len() + c.len() {
            assert(text[i] == c[i - a.len() - b.len()]);
        } else {
            assert(text[i] == d[i - a.len() - b.len() - c.len()]);
        }
    }
    assert(is_ascii_chars(text));
    is_ascii_chars_encode_utf8(text);
    assert forall|i: int| 0 <= i < encode_utf8(text).len() implies header_byte(
        #[trigger] encode_utf8(text)[i],
    ) by {
        assert(printable(text[i]));
        assert(encode_utf8(text)[i] == text[i] as u8);
    }
}

/// The bytes of the content disposition header of a download called `name`.
pub fn attachment_header(name: &str) -> (r: Option<Vec<u8>>)
    ensures
        r matches Some(bytes) && bytes@ == encode_utf8(attachment_text(name@)),
{
    let mut out = chars_of("attachment; filename=\"");
    append_chars(&mut out, &chars_of(header_safe_filename(name).as_str()));
    append_chars(&mut out, &chars_of("\"; filename*=UTF-8''"));
    append_chars(&mut out, &chars_of(percent_encode(name).as_str()));
    proof {
        law_attachment_text_is_printable(name@);
    }
    assert(out@ =~= attachment_text(name@));
    header_value(string_of(&out).as_str())
}

/// The bytes of the content length header of a download of `size` bytes.
pub fn content_length_header(size: u64) -> (r: Option<Vec<u8>>)
    ensures
        r matches Some(bytes) && bytes@ == encode_utf8(decimal(size as nat)),
{
    let digits = write_u64(size);
    let ghost text = decimal(size as nat);
    proof {
        lemma_decimal_digits(size as nat);
        assert forall|i: int| 0 <= i < text.len() implies printable(#[trigger] text[i]) by {
            assert(is_digit(text[i]));
        }
        assert(is_ascii_chars(text));
        is_ascii_chars_encode_utf8(text);
        assert forall|i: int| 0 <= i < encode_utf8(text).len() implies header_byte(
            #[trigger] encode_utf8(text)[i],
        ) by {
            assert(printable(text[i]));
            assert(encode_utf8(text)[i] == text[i] as u8);
        }
    }
    header_value(string_of(&digits).as_str())
}

/// The plain name keeps every printable ASCII character in its place but the quote and the
/// backslash, and has `_` in the place of any other character.
pub proof fn law_plain_header_name_keeps_printable_characters(name: Seq<char>)
    ensures
        header_safe(name).len() == name.len(),
        forall|i: int|
            0 <= i < name.len() && 0x20 <= (name[i] as u32) <= 0x7e && name[i] != '"' && name[i]
                != '\\' ==> #[trigger] header_safe(name)[i] == name[i],
        forall|i: int|
            0 <= i < name.len() && !(0x20 <= (name[i] as u32) <= 0x7e && name[i] != '"' && name[i]
                != '\\') ==> #[trigger] header_safe(name)[i] == '_',
        (forall|i: int|
            0 <= i < name.len() ==> 0x20 <= (#[trigger] name[i] as u32) <= 0x7e && name[i] != '"'
                && name[i] != '\\') ==> header_safe(name) == name,
{
    if forall|i: int|
        0 <= i < name.len() ==> 0x20 <= (#[trigger] name[i] as u32) <= 0x7e && name[i] != '"'
            && name[i] != '\\' {
        assert forall|i: int| 0 <= i < name.len() implies #[trigger] header_safe(name)[i]
            == name[i] by {
            assert(0x20 <= (name[i] as u32) <= 0x7e);
        }
        assert(header_safe(name) =~= name);
    }
}

/// The content disposition is an attachment that gives the name twice: between quotes as it may
/// stand there, and in full behind the mark of its encoding.
pub proof fn law_attachment_gives_the_name_twice(name: Seq<char>)
    ensures
        ({
            let plain = header_safe(name);
            let full = percent_encoded(encode_utf8(name));
            let text = attachment_text(name);
            &&& text.len() == 22 + plain.len() + 20 + full.len()
            &&& text.subrange(0, 22) == "attachment; filename=\""@
            &&& text.subrange(22, 22 + plain.len() as int) == plain
            &&& text.subrange(22 + plain.len() as int, 42 + plain.len() as int)
                == "\"; filename*=UTF-8''"@
            &&& text.subrange(42 + plain.len() as int, text.len() as int) == full
            &&& !plain.contains('"')
        }),
{
    reveal_strlit("attachment; filename=\"");
    reveal_strlit("\"; filename*=UTF-8''");
    let plain = header_safe(name);
    let full = percent_encoded(encode_utf8(name));
    let text = attachment_text(name);
    assert("attachment; filename=\""@.len() == 22);
    assert("\"; filename*=UTF-8''"@.len() == 20);
    assert(text.subrange(0, 22) =~= "attachment; filename=\""@);
    assert(text.subrange(22, 22 + plain.len() as int) =~= plain);
    assert(text.subrange(22 + plain.len() as int, 42 + plain.len() as int)
        =~= "\"; filename*=UTF-8''"@);
    assert(text.subrange(42 + plain.len() as int, text.len() as int) =~= full);
}

/// Percent-encoding goes byte by byte: letters, digits and `-`, `_`, `.`, `~` stay, and any other
/// byte becomes `%` and two digits that denote it, the higher one first.
pub proof fn law_bytes_are_percent_encoded_alone(a: Seq<u8>, b: Seq<u8>, c: u8)
    ensures
        percent_encoded(a + b) == percent_encoded(a) + percent_encoded(b),
        percent_encoded(seq![c]) == percent_byte(c),
        percent_byte(c).len() == 1 || percent_byte(c).len() == 3,
        percent_byte(c).len() == 1 ==> percent_byte(c)[0] as u32 == c && c < 0x80,
        percent_byte(c).len() == 3 ==> percent_byte(c)[0] == '%' && hex_value(percent_byte(c)[1])
            * 16 + hex_value(percent_byte(c)[2]) == c,
        (0x30 <= c <= 0x39) || (0x41 <= c <= 0x5a) || (0x61 <= c <= 0x7a) || c == 0x2d || c == 0x5f
            || c == 0x2e || c == 0x7e <==> percent_byte(c).len() == 1,
    decreases b.len(),
{
    assert(seq![c].drop_last() =~= Seq::empty());
    assert(percent_encoded(seq![c].drop_last()) =~= Seq::<char>::empty());
    assert(percent_encoded(seq![c]) =~= percent_byte(c));
    let hi = c as int / 16;
    let lo = c as int % 16;
    assert(0 <= hi < 16 && 0 <= lo < 16 && hi * 16 + lo == c);
    assert(hex_value(hex_upper(hi)) == hi && hex_value(hex_upper(lo)) == lo);
    if b.len() == 0 {
        assert(a + b =~= a);
        assert(percent_encoded(a) + percent_encoded(b) =~= percent_encoded(a));
    } else {
        law_bytes_are_percent_encoded_alone(a, b.drop_last(), c);
        assert((a + b).drop_last() =~= a + b.drop_last());
        assert((a + b).last() == b.last());
        assert(percent_encoded(a + b) =~= percent_encoded(a) + percent_encoded(b));
    }
}

/// What an upper-case hexadecimal digit denotes.
pub open spec fn hex_value(c: char) -> int {
    if '0' <= c && c <= '9' {
        c as u32 - 0x30
    } else {
        c as u32 - 0x37
    }
}

} // verus!
