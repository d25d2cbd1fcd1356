//! Character-level text operations: trimming, splitting, joining and comparing.
//!
//! Strings are modelled by their sequence of characters. Executable code works on
//! character vectors and turns them into a `String` at the end.
use vstd::prelude::*;

verus! {

/// `String::push` appends one character at the end of the string.
pub assume_specification[ String::push ](s: &mut String, c: char)
    ensures
        final(s)@ == old(s)@.push(c),
;

/// Characters with the Unicode property `White_Space`.
pub open spec fn is_white(c: char) -> bool {
    let n = c as u32;
    ||| 0x09 <= n <= 0x0d
    ||| n == 0x20
    ||| n == 0x85
    ||| n == 0xa0
    ||| n == 0x1680
    ||| 0x2000 <= n <= 0x200a
    ||| n == 0x2028
    ||| n == 0x2029
    ||| n == 0x202f
    ||| n == 0x205f
    ||| n == 0x3000
}

/// Characters of the Unicode general category `Cc`.
pub open spec fn is_control(c: char) -> bool {
    let n = c as u32;
    n < 0x20 || 0x7f <= n <= 0x9f
}

/// Whether `c` has the Unicode property `White_Space`.
pub fn char_is_white(c: char) -> (b: bool)
    ensures
        b == is_white(c),
{
    let n: u32 = c as u32;
    (0x09 <= n && n <= 0x0d) || n == 0x20 || n == 0x85 || n == 0xa0 || n == 0x1680 || (0x2000 <= n
        && n <= 0x200a) || n == 0x2028 || n == 0x2029 || n == 0x202f || n == 0x205f || n == 0x3000
}

/// Whether `c` is a control character.
pub fn char_is_control(c: char) -> (b: bool)
    ensures
        b == is_control(c),
{
    let n: u32 = c as u32;
    n < 0x20 || (0x7f <= n && n <= 0x9f)
}

/// The character classes that text is trimmed by and split at.
#[derive(Clone, Copy)]
pub enum CharSet {
    /// Unicode white space.
    White,
    /// The full stop.
    Dot,
    /// The forward slash.
    Slash,
    /// The forward slash and the backslash.
    AnySlash,
}

impl CharSet {
    /// Whether `c` belongs to the class.
    pub open spec fn has(self, c: char) -> bool {
        match self {
            CharSet::White => is_white(c),
            CharSet::Dot => c == '.',
            CharSet::Slash => c == '/',
            CharSet::AnySlash => c == '/' || c == '\\',
        }
    }

    /// Whether `c` belongs to the class.
    pub fn contains(&self, c: char) -> (b: bool)
        ensures
            b == self.has(c),
    {
        match self {
            CharSet::White => char_is_white(c),
            CharSet::Dot => c == '.',
            CharSet::Slash => c == '/',
            CharSet::AnySlash => c == '/' || c == '\\',
        }
    }
}

/// `s` without its longest prefix of characters of the class.
pub open spec fn trim_start(s: Seq<char>, set: CharSet) -> Seq<char>
    decreases s.len(),
{
    if s.len() > 0 && set.has(s[0]) {
        trim_start(s.drop_first(), set)
    } else {
        s
    }
}

/// `s` without its longest suffix of characters of the class.
pub open spec fn trim_end(s: Seq<char>, set: CharSet) -> Seq<char>
    decreases s.len(),
{
    if s.len() > 0 && set.has(s.last()) {
        trim_end(s.drop_last(), set)
    } else {
        s
    }
}

/// `s` without white space at either end.
pub open spec fn trimmed(s: Seq<char>) -> Seq<char> {
    trim_end(trim_start(s, CharSet::White), CharSet::White)
}

/// The pieces of `s` between characters of the class, empty pieces kept: one more
/// piece than `s` has characters of the class.
pub open spec fn split(s: Seq<char>, set: CharSet) -> Seq<Seq<char>>
    decreases s.len(),
{
    if s.len() == 0 {
        seq![Seq::empty()]
    } else {
        let head = split(s.drop_last(), set);
        if set.has(s.last()) {
            head.push(Seq::empty())
        } else {
            head.drop_last().push(head.last().push(s.last()))
        }
    }
}

/// The pieces that are not empty.
pub open spec fn nonempty(pieces: Seq<Seq<char>>) -> Seq<Seq<char>>
    decreases pieces.len(),
{
    if pieces.len() == 0 {
        Seq::empty()
    } else {
        let head = nonempty(pieces.drop_last());
        if pieces.last().len() > 0 {
            head.push(pieces.last())
        } else {
            head
        }
    }
}

/// The maximal runs of `s` that hold no white space.
pub open spec fn words(s: Seq<char>) -> Seq<Seq<char>> {
    nonempty(split(s, CharSet::White))
}

/// The parts one after the other with `sep` between neighbours.
pub open spec fn join(parts: Seq<Seq<char>>, sep: char) -> Seq<char>
    decreases parts.len(),
{
    if parts.len() == 0 {
        Seq::empty()
    } else if parts.len() == 1 {
        parts[0]
    } else {
        join(parts.drop_last(), sep).push(sep) + parts.last()
    }
}

/// The first `max` characters of `s`, or all of them where there are fewer.
pub open spec fn clamp(s: Seq<char>, max: nat) -> Seq<char> {
    if s.len() <= max {
        s
    } else {
        s.take(max as int)
    }
}

/// The character sequences that a vector of character vectors holds.
pub open spec fn pieces_of(v: Seq<Vec<char>>) -> Seq<Seq<char>> {
    v.map_values(|p: Vec<char>| p@)
}

/// What an optional string holds.
pub open spec fn opt_text(s: Option<String>) -> Option<Seq<char>> {
    match s {
        Some(t) => Some(t@),
        None => None,
    }
}

/// What an optional string slice holds.
pub open spec fn opt_str(s: Option<&str>) -> Option<Seq<char>> {
    match s {
        Some(t) => Some(t@),
        None => None,
    }
}

/// The characters of `s`.
pub fn chars_of(s: &str) -> (v: Vec<char>)
    ensures
        v@ == s@,
{
    let mut v: Vec<char> = Vec::new();
    for c in it: s.chars()
        invariant
            v@ == it.seq().take(it.index()),
            it.seq() == s@,
    {
        v.push(c);
    }
    v
}

/// The string made of the given characters.
pub fn string_of(chars: &Vec<char>) -> (s: String)
    ensures
        s@ == chars@,
{
    let mut s = String::new();
    let mut i: usize = 0;
    while i < chars.len()
        invariant
            i <= chars.len(),
            s@ == chars@.take(i as int),
        decreases chars.len() - i,
    {
        s.push(chars[i]);
        i += 1;
    }
    s
}

/// The characters at the positions from `from` up to, not including, `to`.
pub fn slice_chars(chars: &Vec<char>, from: usize, to: usize) -> (v: Vec<char>)
    requires
        from <= to <= chars.len(),
    ensures
        v@ == chars@.subrange(from as int, to as int),
{
    let mut v: Vec<char> = Vec::new();
    let mut i: usize = from;
    while i < to
        invariant
            from <= i <= to <= chars.len(),
            v@ == chars@.subrange(from as int, i as int),
        decreases to - i,
    {
        v.push(chars[i]);
        i += 1;
    }
    v
}

/// Appends the characters of `more`.
pub fn append_chars(out: &mut Vec<char>, more: &Vec<char>)
    ensures
        final(out)@ == old(out)@ + more@,
{
    let mut i: usize = 0;
    while i < more.len()
        invariant
            i <= more.len(),
            out@ == old(out)@ + more@.take(i as int),
        decreases more.len() - i,
    {
        out.push(more[i]);
        i += 1;
    }
}

/// Whether two character vectors hold the same text.
pub fn same_chars(a: &Vec<char>, b: &Vec<char>) -> (r: bool)
    ensures
        r == (a@ == b@),
{
    if a.len() != b.len() {
        return false;
    }
    let mut i: usize = 0;
    while i < a.len()
        invariant
            i <= a.len(),
            a.len() == b.len(),
            a@.take(i as int) == b@.take(i as int),
        decreases a.len() - i,
    {
        if a[i] != b[i] {
            assert(a@[i as int] != b@[i as int]);
            return false;
        }
        assert(a@.take(i + 1) == a@.take(i as int).push(a@[i as int]));
        assert(b@.take(i + 1) == b@.take(i as int).push(b@[i as int]));
        i += 1;
    }
    assert(a@.take(i as int) == a@);
    assert(b@.take(i as int) == b@);
    true
}

/// Whether two strings hold the same text.
pub fn same_text(a: &str, b: &str) -> (r: bool)
    ensures
        r == (a@ == b@),
{
    same_chars(&chars_of(a), &chars_of(b))
}

/// The text without its leading characters of the class.
pub fn trim_start_chars(chars: &Vec<char>, set: CharSet) -> (v: Vec<char>)
    ensures
        v@ == trim_start(chars@, set),
{
    let mut i: usize = 0;
    assert(chars@.skip(0) == chars@);
    while i < chars.len() && set.contains(chars[i])
        invariant
            i <= chars.len(),
            trim_start(chars@, set) == trim_start(chars@.skip(i as int), set),
        decreases chars.len() - i,
    {
        assert(chars@.skip(i as int).drop_first() == chars@.skip(i + 1));
        i += 1;
    }
    assert(chars@.skip(i as int) == chars@.subrange(i as int, chars@.len() as int));
    slice_chars(chars, i, chars.len())
}

/// The text without its trailing characters of the class.
pub fn trim_end_chars(chars: &Vec<char>, set: CharSet) -> (v: Vec<char>)
    ensures
        v@ == trim_end(chars@, set),
{
    let mut n: usize = chars.len();
    assert(chars@.take(n as int) == chars@);
    while n > 0 && set.contains(chars[n - 1])
        invariant
            n <= chars.len(),
            trim_end(chars@, set) == trim_end(chars@.take(n as int), set),
        decreases n,
    {
        assert(chars@.take(n as int).drop_last() == chars@.take(n - 1));
        n -= 1;
    }
    assert(chars@.take(n as int) == chars@.subrange(0, n as int));
    slice_chars(chars, 0, n)
}

/// The text without white space at either end.
pub fn trim_chars(chars: &Vec<char>) -> (v: Vec<char>)
    ensures
        v@ == trimmed(chars@),
{
    trim_end_chars(&trim_start_chars(chars, CharSet::White), CharSet::White)
}

/// The first `max` characters of the text, or all of them.
pub fn clamp_chars(chars: &Vec<char>, max: usize) -> (v: Vec<char>)
    ensures
        v@ == clamp(chars@, max as nat),
{
    let n: usize = if chars.len() <= max {
        chars.len()
    } else {
        max
    };
    let v = slice_chars(chars, 0, n);
    assert(chars@.take(chars@.len() as int) == chars@);
    v
}

pub proof fn lemma_split_len(s: Seq<char>, set: CharSet)
    ensures
        split(s, set).len() >= 1,
    decreases s.len(),
{
    if s.len() > 0 {
        lemma_split_len(s.drop_last(), set);
    }
}

/// Pushing onto a vector of pieces pushes onto the pieces it holds.
pub proof fn lemma_pieces_push(v: Seq<Vec<char>>, p: Vec<char>)
    ensures
        pieces_of(v.push(p)) == pieces_of(v).push(p@),
{
    assert(pieces_of(v.push(p)) =~= pieces_of(v).push(p@));
}

/// The pieces of the text between characters of the class.
pub fn split_chars(chars: &Vec<char>, set: CharSet) -> (v: Vec<Vec<char>>)
    ensures
        pieces_of(v@) == split(chars@, set),
{
    let mut done: Vec<Vec<char>> = Vec::new();
    let mut cur: Vec<char> = Vec::new();
    let mut i: usize = 0;
    assert(pieces_of(done@).push(cur@) =~= seq![Seq::<char>::empty()]);
    while i < chars.len()
        invariant
            i <= chars.len(),
            pieces_of(done@).push(cur@) == split(chars@.take(i as int), set),
        decreases chars.len() - i,
    {
        let c = chars[i];
        assert(chars@.take(i + 1).drop_last() == chars@.take(i as int));
        let ghost before = pieces_of(done@).push(cur@);
        if set.contains(c) {
            proof {
                lemma_pieces_push(done@, cur);
            }
            done.push(cur);
            cur = Vec::new();
            assert(cur@ =~= Seq::<char>::empty());
        } else {
            assert(before.drop_last() =~= pieces_of(done@));
            cur.push(c);
        }
        i += 1;
    }
    assert(chars@.take(i as int) == chars@);
    proof {
        lemma_pieces_push(done@, cur);
    }
    done.push(cur);
    done
}

/// The maximal runs of the text that hold no white space.
pub fn words_of(chars: &Vec<char>) -> (v: Vec<Vec<char>>)
    ensures
        pieces_of(v@) == words(chars@),
{
    let pieces = split_chars(chars, CharSet::White);
    let mut v: Vec<Vec<char>> = Vec::new();
    let mut i: usize = 0;
    assert(pieces_of(v@) =~= Seq::empty());
    while i < pieces.len()
        invariant
            i <= pieces.len(),
            pieces_of(v@) == nonempty(pieces_of(pieces@).take(i as int)),
        decreases pieces.len() - i,
    {
        let ghost all = pieces_of(pieces@);
        assert(all.take(i + 1).drop_last() == all.take(i as int));
        if pieces[i].len() > 0 {
            let p = slice_chars(&pieces[i], 0, pieces[i].len());
            assert(p@ =~= all[i as int]);
            proof {
                lemma_pieces_push(v@, p);
            }
            v.push(p);
        }
        i += 1;
    }
    assert(pieces_of(pieces@).take(i as int) == pieces_of(pieces@));
    v
}

/// The parts one after the other with `sep` between neighbours.
pub fn join_chars(parts: &Vec<Vec<char>>, sep: char) -> (v: Vec<char>)
    ensures
        v@ == join(pieces_of(parts@), sep),
{
    let mut v: Vec<char> = Vec::new();
    let mut i: usize = 0;
    let ghost all = pieces_of(parts@);
    while i < parts.len()
        invariant
            i <= parts.len(),
            all == pieces_of(parts@),
            v@ == join(all.take(i as int), sep),
        decreases parts.len() - i,
    {
        assert(all.take(i + 1).drop_last() == all.take(i as int));
        assert(all.take(i + 1).last() == parts@[i as int]@);
        if i > 0 {
            v.push(sep);
        }
        append_chars(&mut v, &parts[i]);
        assert(i == 0 ==> v@ =~= parts@[0]@);
        i += 1;
    }
    assert(all.take(i as int) == all);
    v
}

/// Trimming at the end keeps a prefix, which does not end in the class.
pub proof fn lemma_trim_end(s: Seq<char>, set: CharSet)
    ensures
        trim_end(s, set).len() <= s.len(),
        trim_end(s, set) == s.take(trim_end(s, set).len() as int),
        trim_end(s, set).len() > 0 ==> !set.has(trim_end(s, set).last()),
        forall|i: int| trim_end(s, set).len() <= i < s.len() ==> set.has(#[trigger] s[i]),
    decreases s.len(),
{
    if s.len() > 0 && set.has(s.last()) {
        lemma_trim_end(s.drop_last(), set);
        let n = trim_end(s, set).len() as int;
        assert(s.drop_last().take(n) == s.take(n));
        assert forall|i: int| n <= i < s.len() implies set.has(#[trigger] s[i]) by {
            if i < s.len() - 1 {
                assert(s.drop_last()[i] == s[i]);
            }
        }
    } else {
        assert(s.take(s.len() as int) == s);
    }
}

/// Trimming at the start keeps a suffix, which does not begin with the class.
pub proof fn lemma_trim_start(s: Seq<char>, set: CharSet)
    ensures
        trim_start(s, set).len() <= s.len(),
        trim_start(s, set) == s.skip(s.len() - trim_start(s, set).len()),
        trim_start(s, set).len() > 0 ==> !set.has(trim_start(s, set)[0]),
    decreases s.len(),
{
    if s.len() > 0 && set.has(s[0]) {
        lemma_trim_start(s.drop_first(), set);
        let n = trim_start(s, set).len() as int;
        assert(s.drop_first().skip(s.len() - 1 - n) == s.skip(s.len() - n));
    } else {
        assert(s.skip(0) == s);
    }
}

/// Text without white space at either end does not begin or end with any, and its
/// characters are characters of the whole text.
pub proof fn lemma_trimmed(s: Seq<char>)
    ensures
        trimmed(s).len() <= s.len(),
        trimmed(s).len() > 0 ==> !is_white(trimmed(s)[0]) && !is_white(trimmed(s).last()),
        exists|a: int, b: int| 0 <= a <= b <= s.len() && trimmed(s) == #[trigger] s.subrange(a, b),
{
    let t = trim_start(s, CharSet::White);
    lemma_trim_start(s, CharSet::White);
    lemma_trim_end(t, CharSet::White);
    let a = s.len() - t.len();
    let b = a + trimmed(s).len();
    assert(trimmed(s) =~= s.subrange(a, b));
}

/// Splitting at a separator that stands between two texts splits each of them.
pub proof fn lemma_split_concat(a: Seq<char>, sep: char, b: Seq<char>, set: CharSet)
    requires
        set.has(sep),
    ensures
        split(a.push(sep) + b, set) == split(a, set) + split(b, set),
    decreases b.len(),
{
    let whole = a.push(sep) + b;
    if b.len() == 0 {
        assert(whole =~= a.push(sep));
        assert(whole.drop_last() =~= a);
        assert(split(whole, set) =~= split(a, set) + split(b, set));
    } else {
        lemma_split_concat(a, sep, b.drop_last(), set);
        lemma_split_len(b.drop_last(), set);
        assert(whole.drop_last() =~= a.push(sep) + b.drop_last());
        assert(whole.last() == b.last());
        let head = split(a, set) + split(b.drop_last(), set);
        assert(head.last() == split(b.drop_last(), set).last());
        assert(head.drop_last() =~= split(a, set) + split(b.drop_last(), set).drop_last());
        assert(split(whole, set) =~= split(a, set) + split(b, set));
    }
}

/// Text without a separator is its own only piece.
pub proof fn lemma_split_single(s: Seq<char>, set: CharSet)
    requires
        forall|i: int| 0 <= i < s.len() ==> !set.has(#[trigger] s[i]),
    ensures
        split(s, set) == seq![s],
    decreases s.len(),
{
    if s.len() == 0 {
        assert(s =~= Seq::empty());
    } else {
        assert forall|i: int| 0 <= i < s.drop_last().len() implies !set.has(
            #[trigger] s.drop_last()[i],
        ) by {
            assert(s.drop_last()[i] == s[i]);
        }
        lemma_split_single(s.drop_last(), set);
        assert(!set.has(s[s.len() - 1]));
        assert(s.drop_last().push(s.last()) =~= s);
        assert(split(s, set) =~= seq![s]);
    }
}

/// Splitting what was joined gives the parts back, where no part holds a separator.
pub proof fn lemma_split_join(parts: Seq<Seq<char>>, sep: char, set: CharSet)
    requires
        parts.len() > 0,
        set.has(sep),
        forall|i: int, j: int|
            0 <= i < parts.len() && 0 <= j < parts[i].len() ==> !set.has(#[trigger] parts[i][j]),
    ensures
        split(join(parts, sep), set) == parts,
    decreases parts.len(),
{
    lemma_split_single(parts.last(), set);
    if parts.len() == 1 {
        assert(parts =~= seq![parts.last()]);
    } else {
        let head = parts.drop_last();
        assert forall|i: int, j: int|
            0 <= i < head.len() && 0 <= j < head[i].len() implies !set.has(
            #[trigger] head[i][j],
        ) by {
            assert(head[i] == parts[i]);
        }
        lemma_split_join(head, sep, set);
        lemma_split_concat(join(head, sep), sep, parts.last(), set);
        assert(head + seq![parts.last()] =~= parts);
    }
}

/// Joining two lists of parts joins each and puts the separator between.
pub proof fn lemma_join_concat(a: Seq<Seq<char>>, b: Seq<Seq<char>>, sep: char)
    requires
        a.len() > 0,
        b.len() > 0,
    ensures
        join(a + b, sep) == join(a, sep).push(sep) + join(b, sep),
    decreases b.len(),
{
    assert((a + b).last() == b.last());
    if b.len() == 1 {
        assert((a + b).drop_last() =~= a);
    } else {
        lemma_join_concat(a, b.drop_last(), sep);
        assert((a + b).drop_last() =~= a + b.drop_last());
        assert(join(a + b, sep) =~= join(a, sep).push(sep) + join(b, sep));
    }
}

/// The pieces hold no separator.
pub proof fn lemma_pieces_hold_no_separator(s: Seq<char>, set: CharSet)
    ensures
        forall|i: int, j: int|
            0 <= i < split(s, set).len() && 0 <= j < split(s, set)[i].len() ==> !set.has(
                #[trigger] split(s, set)[i][j],
            ),
    decreases s.len(),
{
    if s.len() > 0 {
        let head = split(s.drop_last(), set);
        let all = split(s, set);
        lemma_pieces_hold_no_separator(s.drop_last(), set);
        lemma_split_len(s.drop_last(), set);
        assert forall|i: int, j: int| 0 <= i < all.len() && 0 <= j < all[i].len() implies !set.has(
            #[trigger] all[i][j],
        ) by {
            if i < head.len() - 1 || set.has(s.last()) {
                if i < head.len() {
                    assert(all[i] == head[i]);
                    assert(!set.has(head[i][j]));
                }
            } else if j < head[i].len() {
                assert(all[i] == head.last().push(s.last()));
                assert(all[i][j] == head[i][j]);
                assert(!set.has(head[i][j]));
            }
        }
    }
}

} // verus!
