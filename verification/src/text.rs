//! Strings as sequences of characters: searching, splitting, trimming, joining.
use vstd::prelude::*;
use vstd::string::*;
use vstd::utf8::*;

verus! {

/// `String::push` appends one character at the end.
pub assume_specification[ String::push ](s: &mut String, c: char)
    ensures
        final(s)@ == old(s)@.push(c),
;

/// The characters of a string, in order.
pub fn chars_of(s: &str) -> (r: Vec<char>)
    ensures
        r@ == s@,
{
    let mut out: Vec<char> = Vec::new();
    for c in iter: s.chars()
        invariant
            iter.seq() == s@,
            out@ == s@.take(iter.index()),
    {
        out.push(c);
        assert(s@.take(iter.index() + 1) == s@.take(iter.index()).push(c));
    }
    assert(s@.take(s@.len() as int) == s@);
    out
}

/// The string that consists of the given characters.
pub fn text_of(chars: &Vec<char>) -> (r: String)
    ensures
        r@ == chars@,
{
    let mut out = String::new();
    for i in 0..chars.len()
        invariant
            out@ == chars@.take(i as int),
    {
        out.push(chars[i]);
        assert(chars@.take(i + 1) == chars@.take(i as int).push(chars@[i as int]));
    }
    assert(chars@.take(chars@.len() as int) == chars@);
    out
}

/// Whether two strings hold the same characters.
pub fn same(a: &str, b: &str) -> (r: bool)
    ensures
        r == (a@ == b@),
{
    let x = a.as_bytes();
    let y = b.as_bytes();
    proof {
        encode_utf8_decode_utf8(a@);
        encode_utf8_decode_utf8(b@);
    }
    if x.len() != y.len() {
        return false;
    }
    for i in 0..x.len()
        invariant
            x@ == encode_utf8(a@),
            y@ == encode_utf8(b@),
            x@.len() == y@.len(),
            forall|j: int| 0 <= j < i ==> x@[j] == y@[j],
    {
        if x[i] != y[i] {
            return false;
        }
    }
    assert(x@ == y@);
    true
}

/// The contents of a list of strings.
pub open spec fn texts(list: Seq<String>) -> Seq<Seq<char>> {
    list.map_values(|s: String| s@)
}

/// The contents of a list of character vectors.
pub open spec fn rows(list: Seq<Vec<char>>) -> Seq<Seq<char>> {
    list.map_values(|s: Vec<char>| s@)
}

/// The contents of a list of string pairs.
pub open spec fn pairs(list: Seq<(String, String)>) -> Seq<(Seq<char>, Seq<char>)> {
    list.map_values(|p: (String, String)| (p.0@, p.1@))
}

/// `needle` stands in `text` at position `i`.
pub open spec fn occurs_at(text: Seq<char>, needle: Seq<char>, i: int) -> bool {
    &&& 0 <= i
    &&& i + needle.len() <= text.len()
    &&& text.subrange(i, i + needle.len()) == needle
}

/// `needle` stands somewhere in `text`.
pub open spec fn has_substring(text: Seq<char>, needle: Seq<char>) -> bool {
    exists|i: int| occurs_at(text, needle, i)
}

/// Whether `needle` stands in `text` at position `at`.
pub fn stands_at(text: &Vec<char>, needle: &Vec<char>, at: usize) -> (r: bool)
    ensures
        r == occurs_at(text@, needle@, at as int),
{
    if at > text.len() || needle.len() > text.len() - at {
        return false;
    }
    for i in 0..needle.len()
        invariant
            at + needle@.len() <= text@.len() <= usize::MAX,
            text@.len() == text.len(),
            forall|j: int| 0 <= j < i ==> text@[at + j] == needle@[j],
    {
        if text[at + i] != needle[i] {
            assert(text@.subrange(at as int, at + needle@.len())[i as int] == text@[at + i]);
            return false;
        }
    }
    assert(text@.subrange(at as int, at + needle@.len()) == needle@);
    true
}

/// The first position from `from` on at which `needle` stands in `text`.
pub fn find_from(text: &Vec<char>, needle: &Vec<char>, from: usize) -> (r: Option<usize>)
    ensures
        match r {
            Some(i) => from <= i && occurs_at(text@, needle@, i as int) && forall|j: int|
                from <= j < i ==> !occurs_at(text@, needle@, j),
            None => forall|j: int| from <= j ==> !occurs_at(text@, needle@, j),
        },
{
    let mut i: usize = from;
    while i <= text.len() && needle.len() <= text.len() - i
        invariant
            from <= i,
            forall|j: int| from <= j < i ==> !occurs_at(text@, needle@, j),
        decreases text@.len() + 1 - i,
    {
        if stands_at(text, needle, i) {
            return Some(i);
        }
        if i == text.len() {
            return None;
        }
        i = i + 1;
    }
    None
}

/// Whether `needle` stands somewhere in `text`.
pub fn contains(text: &str, needle: &str) -> (r: bool)
    ensures
        r == has_substring(text@, needle@),
{
    let t = chars_of(text);
    let n = chars_of(needle);
    find_from(&t, &n, 0).is_some()
}

/// The pieces of `s` between the characters in `seps`. There is one piece more
/// than there are separators, and a piece may be empty.
pub open spec fn pieces(s: Seq<char>, seps: Seq<char>) -> Seq<Seq<char>>
    decreases s.len(),
{
    if s.len() == 0 {
        seq![Seq::<char>::empty()]
    } else {
        let before = pieces(s.drop_last(), seps);
        if seps.contains(s.last()) {
            before.push(Seq::<char>::empty())
        } else {
            before.drop_last().push(before.last().push(s.last()))
        }
    }
}

/// Whether the character is one of `seps`.
pub fn is_one_of(c: char, seps: &Vec<char>) -> (r: bool)
    ensures
        r == seps@.contains(c),
{
    for i in 0..seps.len()
        invariant
            forall|j: int| 0 <= j < i ==> seps@[j] != c,
    {
        if seps[i] == c {
            return true;
        }
    }
    false
}

/// The pieces of `s` between the characters in `seps`, as character vectors.
pub fn split_chars(s: &Vec<char>, seps: &Vec<char>) -> (r: Vec<Vec<char>>)
    ensures
        rows(r@) == pieces(s@, seps@),
{
    let mut done: Vec<Vec<char>> = Vec::new();
    let mut current: Vec<char> = Vec::new();
    assert(s@.take(0) == Seq::<char>::empty());
    assert(rows(done@).push(current@) == seq![Seq::<char>::empty()]);
    for i in 0..s.len()
        invariant
            rows(done@).push(current@) == pieces(s@.take(i as int), seps@),
    {
        let ghost before = rows(done@).push(current@);
        let ghost open = current@;
        let ghost closed = rows(done@);
        assert(s@.take(i + 1).drop_last() == s@.take(i as int));
        assert(s@.take(i + 1).last() == s@[i as int]);
        assert(before.last() == open);
        assert(before.drop_last() == closed);
        if is_one_of(s[i], seps) {
            done.push(current);
            current = Vec::new();
            assert(rows(done@) == closed.push(open));
            assert(current@ == Seq::<char>::empty());
        } else {
            current.push(s[i]);
        }
    }
    assert(s@.take(s@.len() as int) == s@);
    let ghost closed = rows(done@);
    let ghost open = current@;
    done.push(current);
    assert(rows(done@) == closed.push(open));
    done
}

/// The pieces of `s` between the characters in `seps`.
pub fn split(s: &str, seps: &Vec<char>) -> (r: Vec<String>)
    ensures
        texts(r@) == pieces(s@, seps@),
{
    let chars = chars_of(s);
    let parts = split_chars(&chars, seps);
    let mut out: Vec<String> = Vec::new();
    for i in 0..parts.len()
        invariant
            texts(out@) == rows(parts@).take(i as int),
    {
        let piece = text_of(&parts[i]);
        let ghost before = texts(out@);
        out.push(piece);
        assert(rows(parts@).take(i + 1) == rows(parts@).take(i as int).push(
            rows(parts@)[i as int],
        ));
        assert(texts(out@) == before.push(piece@));
    }
    assert(rows(parts@).take(parts@.len() as int) == rows(parts@));
    out
}

/// The characters with the Unicode property `White_Space`.
pub open spec fn is_white(c: char) -> bool {
    ||| '\u{9}' <= c <= '\u{d}'
    ||| c == ' '
    ||| c == '\u{85}'
    ||| c == '\u{a0}'
    ||| c == '\u{1680}'
    ||| '\u{2000}' <= c <= '\u{200a}'
    ||| c == '\u{2028}'
    ||| c == '\u{2029}'
    ||| c == '\u{202f}'
    ||| c == '\u{205f}'
    ||| c == '\u{3000}'
}

/// Whether the character has the Unicode property `White_Space`.
pub fn is_white_space(c: char) -> (r: bool)
    ensures
        r == is_white(c),
{
    ('\u{9}' <= c && c <= '\u{d}') || c == ' ' || c == '\u{85}' || c == '\u{a0}' || c == '\u{1680}'
        || ('\u{2000}' <= c && c <= '\u{200a}') || c == '\u{2028}' || c == '\u{2029}' || c
        == '\u{202f}' || c == '\u{205f}' || c == '\u{3000}'
}

/// The text without the white space at its front.
pub open spec fn trimmed_start(s: Seq<char>) -> Seq<char>
    decreases s.len(),
{
    if s.len() > 0 && is_white(s[0]) {
        trimmed_start(s.skip(1))
    } else {
        s
    }
}

/// The text without the white space at its end.
pub open spec fn trimmed_end(s: Seq<char>) -> Seq<char>
    decreases s.len(),
{
    if s.len() > 0 && is_white(s.last()) {
        trimmed_end(s.drop_last())
    } else {
        s
    }
}

/// The text without the white space at its two ends.
pub open spec fn trimmed(s: Seq<char>) -> Seq<char> {
    trimmed_end(trimmed_start(s))
}

proof fn lemma_skip_white(s: Seq<char>, a: int)
    requires
        0 <= a <= s.len(),
        forall|i: int| 0 <= i < a ==> is_white(#[trigger] s[i]),
        a < s.len() ==> !is_white(s[a]),
    ensures
        trimmed_start(s) == s.skip(a),
    decreases a,
{
    if a == 0 {
        assert(s.skip(0) == s);
    } else {
        assert(is_white(s[0]));
        assert forall|i: int| 0 <= i < a - 1 implies is_white(#[trigger] s.skip(1)[i]) by {
            assert(is_white(s[i + 1]));
        }
        lemma_skip_white(s.skip(1), a - 1);
        assert(s.skip(1).skip(a - 1) == s.skip(a));
    }
}

proof fn lemma_drop_white(s: Seq<char>, b: int)
    requires
        0 <= b <= s.len(),
        forall|i: int| b <= i < s.len() ==> is_white(#[trigger] s[i]),
        b > 0 ==> !is_white(s[b - 1]),
    ensures
        trimmed_end(s) == s.take(b),
    decreases s.len() - b,
{
    if b == s.len() {
        assert(s.take(b) == s);
    } else {
        assert(is_white(s[s.len() - 1]));
        assert forall|i: int| b <= i < s.len() - 1 implies is_white(#[trigger] s.drop_last()[i]) by {
            assert(is_white(s[i]));
        }
        lemma_drop_white(s.drop_last(), b);
        assert(s.drop_last().take(b) == s.take(b));
    }
}

/// The text without the white space at its two ends.
pub fn trim(s: &str) -> (r: &str)
    ensures
        r@ == trimmed(s@),
{
    let c = chars_of(s);
    let mut a: usize = 0;
    while a < c.len() && is_white_space(c[a])
        invariant
            a <= c@.len(),
            forall|i: int| 0 <= i < a ==> is_white(#[trigger] c@[i]),
        decreases c@.len() - a,
    {
        a = a + 1;
    }
    let mut b: usize = c.len();
    while b > a && is_white_space(c[b - 1])
        invariant
            a <= b <= c@.len(),
            forall|i: int| b <= i < c@.len() ==> is_white(#[trigger] c@[i]),
        decreases b,
    {
        b = b - 1;
    }
    proof {
        lemma_skip_white(c@, a as int);
        let t = c@.skip(a as int);
        assert forall|i: int| b - a <= i < t.len() implies is_white(#[trigger] t[i]) by {
            assert(is_white(c@[a + i]));
        }
        if b > a {
            assert(t[b - a - 1] == c@[b - 1]);
        }
        lemma_drop_white(t, b - a);
        assert(t.take(b - a) == c@.subrange(a as int, b as int));
    }
    s.substring_char(a, b)
}

/// How many characters stand before the first `c`: all of them where there is none.
pub open spec fn first_index(s: Seq<char>, c: char) -> int
    decreases s.len(),
{
    if s.len() == 0 || s[0] == c {
        0
    } else {
        1 + first_index(s.skip(1), c)
    }
}

/// What stands before and behind the first `c`.
pub open spec fn cut_at(s: Seq<char>, c: char) -> Option<(Seq<char>, Seq<char>)> {
    let i = first_index(s, c);
    if i == s.len() {
        None
    } else {
        Some((s.take(i), s.skip(i + 1)))
    }
}

/// The first `c` stands where no `c` stands before it.
pub proof fn lemma_first_index(s: Seq<char>, c: char, i: int)
    requires
        0 <= i <= s.len(),
        forall|j: int| 0 <= j < i ==> s[j] != c,
        i < s.len() ==> s[i] == c,
    ensures
        first_index(s, c) == i,
    decreases i,
{
    if i > 0 {
        lemma_first_index(s.skip(1), c, i - 1);
    }
}

/// The position of the first `c`, or the length where there is none.
pub fn position_of(s: &str, c: char) -> (r: usize)
    ensures
        r == first_index(s@, c),
        r <= s@.len(),
{
    let chars = chars_of(s);
    let mut i: usize = 0;
    while i < chars.len() && chars[i] != c
        invariant
            i <= chars@.len(),
            forall|j: int| 0 <= j < i ==> chars@[j] != c,
        decreases chars@.len() - i,
    {
        i = i + 1;
    }
    proof {
        lemma_first_index(s@, c, i as int);
    }
    i
}

/// What stands before and behind the first `c`; nothing where there is no `c`.
pub fn split_once(s: &str, c: char) -> (r: Option<(&str, &str)>)
    ensures
        match r {
            Some((a, b)) => cut_at(s@, c) == Some((a@, b@)),
            None => cut_at(s@, c) is None,
        },
{
    let i = position_of(s, c);
    let n = s.unicode_len();
    if i == n {
        None
    } else {
        let a = s.substring_char(0, i);
        let b = s.substring_char(i + 1, n);
        assert(s@.subrange(0, i as int) == s@.take(i as int));
        assert(s@.subrange(i + 1, n as int) == s@.skip(i + 1));
        Some((a, b))
    }
}

/// The ASCII letters `A` to `Z` in lower case, every other character unchanged.
pub open spec fn ascii_lower(c: char) -> char {
    if 'A' <= c <= 'Z' {
        ((c as u8 + 32) as u8) as char
    } else {
        c
    }
}

/// The text with its ASCII letters in lower case.
pub open spec fn ascii_lowered(s: Seq<char>) -> Seq<char> {
    s.map_values(|c: char| ascii_lower(c))
}

/// Two texts are the same but for the case of ASCII letters.
pub open spec fn equal_ignoring_case(a: Seq<char>, b: Seq<char>) -> bool {
    ascii_lowered(a) == ascii_lowered(b)
}

/// The character, in lower case where it is an ASCII letter.
pub fn lower_char(c: char) -> (r: char)
    ensures
        r == ascii_lower(c),
{
    if 'A' <= c && c <= 'Z' {
        ((c as u8) + 32) as char
    } else {
        c
    }
}

/// The text with its ASCII letters in lower case.
pub fn to_ascii_lower(s: &str) -> (r: String)
    ensures
        r@ == ascii_lowered(s@),
{
    let chars = chars_of(s);
    let mut out = String::new();
    for i in 0..chars.len()
        invariant
            out@ == ascii_lowered(chars@.take(i as int)),
    {
        out.push(lower_char(chars[i]));
        assert(ascii_lowered(chars@.take(i + 1)) == ascii_lowered(chars@.take(i as int)).push(
            ascii_lower(chars@[i as int]),
        ));
    }
    assert(chars@.take(chars@.len() as int) == chars@);
    out
}

/// Whether two texts are the same but for the case of ASCII letters.
pub fn same_ignoring_case(a: &str, b: &str) -> (r: bool)
    ensures
        r == equal_ignoring_case(a@, b@),
{
    let x = to_ascii_lower(a);
    let y = to_ascii_lower(b);
    same(&x, &y)
}

/// The texts one behind the other, with `sep` between each two.
pub open spec fn joined(list: Seq<Seq<char>>, sep: Seq<char>) -> Seq<char>
    decreases list.len(),
{
    if list.len() == 0 {
        Seq::<char>::empty()
    } else if list.len() == 1 {
        list[0]
    } else {
        joined(list.drop_last(), sep) + sep + list.last()
    }
}

/// The texts one behind the other, with `sep` between each two.
pub fn join(list: &Vec<String>, sep: &str) -> (r: String)
    ensures
        r@ == joined(texts(list@), sep@),
{
    let mut out = String::new();
    for i in 0..list.len()
        invariant
            out@ == joined(texts(list@).take(i as int), sep@),
    {
        if i > 0 {
            out.append(sep);
        }
        out.append(&list[i]);
        proof {
            let t = texts(list@);
            assert(t.take(i + 1).drop_last() == t.take(i as int));
            assert(t.take(i + 1).last() == list@[i as int]@);
            if i == 0 {
                assert(out@ == list@[0]@);
            }
        }
    }
    assert(texts(list@).take(list@.len() as int) == texts(list@));
    out
}

/// The texts, each without white space at its ends, but for those that then are empty.
pub open spec fn trimmed_items(list: Seq<Seq<char>>) -> Seq<Seq<char>>
    decreases list.len(),
{
    if list.len() == 0 {
        Seq::<Seq<char>>::empty()
    } else {
        let before = trimmed_items(list.drop_last());
        let item = trimmed(list.last());
        if item.len() == 0 {
            before
        } else {
            before.push(item)
        }
    }
}

/// The pieces between the separators, trimmed, without the empty ones.
pub fn split_trimmed(s: &str, seps: &Vec<char>) -> (r: Vec<String>)
    ensures
        texts(r@) == trimmed_items(pieces(s@, seps@)),
{
    let parts = split(s, seps);
    let ghost ps = pieces(s@, seps@);
    let mut out: Vec<String> = Vec::new();
    assert(texts(out@) == Seq::<Seq<char>>::empty());
    for i in 0..parts.len()
        invariant
            texts(parts@) == ps,
            texts(out@) == trimmed_items(ps.take(i as int)),
    {
        let item = trim(&parts[i]);
        proof {
            assert(ps.take(i + 1).drop_last() == ps.take(i as int));
            assert(ps.take(i + 1).last() == parts@[i as int]@);
        }
        if !item.is_empty() {
            let ghost before = texts(out@);
            out.push(item.to_owned());
            assert(texts(out@) == before.push(item@));
        }
    }
    assert(ps.take(parts@.len() as int) == ps);
    out
}

/// No item is empty, begins or ends with white space.
pub proof fn law_trimmed_items_are_trimmed(list: Seq<Seq<char>>, i: int)
    requires
        0 <= i < trimmed_items(list).len(),
    ensures
        trimmed_items(list)[i].len() > 0,
        !is_white(trimmed_items(list)[i][0]),
        !is_white(trimmed_items(list)[i].last()),
    decreases list.len(),
{
    let before = trimmed_items(list.drop_last());
    if i < before.len() {
        law_trimmed_items_are_trimmed(list.drop_last(), i);
    } else {
        lemma_trimmed_ends(list.last());
    }
}

/// A trimmed text begins and ends with no white space.
pub proof fn lemma_trimmed_ends(s: Seq<char>)
    ensures
        trimmed(s).len() > 0 ==> !is_white(trimmed(s)[0]) && !is_white(trimmed(s).last()),
{
    lemma_start_clean(s);
    lemma_end_clean(trimmed_start(s));
}

proof fn lemma_start_clean(s: Seq<char>)
    ensures
        trimmed_start(s).len() > 0 ==> !is_white(trimmed_start(s)[0]),
    decreases s.len(),
{
    if s.len() > 0 && is_white(s[0]) {
        lemma_start_clean(s.skip(1));
    }
}

proof fn lemma_end_clean(s: Seq<char>)
    ensures
        trimmed_end(s).len() > 0 ==> !is_white(trimmed_end(s).last()) && trimmed_end(s)[0] == s[0],
    decreases s.len(),
{
    if s.len() > 0 && is_white(s.last()) {
        lemma_end_clean(s.drop_last());
    }
}

/// A text that neither begins nor ends with white space keeps its characters when it is
/// trimmed, with or without a blank before it.
pub proof fn lemma_trimmed_keeps(s: Seq<char>)
    requires
        s.len() > 0,
        !is_white(s[0]),
        !is_white(s.last()),
    ensures
        trimmed(s) == s,
        trimmed(seq![' '] + s) == s,
{
    let t = seq![' '] + s;
    assert(t.skip(1) == s);
    assert(t[0] == ' ');
    assert(is_white(' '));
    reveal_with_fuel(trimmed_start, 2);
}

/// A text without separators is one piece.
pub proof fn lemma_one_piece(s: Seq<char>, seps: Seq<char>)
    requires
        forall|i: int| 0 <= i < s.len() ==> !seps.contains(#[trigger] s[i]),
    ensures
        pieces(s, seps) == seq![s],
    decreases s.len(),
{
    if s.len() > 0 {
        assert forall|i: int| 0 <= i < s.drop_last().len() implies !seps.contains(
            #[trigger] s.drop_last()[i],
        ) by {
            assert(s.drop_last()[i] == s[i]);
        }
        lemma_one_piece(s.drop_last(), seps);
        assert(s.drop_last().push(s.last()) == s);
        assert(pieces(s, seps) == seq![s]);
    } else {
        assert(s == Seq::<char>::empty());
    }
}

/// What follows the last separator is the last piece.
pub proof fn lemma_last_piece(a: Seq<char>, sep: char, b: Seq<char>, seps: Seq<char>)
    requires
        seps.contains(sep),
        forall|i: int| 0 <= i < b.len() ==> !seps.contains(#[trigger] b[i]),
    ensures
        pieces(a.push(sep) + b, seps) == pieces(a, seps).push(b),
    decreases b.len(),
{
    let s = a.push(sep) + b;
    if b.len() == 0 {
        assert(s == a.push(sep));
        assert(s.drop_last() == a);
        assert(b == Seq::<char>::empty());
    } else {
        assert forall|i: int| 0 <= i < b.drop_last().len() implies !seps.contains(
            #[trigger] b.drop_last()[i],
        ) by {
            assert(b.drop_last()[i] == b[i]);
        }
        lemma_last_piece(a, sep, b.drop_last(), seps);
        assert(s.drop_last() == a.push(sep) + b.drop_last());
        assert(s.last() == b[b.len() - 1]);
        let before = pieces(a, seps).push(b.drop_last());
        assert(before.drop_last() == pieces(a, seps));
        assert(before.last().push(b.last()) == b);
    }
}

} // verus!
