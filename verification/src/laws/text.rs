//! The ground: texts, numbers and JSON values.
use vstd::prelude::*;
use vstd::string::*;

use crate::json::{
    fields_view, items_view, lemma_field_found, lemma_fields_view, lemma_items_view, string_items,
    Json, JsonV, Num,
};
use crate::number::{
    decimal, decimal_text, is_digit, law_decimal_reads_back, lemma_decimal, parse_i64,
};
use crate::text::{
    ascii_lower, ascii_lowered, contains, is_white, joined, pieces, same_ignoring_case, split,
    split_once, texts, trim, trimmed_end, trimmed_start,
};

verus! {

/// Two texts are the same but for case exactly where they are equally long and differ at
/// most in that a letter from A to Z in one is the small letter in the other.
pub proof fn law_case_of_ascii_letters_does_not_count(a: &str, b: &str, r: bool)
    requires
        call_ensures(same_ignoring_case, (a, b), r),
    ensures
        r <==> a@.len() == b@.len() && forall|i: int|
            0 <= i < a@.len() ==> same_letter(#[trigger] a@[i], b@[i]),
{
    let x = ascii_lowered(a@);
    let y = ascii_lowered(b@);
    assert(x.len() == a@.len() && y.len() == b@.len());
    if r {
        assert forall|i: int| 0 <= i < a@.len() implies same_letter(#[trigger] a@[i], b@[i]) by {
            assert(x[i] == ascii_lower(a@[i]));
            assert(y[i] == ascii_lower(b@[i]));
            lemma_lower(a@[i], b@[i]);
        }
    }
    if a@.len() == b@.len() && forall|i: int|
        0 <= i < a@.len() ==> same_letter(#[trigger] a@[i], b@[i]) {
        assert forall|i: int| 0 <= i < x.len() implies x[i] == y[i] by {
            assert(same_letter(a@[i], b@[i]));
            lemma_lower(a@[i], b@[i]);
        }
        assert(x == y);
    }
}

/// The two characters are the same, or the two forms of one letter from A to Z.
pub open spec fn same_letter(a: char, b: char) -> bool {
    ||| a == b
    ||| 'A' <= a <= 'Z' && b as int == a as int + 32
    ||| 'A' <= b <= 'Z' && a as int == b as int + 32
}

proof fn lemma_lower(a: char, b: char)
    ensures
        ascii_lower(a) == ascii_lower(b) <==> same_letter(a, b),
{
}

/// Trimming takes white space away at the two ends, all of it, and nothing else.
pub proof fn law_trimming_takes_white_space_away(s: &str, r: &str)
    requires
        call_ensures(trim, (s,), r),
    ensures
        exists|a: int, b: int|
            #![trigger s@.subrange(a, b)]
            0 <= a <= b <= s@.len() && r@ == s@.subrange(a, b) && (forall|i: int|
                0 <= i < a || b <= i < s@.len() ==> is_white(#[trigger] s@[i])),
        r@.len() > 0 ==> !is_white(r@[0]) && !is_white(r@.last()),
{
    let a = lemma_front_white(s@);
    let t = trimmed_start(s@);
    let n = lemma_end_white(t);
    assert(r@ == t.take(n));
    let b = a + n;
    assert(s@.subrange(a, b) == r@);
    assert forall|i: int| 0 <= i < a || b <= i < s@.len() implies is_white(#[trigger] s@[i]) by {
        if b <= i < s@.len() {
            assert(t[i - a] == s@[i]);
        }
    }
    crate::text::lemma_trimmed_ends(s@);
}

proof fn lemma_front_white(s: Seq<char>) -> (a: int)
    ensures
        0 <= a <= s.len(),
        trimmed_start(s) == s.skip(a),
        forall|i: int| 0 <= i < a ==> is_white(#[trigger] s[i]),
    decreases s.len(),
{
    if s.len() > 0 && is_white(s[0]) {
        let a = lemma_front_white(s.skip(1));
        assert(s.skip(1).skip(a) == s.skip(a + 1));
        assert forall|i: int| 0 <= i < a + 1 implies is_white(#[trigger] s[i]) by {
            if i > 0 {
                assert(s.skip(1)[i - 1] == s[i]);
            }
        }
        a + 1
    } else {
        assert(s.skip(0) == s);
        0
    }
}

proof fn lemma_end_white(s: Seq<char>) -> (n: int)
    ensures
        0 <= n <= s.len(),
        trimmed_end(s) == s.take(n),
        forall|i: int| n <= i < s.len() ==> is_white(#[trigger] s[i]),
    decreases s.len(),
{
    if s.len() > 0 && is_white(s.last()) {
        let n = lemma_end_white(s.drop_last());
        assert(s.drop_last().take(n) == s.take(n));
        assert forall|i: int| n <= i < s.len() implies is_white(#[trigger] s[i]) by {
            if i < s.len() - 1 {
                assert(s.drop_last()[i] == s[i]);
            }
        }
        n
    } else {
        assert(s.take(s.len() as int) == s);
        s.len() as int
    }
}

/// White space is what Unicode calls so: the tab and the line ends, the space, and the
/// other spaces and separators.
pub proof fn law_white_space(c: char, r: bool)
    requires
        call_ensures(crate::text::is_white_space, (c,), r),
    ensures
        r <==> {
            let n = c as int;
            ||| 9 <= n <= 13
            ||| n == 32 || n == 0x85 || n == 0xa0 || n == 0x1680
            ||| 0x2000 <= n <= 0x200a
            ||| n == 0x2028 || n == 0x2029 || n == 0x202f || n == 0x205f || n == 0x3000
        },
{
}

/// The pieces of a text at a separator give the text again with the separator between
/// them, and none of them holds it.
pub proof fn law_pieces_join_to_the_text(s: &str, seps: &Vec<char>, r: Vec<String>, c: char, k: int)
    requires
        call_ensures(split, (s, seps), r),
        seps@ == seq![c],
    ensures
        r@.len() > 0,
        joined(texts(r@), seq![c]) == s@,
        0 <= k < r@.len() ==> !r@[k]@.contains(c),
{
    assert(texts(r@).len() == r@.len());
    lemma_pieces(s@, c);
    if 0 <= k < r@.len() {
        assert(texts(r@)[k] == r@[k]@);
        assert(!pieces(s@, seq![c])[k].contains(c));
    }
}

proof fn lemma_joined_extended(list: Seq<Seq<char>>, sep: Seq<char>, x: char)
    requires
        list.len() > 0,
    ensures
        joined(list.drop_last().push(list.last().push(x)), sep) == joined(list, sep).push(x),
{
    let more = list.drop_last().push(list.last().push(x));
    if list.len() > 1 {
        assert(more.drop_last() == list.drop_last());
        let a = joined(list.drop_last(), sep) + sep;
        assert(a + list.last().push(x) == (a + list.last()).push(x));
    }
}

proof fn lemma_pieces(s: Seq<char>, c: char)
    ensures
        pieces(s, seq![c]).len() > 0,
        joined(pieces(s, seq![c]), seq![c]) == s,
        forall|k: int|
            0 <= k < pieces(s, seq![c]).len() ==> !(#[trigger] pieces(s, seq![c])[k]).contains(c),
    decreases s.len(),
{
    let seps = seq![c];
    let all = pieces(s, seps);
    assert(seps[0] == c);
    if s.len() == 0 {
        assert(joined(all, seps) == s);
    } else {
        let before = pieces(s.drop_last(), seps);
        lemma_pieces(s.drop_last(), c);
        assert(s == s.drop_last().push(s.last()));
        if s.last() == c {
            assert(seps.contains(s.last()));
            assert(all.drop_last() == before);
            assert(joined(before, seps) + seps + Seq::<char>::empty() == s);
        } else {
            assert(!seps.contains(s.last()));
            lemma_joined_extended(before, seps, s.last());
            assert forall|k: int| 0 <= k < all.len() implies !(#[trigger] all[k]).contains(c) by {
                if k < before.len() - 1 {
                    assert(all[k] == before[k]);
                } else {
                    let old_last = before[before.len() - 1];
                    assert(!old_last.contains(c));
                    let new_last = old_last.push(s.last());
                    assert(all[k] == new_last);
                    if new_last.contains(c) {
                        let j = choose|j: int| 0 <= j < new_last.len() && new_last[j] == c;
                        assert(old_last[j] == c);
                    }
                }
            }
        }
    }
}

/// A text is cut at the first of the given characters: what stands before it does not hold
/// it, and with what stands behind gives the text again. It is not cut where it holds
/// none.
pub proof fn law_text_is_cut_at_the_first(s: &str, c: char, r: Option<(&str, &str)>)
    requires
        call_ensures(split_once, (s, c), r),
    ensures
        r is Some <==> s@.contains(c),
        r matches Some((a, b)) ==> !a@.contains(c) && a@.push(c) + b@ == s@,
{
    lemma_cut(s@, c);
    if let Some((a, b)) = r {
        let i = crate::text::first_index(s@, c);
        assert(a@.push(c) + b@ == s@);
        if a@.contains(c) {
            let j = choose|j: int| 0 <= j < a@.len() && a@[j] == c;
            assert(s@[j] == c);
        }
    }
}

proof fn lemma_cut(s: Seq<char>, c: char)
    ensures
        0 <= crate::text::first_index(s, c) <= s.len(),
        crate::text::first_index(s, c) < s.len() ==> s[crate::text::first_index(s, c)] == c,
        forall|j: int| 0 <= j < crate::text::first_index(s, c) ==> s[j] != c,
        s.contains(c) <==> crate::text::first_index(s, c) < s.len(),
    decreases s.len(),
{
    let i = crate::text::first_index(s, c);
    if s.len() > 0 && s[0] != c {
        let rest = s.skip(1);
        lemma_cut(rest, c);
        let k = crate::text::first_index(rest, c);
        assert(i == 1 + k);
        assert forall|j: int| 0 <= j < i implies s[j] != c by {
            if j > 0 {
                assert(rest[j - 1] == s[j]);
            }
        }
        if k < rest.len() {
            assert(rest[k] == s[i]);
        }
        if s.contains(c) {
            let j = choose|j: int| 0 <= j < s.len() && s[j] == c;
            assert(rest[j - 1] == c);
        }
    } else if s.len() > 0 {
        assert(s[0] == c);
    }
}

/// A text holds another where it has it between some front and some end.
pub proof fn law_part_of_a_text(
    text: &str,
    needle: &str,
    r: bool,
    front: Seq<char>,
    end: Seq<char>,
)
    requires
        call_ensures(contains, (text, needle), r),
    ensures
        text@ == front + needle@ + end ==> r,
        r ==> exists|i: int|
            0 <= i <= text@.len() - needle@.len() && #[trigger] text@.subrange(
                i,
                i + needle@.len(),
            ) == needle@,
{
    if text@ == front + needle@ + end {
        let i = front.len() as int;
        assert(text@.subrange(i, i + needle@.len()) == needle@);
        assert(crate::text::occurs_at(text@, needle@, i));
    }
    if r {
        let i = choose|i: int| crate::text::occurs_at(text@, needle@, i);
        assert(text@.subrange(i, i + needle@.len()) == needle@);
    }
}

/// A number is read back from the text that is written for it.
pub proof fn law_written_numbers_read_back(n: u128, text: String, s: &str, r: Option<i64>)
    requires
        call_ensures(decimal_text, (n,), text),
        s@ == text@,
        call_ensures(parse_i64, (s,), r),
        n <= i64::MAX,
    ensures
        r == Some(n as i64),
{
    law_decimal_reads_back(n as nat);
}

/// The value under a key is that of the first field with it; what is no object has none.
pub proof fn law_value_is_read_by_its_key(v: &Json, key: &str, r: Option<&Json>, i: int)
    requires
        call_ensures(Json::get, (v, key), r),
    ensures
        !(v is Object) ==> r is None,
        v matches Json::Object(fields) ==> {
            &&& 0 <= i < fields@.len() && fields@[i].0@ == key@ && (forall|j: int|
                0 <= j < i ==> (#[trigger] fields@[j]).0@ != key@) ==> r is Some
                && r->Some_0.view() == fields@[i].1.view()
            &&& (forall|j: int| 0 <= j < fields@.len() ==> (#[trigger] fields@[j]).0@ != key@)
                ==> r is None
        },
{
    if let Json::Object(fields) = v {
        let f = fields_view(fields@);
        lemma_fields_view(fields@);
        if 0 <= i < fields@.len() && fields@[i].0@ == key@ && (forall|j: int|
            0 <= j < i ==> (#[trigger] fields@[j]).0@ != key@) {
            assert forall|j: int| 0 <= j < i implies (#[trigger] f[j]).0 != key@ by {
                assert(f[j].0 == fields@[j].0@);
            }
            assert(f[i].0 == key@);
            lemma_field_found(f, key@, i);
        }
        if forall|j: int| 0 <= j < fields@.len() ==> (#[trigger] fields@[j]).0@ != key@ {
            assert forall|j: int| 0 <= j < f.len() implies (#[trigger] f[j]).0 != key@ by {
                assert(f[j].0 == fields@[j].0@);
            }
            lemma_field_found(f, key@, f.len() as int);
        }
    }
}

/// A number may have a sign, of which `-` turns it round; a text that holds anything else
/// than digits behind its first character, or no character at all, is no number.
pub proof fn law_numbers_may_have_a_sign(n: nat, s: &str, r: Option<i64>, i: int)
    requires
        call_ensures(parse_i64, (s,), r),
        n <= i64::MAX,
    ensures
        s@ == seq!['+'] + decimal(n) ==> r == Some(n as i64),
        s@ == seq!['-'] + decimal(n) ==> r == Some((-n) as i64),
        s@.len() == 0 ==> r is None,
        s@.len() == 1 && !is_digit(s@[0]) ==> r is None,
        0 < i < s@.len() && !is_digit(s@[i]) ==> r is None,
        s@.len() > 0 && !is_digit(s@[0]) && s@[0] != '+' && s@[0] != '-' ==> r is None,
{
    lemma_decimal(n);
    if s@ == seq!['+'] + decimal(n) || s@ == seq!['-'] + decimal(n) {
        assert(s@.skip(1) == decimal(n));
        assert(s@[0] == '+' || s@[0] == '-');
    }
    if 0 < i < s@.len() && !is_digit(s@[i]) {
        assert(s@.skip(1)[i - 1] == s@[i]);
    }
}

/// A whole number is not negative where it is at least zero, and positive where it is more;
/// any number that is positive is not negative.
pub proof fn law_numbers_are_told_by_their_sign(n: &Num, a: bool, b: bool)
    requires
        call_ensures(Num::is_not_negative, (n,), a),
        call_ensures(Num::is_positive, (n,), b),
    ensures
        b ==> a,
        n matches Num::Unsigned(k) ==> a && (b <==> k != 0),
        n matches Num::Negative(k) ==> (a <==> k >= 0) && (b <==> k > 0),
        n matches Num::Float(x) ==> (a && !b <==> x.bits == 0 || x.bits
            == 0x8000_0000_0000_0000),
{
}

/// The strings of an array are a list in its order, without what else it holds; what is no
/// array is none.
pub proof fn law_strings_of_an_array(v: &Json, r: Option<Vec<String>>, k: int)
    requires
        call_ensures(Json::strings, (v,), r),
    ensures
        r is Some <==> v is Array,
        r matches Some(list) ==> list@.len() <= v->Array_0@.len(),
        r matches Some(list) ==> ((forall|i: int|
            0 <= i < v->Array_0@.len() ==> (#[trigger] v->Array_0@[i]) is Str)
            ==> list@.len() == v->Array_0@.len() && (0 <= k < list@.len() ==> list@[k]@
            == v->Array_0@[k]->Str_0@)),
{
    if let Json::Array(items) = v {
        lemma_items_view(items@);
        let iv = items_view(items@);
        let list = r->Some_0;
        assert(texts(list@).len() == list@.len());
        lemma_fewer_strings(iv);
        if forall|i: int| 0 <= i < items@.len() ==> (#[trigger] items@[i]) is Str {
            assert forall|i: int| 0 <= i < iv.len() implies (#[trigger] iv[i]) is Str by {
                assert(items@[i] is Str);
                assert(iv[i] == items@[i].view());
            }
            lemma_as_many_strings(iv);
            if 0 <= k < list@.len() {
                assert(texts(list@)[k] == list@[k]@);
                assert(items@[k] is Str);
                assert(iv[k] == items@[k].view());
            }
        }
    }
}

proof fn lemma_fewer_strings(items: Seq<JsonV>)
    ensures
        string_items(items).len() <= items.len(),
    decreases items.len(),
{
    if items.len() > 0 {
        lemma_fewer_strings(items.drop_last());
    }
}

proof fn lemma_as_many_strings(items: Seq<JsonV>)
    requires
        forall|i: int| 0 <= i < items.len() ==> (#[trigger] items[i]) is Str,
    ensures
        string_items(items).len() == items.len(),
        forall|i: int|
            0 <= i < items.len() ==> #[trigger] string_items(items)[i] == items[i]->Str_0,
    decreases items.len(),
{
    if items.len() > 0 {
        assert(items[items.len() - 1] is Str);
        let before = items.drop_last();
        assert forall|i: int| 0 <= i < before.len() implies (#[trigger] before[i]) is Str by {
            assert(before[i] == items[i]);
        }
        lemma_as_many_strings(before);
    }
}

} // verus!
