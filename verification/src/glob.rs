//! URL patterns in which `*` stands for any run of characters.
use vstd::prelude::*;
use vstd::string::*;

use crate::text::{
    chars_of, find_from, has_substring, is_one_of, occurs_at, pieces, rows,
    split_chars, stands_at, 
};

verus! {

/// The pattern matches the whole text, where `*` stands for any run of
/// characters (an empty one too) and every other character for itself.
pub open spec fn glob_matches(pattern: Seq<char>, text: Seq<char>) -> bool
    decreases pattern.len(),
{
    if pattern.len() == 0 {
        text.len() == 0
    } else if pattern[0] == '*' {
        exists|k: int|
            0 <= k <= text.len() && glob_matches(pattern.skip(1), #[trigger] text.skip(k))
    } else {
        text.len() > 0 && text[0] == pattern[0] && glob_matches(pattern.skip(1), text.skip(1))
    }
}

/// What a route pattern selects: without a `*`, every URL that it is a part of;
/// with one, every URL that it matches as a whole.
pub open spec fn pattern_selects(pattern: Seq<char>, url: Seq<char>) -> bool {
    if pattern.contains('*') {
        glob_matches(pattern, url)
    } else {
        has_substring(url, pattern)
    }
}

/// The pattern with every run of `*` shortened to a single one.
pub open spec fn collapsed(pattern: Seq<char>) -> Seq<char>
    decreases pattern.len(),
{
    if pattern.len() == 0 {
        pattern
    } else {
        let before = pattern.drop_last();
        if pattern.last() == '*' && before.len() > 0 && before.last() == '*' {
            collapsed(before)
        } else {
            collapsed(before).push(pattern.last())
        }
    }
}

/// Shortens every run of `*` to a single one.
pub fn collapse_wildcards(pattern: &str) -> (r: String)
    ensures
        r@ == collapsed(pattern@),
{
    let chars = chars_of(pattern);
    let mut out = String::new();
    let mut last_was_star: bool = false;
    for i in 0..chars.len()
        invariant
            out@ == collapsed(chars@.take(i as int)),
            last_was_star == (i > 0 && chars@[i - 1] == '*'),
    {
        let c = chars[i];
        assert(chars@.take(i + 1).drop_last() == chars@.take(i as int));
        if c == '*' {
            if !last_was_star {
                out.push(c);
            }
            last_was_star = true;
        } else {
            out.push(c);
            last_was_star = false;
        }
    }
    assert(chars@.take(chars@.len() as int) == chars@);
    out
}

/// The pattern `*p1*p2*...*pn` of the given pieces.
spec fn starred(parts: Seq<Seq<char>>) -> Seq<char>
    decreases parts.len(),
{
    if parts.len() == 0 {
        Seq::<char>::empty()
    } else {
        seq!['*'] + parts[0] + starred(parts.skip(1))
    }
}

proof fn lemma_starred_push(parts: Seq<Seq<char>>, p: Seq<char>)
    ensures
        starred(parts.push(p)) == starred(parts) + seq!['*'] + p,
    decreases parts.len(),
{
    if parts.len() == 0 {
        assert(parts.push(p).skip(1) == Seq::<Seq<char>>::empty());
        assert(starred(parts.push(p).skip(1)) == Seq::<char>::empty());
        assert(starred(parts.push(p)) == seq!['*'] + p + Seq::<char>::empty());
    } else {
        lemma_starred_push(parts.skip(1), p);
        assert(parts.push(p).skip(1) == parts.skip(1).push(p));
        assert(starred(parts.push(p)) == seq!['*'] + parts[0] + (starred(parts.skip(1)) + seq!['*']
            + p));
    }
}

proof fn lemma_starred_extend_last(parts: Seq<Seq<char>>, c: char)
    requires
        parts.len() > 0,
    ensures
        starred(parts.drop_last().push(parts.last().push(c))) == starred(parts).push(c),
{
    let front = parts.drop_last();
    lemma_starred_push(front, parts.last());
    lemma_starred_push(front, parts.last().push(c));
    assert(front.push(parts.last()) == parts);
}

/// A pattern is its first piece followed by the others, each behind a `*`, and
/// no piece holds a `*`.
proof fn lemma_pattern_of_pieces(p: Seq<char>)
    ensures
        ({
            let ps = pieces(p, seq!['*']);
            &&& ps.len() >= 1
            &&& p == ps[0] + starred(ps.skip(1))
            &&& forall|i: int| 0 <= i < ps.len() ==> !(#[trigger] ps[i]).contains('*')
            &&& p.contains('*') ==> ps.len() >= 2
        }),
    decreases p.len(),
{
    let sep = seq!['*'];
    let ps = pieces(p, sep);
    if p.len() == 0 {
        assert(ps.skip(1) == Seq::<Seq<char>>::empty());
        assert(p == ps[0] + starred(ps.skip(1)));
    } else {
        let before = pieces(p.drop_last(), sep);
        lemma_pattern_of_pieces(p.drop_last());
        assert(p == p.drop_last().push(p.last()));
        if sep.contains(p.last()) {
            assert(p.last() == '*');
            let e = Seq::<char>::empty();
            assert(ps.skip(1) == before.skip(1).push(e));
            lemma_starred_push(before.skip(1), e);
            assert(p == ps[0] + starred(ps.skip(1)));
            assert forall|i: int| 0 <= i < ps.len() implies !(#[trigger] ps[i]).contains('*') by {
                if i < before.len() {
                    assert(ps[i] == before[i]);
                }
            }
        } else {
            assert(sep[0] == '*');
            assert(p.last() != '*');
            if before.len() == 1 {
                assert(ps.skip(1) == before.skip(1));
                assert(before.skip(1) == Seq::<Seq<char>>::empty());
                assert(p == ps[0] + starred(ps.skip(1)));
            } else {
                lemma_starred_extend_last(before.skip(1), p.last());
                assert(ps.skip(1) == before.skip(1).drop_last().push(
                    before.skip(1).last().push(p.last()),
                ));
                assert(p == ps[0] + starred(ps.skip(1)));
            }
            assert forall|i: int| 0 <= i < ps.len() implies !(#[trigger] ps[i]).contains('*') by {
                if i < before.len() - 1 {
                    assert(ps[i] == before[i]);
                } else {
                    let w = before.last();
                    assert(w == before[before.len() - 1]);
                    assert(ps[i] == w.push(p.last()));
                    if ps[i].contains('*') {
                        let k = choose|k: int| 0 <= k < ps[i].len() && ps[i][k] == '*';
                        assert(w[k] == '*');
                    }
                }
            }
            if p.contains('*') {
                let k = choose|k: int| 0 <= k < p.len() && p[k] == '*';
                assert(p.drop_last()[k] == '*');
            }
        }
    }
}

/// A piece without `*` matches exactly itself, at the front.
proof fn lemma_literal_prefix(piece: Seq<char>, rest: Seq<char>, text: Seq<char>)
    requires
        !piece.contains('*'),
    ensures
        glob_matches(piece + rest, text) == (occurs_at(text, piece, 0) && glob_matches(
            rest,
            text.skip(piece.len() as int),
        )),
    decreases piece.len(),
{
    let whole = piece + rest;
    if piece.len() == 0 {
        assert(whole == rest);
        assert(text.skip(0) == text);
        assert(text.subrange(0, 0) == piece);
    } else {
        assert(whole[0] == piece[0]);
        assert(piece[0] != '*');
        assert(whole.skip(1) == piece.skip(1) + rest);
        assert(!piece.skip(1).contains('*')) by {
            if piece.skip(1).contains('*') {
                let k = choose|k: int| 0 <= k < piece.skip(1).len() && piece.skip(1)[k] == '*';
                assert(piece[k + 1] == '*');
            }
        }
        if text.len() > 0 {
            lemma_literal_prefix(piece.skip(1), rest, text.skip(1));
            if piece.len() <= text.len() {
                assert(text.skip(1).skip(piece.len() - 1) == text.skip(piece.len() as int));
            }
            if text[0] == piece[0] && occurs_at(text.skip(1), piece.skip(1), 0) {
                assert(text.subrange(0, piece.len() as int) =~= piece) by {
                    assert forall|i: int| 0 <= i < piece.len() implies text[i] == piece[i] by {
                        if i > 0 {
                            assert(text.skip(1).subrange(0, piece.len() - 1)[i - 1]
                                == piece.skip(1)[i - 1]);
                        }
                    }
                }
            }
            if occurs_at(text, piece, 0) {
                assert(text.subrange(0, piece.len() as int)[0] == piece[0]);
                assert(text.skip(1).subrange(0, piece.len() - 1) =~= piece.skip(1)) by {
                    assert forall|i: int| 0 <= i < piece.len() - 1 implies text.skip(1)[i]
                        == piece.skip(1)[i] by {
                        assert(text.subrange(0, piece.len() as int)[i + 1] == piece[i + 1]);
                    }
                }
            }
        }
    }
}

/// A pattern that begins with `*` and matches a rest of the text matches all of it.
proof fn lemma_star_absorbs(pattern: Seq<char>, text: Seq<char>, k: int)
    requires
        pattern.len() > 0,
        pattern[0] == '*',
        0 <= k <= text.len(),
        glob_matches(pattern, text.skip(k)),
    ensures
        glob_matches(pattern, text),
{
    let tail = text.skip(k);
    let j = choose|j: int|
        0 <= j <= tail.len() && glob_matches(pattern.skip(1), #[trigger] tail.skip(j));
    assert(tail.skip(j) == text.skip(k + j));
}

/// A piece stands in the rest of a text where it stands in the text.
proof fn lemma_occurs_in_rest(text: Seq<char>, piece: Seq<char>, from: int, i: int)
    requires
        0 <= from <= text.len(),
        0 <= i,
    ensures
        occurs_at(text.skip(from), piece, i) == occurs_at(text, piece, from + i),
{
    if i + piece.len() + from <= text.len() {
        assert(text.skip(from).subrange(i, i + piece.len()) == text.subrange(
            from + i,
            from + i + piece.len(),
        ));
    }
}

/// Taking the first place at which the piece stands loses no match, as long as
/// another `*` follows.
proof fn lemma_first_place_suffices(
    piece: Seq<char>,
    rest: Seq<char>,
    text: Seq<char>,
    from: int,
    found: Option<int>,
)
    requires
        !piece.contains('*'),
        rest.len() > 0,
        rest[0] == '*',
        0 <= from <= text.len(),
        match found {
            Some(i) => from <= i && occurs_at(text, piece, i) && forall|j: int|
                from <= j < i ==> !occurs_at(text, piece, j),
            None => forall|j: int| from <= j ==> !occurs_at(text, piece, j),
        },
    ensures
        glob_matches(seq!['*'] + piece + rest, text.skip(from)) == match found {
            Some(i) => glob_matches(rest, text.skip(i + piece.len())),
            None => false,
        },
{
    let pattern = seq!['*'] + piece + rest;
    let tail = text.skip(from);
    assert(pattern.skip(1) == piece + rest);
    assert(pattern[0] == '*');
    if glob_matches(pattern, tail) {
        let k = choose|k: int|
            0 <= k <= tail.len() && glob_matches(pattern.skip(1), #[trigger] tail.skip(k));
        assert(tail.skip(k) == text.skip(from + k));
        lemma_literal_prefix(piece, rest, text.skip(from + k));
        lemma_occurs_in_rest(text, piece, from + k, 0);
        assert(occurs_at(text, piece, from + k));
        let i = found.unwrap();
        assert(i <= from + k);
        assert(text.skip(from + k).skip(piece.len() as int) == text.skip(from + k + piece.len()));
        let later = text.skip(i + piece.len());
        assert(later.skip(from + k - i) == text.skip(from + k + piece.len()));
        lemma_star_absorbs(rest, later, from + k - i);
    }
    if let Some(i) = found {
        if glob_matches(rest, text.skip(i + piece.len())) {
            lemma_occurs_in_rest(text, piece, i, 0);
            assert(text.skip(i).skip(piece.len() as int) == text.skip(i + piece.len()));
            lemma_literal_prefix(piece, rest, text.skip(i));
            assert(tail.skip(i - from) == text.skip(i));
            assert(glob_matches(pattern.skip(1), tail.skip(i - from)));
        }
    }
}

/// Behind the last `*` the text has to end with the last piece.
proof fn lemma_last_piece(piece: Seq<char>, text: Seq<char>, from: int)
    requires
        !piece.contains('*'),
        0 <= from <= text.len(),
    ensures
        glob_matches(seq!['*'] + piece, text.skip(from)) == (from + piece.len() <= text.len()
            && occurs_at(text, piece, text.len() - piece.len())),
{
    let pattern = seq!['*'] + piece;
    let tail = text.skip(from);
    let none = Seq::<char>::empty();
    assert(pattern.skip(1) == piece + none);
    assert(pattern[0] == '*');
    let e = text.len() - piece.len();
    if glob_matches(pattern, tail) {
        let k = choose|k: int|
            0 <= k <= tail.len() && glob_matches(pattern.skip(1), #[trigger] tail.skip(k));
        assert(tail.skip(k) == text.skip(from + k));
        lemma_literal_prefix(piece, none, text.skip(from + k));
        lemma_occurs_in_rest(text, piece, from + k, 0);
        assert(text.skip(from + k).skip(piece.len() as int).len() == 0);
        assert(from + k == e);
    }
    if from + piece.len() <= text.len() && occurs_at(text, piece, e) {
        lemma_occurs_in_rest(text, piece, e, 0);
        lemma_literal_prefix(piece, none, text.skip(e));
        assert(text.skip(e).skip(piece.len() as int) == none);
        assert(tail.skip(e - from) == text.skip(e));
        assert(glob_matches(pattern.skip(1), tail.skip(e - from)));
    }
}

/// Whether a route pattern selects a URL.
pub fn route_url_matches(pattern: &str, url: &str) -> (r: bool)
    ensures
        r == pattern_selects(pattern@, url@),
{
    let p = chars_of(pattern);
    let u = chars_of(url);
    if !is_one_of('*', &p) {
        return find_from(&u, &p, 0).is_some();
    }
    let sep: Vec<char> = vec!['*'];
    let parts = split_chars(&p, &sep);
    let ghost ps = pieces(p@, seq!['*']);
    let n: usize = parts.len();
    proof {
        assert(sep@ == seq!['*']);
        lemma_pattern_of_pieces(p@);
        assert(rows(parts@) == ps);
        assert(parts@[0]@ == ps[0]);
        lemma_literal_prefix(ps[0], starred(ps.skip(1)), u@);
    }
    if !stands_at(&u, &parts[0], 0) {
        return false;
    }
    let mut pos: usize = parts[0].len();
    for i in 1..(n - 1)
        invariant
            p@ == pattern@,
            u@ == url@,
            p@.contains('*'),
            u@.len() == u.len(),
            2 <= n == parts@.len(),
            ps == rows(parts@),
            forall|k: int| 0 <= k < ps.len() ==> !(#[trigger] ps[k]).contains('*'),
            pos <= u@.len(),
            glob_matches(p@, u@) == glob_matches(starred(ps.skip(i as int)), u@.skip(pos as int)),
    {
        let found = find_from(&u, &parts[i], pos);
        proof {
            assert(parts@[i as int]@ == ps[i as int]);
            let rest = starred(ps.skip(i + 1));
            assert(ps.skip(i as int).skip(1) == ps.skip(i + 1));
            assert(rest[0] == '*');
            let ghost_found: Option<int> = match found {
                Some(f) => Some(f as int),
                None => None,
            };
            lemma_first_place_suffices(ps[i as int], rest, u@, pos as int, ghost_found);
            assert(starred(ps.skip(i as int)) == seq!['*'] + ps[i as int] + rest);
        }
        match found {
            None => {
                return false;
            },
            Some(f) => {
                pos = f + parts[i].len();
            },
        }
    }
    let last = &parts[n - 1];
    proof {
        assert(last@ == ps[n - 1]);
        lemma_last_piece(last@, u@, pos as int);
        assert(ps.skip(n - 1).skip(1) == Seq::<Seq<char>>::empty());
        assert(starred(ps.skip(n - 1).skip(1)) == Seq::<char>::empty());
        assert(starred(ps.skip(n - 1)) == seq!['*'] + last@);
    }
    last.len() <= u.len() - pos && stands_at(&u, last, u.len() - last.len())
}

/// Two patterns that match the same texts can stand for each other behind a
/// common beginning.
proof fn lemma_same_ending(front: Seq<char>, a: Seq<char>, b: Seq<char>, text: Seq<char>)
    requires
        forall|t: Seq<char>| #[trigger] glob_matches(a, t) == glob_matches(b, t),
    ensures
        glob_matches(front + a, text) == glob_matches(front + b, text),
    decreases front.len(),
{
    if front.len() == 0 {
        assert(front + a == a);
        assert(front + b == b);
    } else {
        assert((front + a).skip(1) == front.skip(1) + a);
        assert((front + b).skip(1) == front.skip(1) + b);
        assert((front + a)[0] == front[0]);
        assert((front + b)[0] == front[0]);
        if front[0] == '*' {
            assert forall|k: int| 0 <= k <= text.len() implies glob_matches(
                front.skip(1) + a,
                #[trigger] text.skip(k),
            ) == glob_matches(front.skip(1) + b, text.skip(k)) by {
                lemma_same_ending(front.skip(1), a, b, text.skip(k));
            }
        } else if text.len() > 0 {
            lemma_same_ending(front.skip(1), a, b, text.skip(1));
        }
    }
}

/// Two stars match what one star matches.
proof fn lemma_two_stars(rest: Seq<char>, text: Seq<char>)
    ensures
        glob_matches(seq!['*', '*'] + rest, text) == glob_matches(seq!['*'] + rest, text),
{
    let one = seq!['*'] + rest;
    let two = seq!['*', '*'] + rest;
    assert(two.skip(1) == one);
    assert(one.skip(1) == rest);
    if glob_matches(two, text) {
        let k = choose|k: int|
            0 <= k <= text.len() && glob_matches(two.skip(1), #[trigger] text.skip(k));
        lemma_star_absorbs(one, text, k);
    }
    if glob_matches(one, text) {
        assert(text.skip(0) == text);
        assert(glob_matches(two.skip(1), text.skip(0)));
    }
}

proof fn lemma_collapse_keeps_matches(pattern: Seq<char>, rest: Seq<char>, text: Seq<char>)
    ensures
        glob_matches(collapsed(pattern) + rest, text) == glob_matches(pattern + rest, text),
    decreases pattern.len(),
{
    if pattern.len() > 0 {
        let before = pattern.drop_last();
        let c = pattern.last();
        assert(pattern == before.push(c));
        if c == '*' && before.len() > 0 && before.last() == '*' {
            lemma_collapse_keeps_matches(before, rest, text);
            let front = before.drop_last();
            let one = seq!['*'] + rest;
            let two = seq!['*', '*'] + rest;
            assert forall|t: Seq<char>| #[trigger] glob_matches(one, t) == glob_matches(two, t) by {
                lemma_two_stars(rest, t);
            }
            lemma_same_ending(front, one, two, text);
            assert(before + rest == front + one);
            assert(pattern + rest == front + two);
        } else {
            lemma_collapse_keeps_matches(before, seq![c] + rest, text);
            assert(collapsed(pattern) + rest == collapsed(before) + (seq![c] + rest));
            assert(pattern + rest == before + (seq![c] + rest));
        }
    }
}

/// Shortening runs of `*` leaves a `*` where there was one and brings in none.
proof fn lemma_collapse_keeps_stars(pattern: Seq<char>)
    ensures
        collapsed(pattern).contains('*') == pattern.contains('*'),
        !pattern.contains('*') ==> collapsed(pattern) == pattern,
        pattern.len() > 0 ==> collapsed(pattern).len() > 0 && collapsed(pattern).last()
            == pattern.last(),
    decreases pattern.len(),
{
    if pattern.len() > 0 {
        let before = pattern.drop_last();
        let c = pattern.last();
        lemma_collapse_keeps_stars(before);
        assert(pattern == before.push(c));
        if c == '*' {
            assert(pattern[pattern.len() - 1] == '*');
            let k = collapsed(pattern);
            assert(k[k.len() - 1] == '*');
        } else {
            let k = collapsed(before);
            assert(collapsed(pattern) == k.push(c));
            if pattern.contains('*') {
                let i = choose|i: int| 0 <= i < pattern.len() && pattern[i] == '*';
                assert(before[i] == '*');
                let j = choose|j: int| 0 <= j < k.len() && k[j] == '*';
                assert(k.push(c)[j] == '*');
            }
            if k.push(c).contains('*') {
                let j = choose|j: int| 0 <= j < k.push(c).len() && k.push(c)[j] == '*';
                assert(k[j] == '*');
                let i = choose|i: int| 0 <= i < before.len() && before[i] == '*';
                assert(pattern[i] == '*');
            }
        }
    }
}

/// Shortening the runs of `*` in a pattern changes nothing about which URLs it
/// selects.
pub proof fn law_collapse_selects_the_same(pattern: Seq<char>, url: Seq<char>)
    ensures
        pattern_selects(collapsed(pattern), url) == pattern_selects(pattern, url),
{
    lemma_collapse_keeps_stars(pattern);
    let none = Seq::<char>::empty();
    lemma_collapse_keeps_matches(pattern, none, url);
    assert(collapsed(pattern) + none == collapsed(pattern));
    assert(pattern + none == pattern);
}

/// After shortening, no `*` stands beside another one.
pub proof fn law_collapsed_has_no_run(pattern: Seq<char>, i: int)
    requires
        0 <= i < collapsed(pattern).len() - 1,
    ensures
        !(collapsed(pattern)[i] == '*' && collapsed(pattern)[i + 1] == '*'),
    decreases pattern.len(),
{
    let before = pattern.drop_last();
    lemma_collapse_keeps_stars(before);
    if pattern.last() == '*' && before.len() > 0 && before.last() == '*' {
        law_collapsed_has_no_run(before, i);
    } else if i < collapsed(before).len() - 1 {
        law_collapsed_has_no_run(before, i);
    }
}

/// Shortening a second time changes nothing.
pub proof fn law_collapse_is_idempotent(pattern: Seq<char>)
    ensures
        collapsed(collapsed(pattern)) == collapsed(pattern),
    decreases pattern.len(),
{
    if pattern.len() > 0 {
        let before = pattern.drop_last();
        law_collapse_is_idempotent(before);
        if !(pattern.last() == '*' && before.len() > 0 && before.last() == '*') {
            lemma_collapse_keeps_stars(before);
            let k = collapsed(before);
            assert(collapsed(pattern) == k.push(pattern.last()));
            assert(k.push(pattern.last()).drop_last() == k);
            if k.len() > 0 {
                assert(before.len() > 0);
            }
        }
    }
}

/// The pattern `*` selects every URL.
pub proof fn law_star_selects_everything(url: Seq<char>)
    ensures
        pattern_selects(seq!['*'], url),
{
    let p = seq!['*'];
    assert(p[0] == '*');
    assert(p.skip(1) == Seq::<char>::empty());
    assert(url.skip(url.len() as int).len() == 0);
    assert(glob_matches(p.skip(1), url.skip(url.len() as int)));
}

/// A pattern that begins and ends with `*` and has no other one selects the URLs
/// that hold what stands between.
pub proof fn law_between_stars_is_substring(middle: Seq<char>, url: Seq<char>)
    requires
        !middle.contains('*'),
    ensures
        pattern_selects(seq!['*'] + middle + seq!['*'], url) == has_substring(url, middle),
{
    let p = seq!['*'] + middle + seq!['*'];
    let star = seq!['*'];
    assert(p[0] == '*');
    assert(p.skip(1) == middle + star);
    if glob_matches(p, url) {
        let k = choose|k: int| 0 <= k <= url.len() && glob_matches(p.skip(1), #[trigger] url.skip(k));
        lemma_literal_prefix(middle, star, url.skip(k));
        lemma_occurs_in_rest(url, middle, k, 0);
        assert(occurs_at(url, middle, k));
    }
    if has_substring(url, middle) {
        let k = choose|k: int| occurs_at(url, middle, k);
        lemma_occurs_in_rest(url, middle, k, 0);
        lemma_literal_prefix(middle, star, url.skip(k));
        law_star_selects_everything(url.skip(k).skip(middle.len() as int));
        assert(glob_matches(p.skip(1), url.skip(k)));
    }
}

} // verus!
