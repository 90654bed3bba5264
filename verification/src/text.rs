//! Text as sequences of characters: the operations on IRC lines and
//! parameters that the rest of the library is stated over.

use vstd::prelude::*;

verus! {

/// `String::push` appends one character.
pub assume_specification[ String::push ](s: &mut String, c: char)
    ensures
        final(s)@ == old(s)@.push(c),
;

/// The texts that a vector of strings holds, in order.
pub open spec fn texts(v: Seq<String>) -> Seq<Seq<char>> {
    Seq::new(v.len(), |i: int| v[i]@)
}

/// How many characters of `s` stand before the first `c` (all of them where
/// `c` does not occur).
pub open spec fn first_index(s: Seq<char>, c: char) -> int
    decreases s.len(),
{
    if s.len() == 0 || s[0] == c {
        0
    } else {
        1 + first_index(s.skip(1), c)
    }
}

/// The parts written one after another with `sep` between neighbours.
pub open spec fn join_with(parts: Seq<Seq<char>>, sep: char) -> Seq<char>
    decreases parts.len(),
{
    if parts.len() == 0 {
        Seq::empty()
    } else if parts.len() == 1 {
        parts[0]
    } else {
        join_with(parts.drop_last(), sep).push(sep) + parts.last()
    }
}

/// `s` with every occurrence of `c` taken out.
pub open spec fn without(s: Seq<char>, c: char) -> Seq<char> {
    s.filter(|x: char| x != c)
}

/// The characters that count as white space when a text is trimmed.
pub open spec fn is_space(c: char) -> bool {
    let n = c as u32;
    ||| 0x09 <= n <= 0x0d
    ||| n == 0x20
    ||| n == 0x85
    ||| n == 0xa0
    ||| n == 0x1680
    ||| 0x2000 <= n <= 0x200a
    ||| n == 0x2028
    ||| n == 0x2029
    ||| n == 0x202f
    ||| n == 0x205f
    ||| n == 0x3000
}

/// How many leading characters of `s` are white space.
pub open spec fn leading_space(s: Seq<char>) -> int
    decreases s.len(),
{
    if s.len() > 0 && is_space(s[0]) {
        1 + leading_space(s.skip(1))
    } else {
        0
    }
}

/// How many trailing characters of `s` are white space.
pub open spec fn trailing_space(s: Seq<char>) -> int
    decreases s.len(),
{
    if s.len() > 0 && is_space(s.last()) {
        1 + trailing_space(s.drop_last())
    } else {
        0
    }
}

/// How many leading characters of `s` are not white space.
pub open spec fn leading_word(s: Seq<char>) -> int
    decreases s.len(),
{
    if s.len() > 0 && !is_space(s[0]) {
        1 + leading_word(s.skip(1))
    } else {
        0
    }
}

/// The words of `s`: its longest runs of characters that are not white
/// space, in order. No word is empty, and white space of any length or kind
/// between two words, before the first or after the last gives none.
pub open spec fn tokens(s: Seq<char>) -> Seq<Seq<char>>
    decreases s.len(),
    via tokens_decreases
{
    let rest = s.skip(leading_space(s));
    let n = leading_word(rest);
    if n > 0 {
        seq![rest.take(n)] + tokens(rest.skip(n))
    } else {
        Seq::empty()
    }
}

#[via_fn]
proof fn tokens_decreases(s: Seq<char>) {
    lemma_leading_bounds(s);
    lemma_leading_bounds(s.skip(leading_space(s)));
}

/// `s` without its leading and trailing white space.
pub open spec fn trimmed(s: Seq<char>) -> Seq<char> {
    let rest = s.skip(leading_space(s));
    rest.take(rest.len() - trailing_space(rest))
}

/// Whether `s` begins with the characters of `prefix`.
pub open spec fn starts_with(s: Seq<char>, prefix: Seq<char>) -> bool {
    prefix.len() <= s.len() && s.take(prefix.len() as int) == prefix
}

/// The character that writes the digit `d`.
pub open spec fn digit_char(d: int) -> char {
    if d == 0 {
        '0'
    } else if d == 1 {
        '1'
    } else if d == 2 {
        '2'
    } else if d == 3 {
        '3'
    } else if d == 4 {
        '4'
    } else if d == 5 {
        '5'
    } else if d == 6 {
        '6'
    } else if d == 7 {
        '7'
    } else if d == 8 {
        '8'
    } else {
        '9'
    }
}

/// The decimal numeral of `n`, without leading zeros.
pub open spec fn decimal(n: nat) -> Seq<char>
    decreases n,
{
    if n < 10 {
        seq![digit_char(n as int)]
    } else {
        decimal(n / 10).push(digit_char((n % 10) as int))
    }
}

/// The leading runs of a text are no longer than the text.
pub proof fn lemma_leading_bounds(s: Seq<char>)
    ensures
        0 <= leading_space(s) <= s.len(),
        0 <= leading_word(s) <= s.len(),
    decreases s.len(),
{
    if s.len() > 0 {
        lemma_leading_bounds(s.skip(1));
    }
}

/// No character of the leading word is white space.
pub proof fn lemma_leading_word_chars(s: Seq<char>)
    ensures
        forall|k: int| 0 <= k < leading_word(s) ==> !is_space(#[trigger] s[k]),
    decreases s.len(),
{
    lemma_leading_bounds(s);
    if s.len() > 0 && !is_space(s[0]) {
        lemma_leading_word_chars(s.skip(1));
        assert forall|k: int| 0 <= k < leading_word(s) implies !is_space(#[trigger] s[k]) by {
            if k > 0 {
                assert(s.skip(1)[k - 1] == s[k]);
            }
        }
    }
}

/// The leading white space ends at a character that is none, or at the
/// end; the leading word at white space, or at the end.
pub proof fn lemma_leading_ends(s: Seq<char>)
    ensures
        forall|k: int| 0 <= k < leading_space(s) ==> is_space(#[trigger] s[k]),
        leading_space(s) < s.len() ==> !is_space(s[leading_space(s)]),
        leading_word(s) < s.len() ==> is_space(s[leading_word(s)]),
    decreases s.len(),
{
    lemma_leading_bounds(s);
    if s.len() > 0 {
        lemma_leading_ends(s.skip(1));
        lemma_leading_bounds(s.skip(1));
        if is_space(s[0]) {
            assert forall|k: int| 0 <= k < leading_space(s) implies is_space(#[trigger] s[k]) by {
                if k > 0 {
                    assert(s.skip(1)[k - 1] == s[k]);
                }
            }
            if leading_space(s) < s.len() {
                assert(s.skip(1)[leading_space(s.skip(1))] == s[leading_space(s)]);
            }
        } else {
            if leading_word(s) < s.len() {
                assert(s.skip(1)[leading_word(s.skip(1))] == s[leading_word(s)]);
            }
        }
    }
}

/// A text without white space that is not empty is its own single word.
pub proof fn lemma_tokens_of_word(w: Seq<char>)
    requires
        w.len() > 0,
        forall|k: int| 0 <= k < w.len() ==> !is_space(w[k]),
    ensures
        tokens(w) == seq![w],
{
    lemma_leading_space_is(w, 0);
    assert(w.skip(0) == w);
    lemma_leading_word_is(w, w.len() as int);
    assert(w.take(w.len() as int) == w);
    let end = w.skip(w.len() as int);
    assert(end.len() == 0);
    assert(leading_space(end) == 0);
    assert(end.skip(0) == end);
    assert(leading_word(end) == 0);
    assert(tokens(end) == Seq::<Seq<char>>::empty());
    assert(seq![w] + Seq::<Seq<char>>::empty() == seq![w]);
}

/// The words of two texts with white space between them are the words of
/// the first and then the words of the second.
pub proof fn lemma_tokens_joined(a: Seq<char>, c: char, b: Seq<char>)
    requires
        is_space(c),
    ensures
        tokens(a.push(c) + b) == tokens(a) + tokens(b),
    decreases a.len(),
{
    let s = a.push(c) + b;
    lemma_leading_bounds(a);
    lemma_leading_ends(a);
    let ls = leading_space(a);
    let rest = a.skip(ls);
    lemma_leading_bounds(rest);
    lemma_leading_ends(rest);
    lemma_leading_word_chars(rest);
    let n = leading_word(rest);
    if ls == a.len() {
        // Nothing but white space before `b`.
        assert(n == 0);
        assert(tokens(a) == Seq::<Seq<char>>::empty());
        lemma_leading_bounds(b);
        lemma_leading_ends(b);
        let lb = leading_space(b);
        assert forall|k: int| 0 <= k < a.len() + 1 + lb implies is_space(s[k]) by {
            if k < a.len() {
                assert(s[k] == a[k]);
            } else if k == a.len() {
            } else {
                assert(s[k] == b[k - a.len() - 1]);
            }
        }
        if a.len() + 1 + lb < s.len() {
            assert(s[a.len() + 1 + lb] == b[lb]);
        }
        lemma_leading_space_is(s, a.len() + 1 + lb);
        assert(s.skip(a.len() + 1 + lb) == b.skip(lb));
        assert(tokens(s) == tokens(b));
        assert(tokens(a) + tokens(b) == tokens(b));
    } else {
        assert(n > 0);
        assert forall|k: int| 0 <= k < ls implies is_space(s[k]) by {
            assert(s[k] == a[k]);
        }
        assert(s[ls] == a[ls]);
        lemma_leading_space_is(s, ls);
        let after = rest.skip(n);
        let srest = s.skip(ls);
        assert(srest == rest.push(c) + b);
        assert forall|k: int| 0 <= k < n implies !is_space(srest[k]) by {
            assert(srest[k] == rest[k]);
        }
        if n < rest.len() {
            assert(srest[n] == rest[n]);
        } else {
            assert(srest[n] == c);
        }
        lemma_leading_word_is(srest, n);
        assert(srest.take(n) == rest.take(n));
        assert(srest.skip(n) == after.push(c) + b);
        lemma_tokens_joined(after, c, b);
        assert(seq![rest.take(n)] + (tokens(after) + tokens(b)) == (seq![rest.take(n)] + tokens(
            after,
        )) + tokens(b));
    }
}

/// Every word of a text has at least one character, and none that is
/// white space.
pub proof fn lemma_tokens_are_words(s: Seq<char>)
    ensures
        forall|i: int|
            0 <= i < tokens(s).len() ==> (#[trigger] tokens(s)[i]).len() > 0 && forall|k: int|
                0 <= k < tokens(s)[i].len() ==> !is_space(#[trigger] tokens(s)[i][k]),
    decreases s.len(),
{
    lemma_leading_bounds(s);
    let rest = s.skip(leading_space(s));
    lemma_leading_bounds(rest);
    let n = leading_word(rest);
    if n > 0 {
        lemma_leading_word_chars(rest);
        lemma_tokens_are_words(rest.skip(n));
        let first = rest.take(n);
        let later = tokens(rest.skip(n));
        assert forall|i: int| 0 <= i < tokens(s).len() implies (#[trigger] tokens(s)[i]).len() > 0
            && forall|k: int|
            0 <= k < tokens(s)[i].len() ==> !is_space(#[trigger] tokens(s)[i][k]) by {
            if i == 0 {
                assert(tokens(s)[0] == first);
                assert forall|k: int| 0 <= k < first.len() implies !is_space(
                    #[trigger] first[k],
                ) by {
                    assert(first[k] == rest[k]);
                }
            } else {
                assert(tokens(s)[i] == later[i - 1]);
            }
        }
    }
}

/// The first occurrence is where a scan from the left stops.
pub proof fn lemma_first_index_is(s: Seq<char>, c: char, n: int)
    requires
        0 <= n <= s.len(),
        forall|k: int| 0 <= k < n ==> s[k] != c,
        n < s.len() ==> s[n] == c,
    ensures
        first_index(s, c) == n,
    decreases s.len(),
{
    if s.len() == 0 || s[0] == c {
    } else {
        assert forall|k: int| 0 <= k < n - 1 implies s.skip(1)[k] != c by {}
        lemma_first_index_is(s.skip(1), c, n - 1);
    }
}

pub proof fn lemma_leading_space_is(s: Seq<char>, n: int)
    requires
        0 <= n <= s.len(),
        forall|k: int| 0 <= k < n ==> is_space(s[k]),
        n < s.len() ==> !is_space(s[n]),
    ensures
        leading_space(s) == n,
    decreases s.len(),
{
    if s.len() > 0 && is_space(s[0]) {
        assert forall|k: int| 0 <= k < n - 1 implies is_space(s.skip(1)[k]) by {}
        lemma_leading_space_is(s.skip(1), n - 1);
    }
}

pub proof fn lemma_leading_word_is(s: Seq<char>, n: int)
    requires
        0 <= n <= s.len(),
        forall|k: int| 0 <= k < n ==> !is_space(s[k]),
        n < s.len() ==> is_space(s[n]),
    ensures
        leading_word(s) == n,
    decreases s.len(),
{
    if s.len() > 0 && !is_space(s[0]) {
        assert forall|k: int| 0 <= k < n - 1 implies !is_space(s.skip(1)[k]) by {
            assert(s.skip(1)[k] == s[k + 1]);
        }
        lemma_leading_word_is(s.skip(1), n - 1);
    }
}

pub proof fn lemma_trailing_space_is(s: Seq<char>, n: int)
    requires
        0 <= n <= s.len(),
        forall|k: int| s.len() - n <= k < s.len() ==> is_space(s[k]),
        n < s.len() ==> !is_space(s[s.len() - n - 1]),
    ensures
        trailing_space(s) == n,
    decreases s.len(),
{
    if s.len() > 0 && is_space(s.last()) {
        lemma_trailing_space_is(s.drop_last(), n - 1);
    }
}

/// The characters of a string, one by one.
pub fn chars_of(s: &str) -> (v: Vec<char>)
    ensures
        v@ == s@,
{
    let mut v: Vec<char> = Vec::new();
    let it = s.chars();
    for c in iter: it
        invariant
            v@ == iter.history(),
            iter.seq() == s@,
    {
        v.push(c);
    }
    v
}

/// The string made of the characters `v[from..to]`.
pub fn slice_text(v: &Vec<char>, from: usize, to: usize) -> (s: String)
    requires
        from <= to <= v.len(),
    ensures
        s@ == v@.subrange(from as int, to as int),
{
    let mut s = String::new();
    let mut i: usize = from;
    while i < to
        invariant
            from <= i <= to <= v.len(),
            s@ == v@.subrange(from as int, i as int),
        decreases to - i,
    {
        s.push(v[i]);
        i += 1;
    }
    s
}

/// Whether two strings hold the same text.
pub fn same_text(a: &str, b: &str) -> (r: bool)
    ensures
        r == (a@ == b@),
{
    a.to_owned() == b.to_owned()
}

/// Whether `s` begins with the character `c`.
pub fn begins_with_char(s: &str, c: char) -> (r: bool)
    ensures
        r == (s@.len() > 0 && s@[0] == c),
{
    let mut it = s.chars();
    match it.next() {
        Some(first) => first == c,
        None => false,
    }
}

/// Whether `s` begins with the characters of `prefix`.
pub fn begins_with(s: &str, prefix: &str) -> (r: bool)
    ensures
        r == starts_with(s@, prefix@),
{
    let sv = chars_of(s);
    let pv = chars_of(prefix);
    if pv.len() > sv.len() {
        return false;
    }
    let mut i: usize = 0;
    while i < pv.len()
        invariant
            i <= pv.len() <= sv.len(),
            sv@ == s@,
            pv@ == prefix@,
            sv@.take(i as int) == pv@.take(i as int),
        decreases pv.len() - i,
    {
        if sv[i] != pv[i] {
            return false;
        }
        i += 1;
    }
    assert(pv@.take(pv.len() as int) == pv@);
    true
}

/// The index of the first `c` at or after `start`, or the length of `v`.
pub fn find_from(v: &Vec<char>, start: usize, c: char) -> (j: usize)
    requires
        start <= v.len(),
    ensures
        j == start + first_index(v@.skip(start as int), c),
        start <= j <= v.len(),
{
    let mut j: usize = start;
    while j < v.len() && v[j] != c
        invariant
            start <= j <= v.len(),
            forall|k: int| start <= k < j ==> v@[k] != c,
        decreases v.len() - j,
    {
        j += 1;
    }
    proof {
        lemma_first_index_is(v@.skip(start as int), c, j - start);
    }
    j
}

/// The words of `s`: see `tokens`.
pub fn words(s: &str) -> (parts: Vec<String>)
    ensures
        texts(parts@) == tokens(s@),
{
    let v = chars_of(s);
    let mut parts: Vec<String> = Vec::new();
    let mut start: usize = 0;
    assert(v@.skip(0) == v@);
    assert(texts(parts@) + tokens(v@) == tokens(v@));
    loop
        invariant
            v@ == s@,
            start <= v.len(),
            tokens(s@) == texts(parts@) + tokens(v@.skip(start as int)),
        decreases v.len() - start,
    {
        let mut a: usize = start;
        while a < v.len() && char_is_space(v[a])
            invariant
                start <= a <= v.len(),
                forall|k: int| start <= k < a ==> is_space(v@[k]),
            decreases v.len() - a,
        {
            a += 1;
        }
        let mut b: usize = a;
        while b < v.len() && !char_is_space(v[b])
            invariant
                a <= b <= v.len(),
                forall|k: int| a <= k < b ==> !is_space(v@[k]),
            decreases v.len() - b,
        {
            b += 1;
        }
        let ghost tail = v@.skip(start as int);
        let ghost rest = tail.skip(a - start);
        proof {
            lemma_leading_space_is(tail, a - start);
            assert(rest == v@.skip(a as int));
            lemma_leading_word_is(rest, b - a);
            assert(rest.take(b - a) == v@.subrange(a as int, b as int));
            assert(rest.skip(b - a) == v@.skip(b as int));
        }
        if b == a {
            assert(texts(parts@) + Seq::<Seq<char>>::empty() == texts(parts@));
            return parts;
        }
        let piece = slice_text(&v, a, b);
        let ghost before = texts(parts@);
        parts.push(piece);
        assert(texts(parts@) == before + seq![piece@]);
        assert(before + (seq![piece@] + tokens(v@.skip(b as int))) == (before + seq![piece@])
            + tokens(v@.skip(b as int)));
        start = b;
    }
}

/// Writes the parts one after another with `sep` between neighbours.
pub fn join(parts: &Vec<String>, sep: char) -> (s: String)
    ensures
        s@ == join_with(texts(parts@), sep),
{
    let mut s = String::new();
    let mut i: usize = 0;
    while i < parts.len()
        invariant
            i <= parts.len(),
            s@ == join_with(texts(parts@).take(i as int), sep),
        decreases parts.len() - i,
    {
        let ghost done = texts(parts@).take(i as int);
        let ghost next = texts(parts@).take(i + 1);
        assert(next.drop_last() == done);
        if i > 0 {
            s.push(sep);
        }
        s.append(parts[i].as_str());
        i += 1;
    }
    assert(texts(parts@).take(parts.len() as int) == texts(parts@));
    s
}

/// `s` with every occurrence of `c` taken out.
pub fn remove_char(s: &str, c: char) -> (r: String)
    ensures
        r@ == without(s@, c),
{
    let v = chars_of(s);
    let mut r = String::new();
    let mut i: usize = 0;
    while i < v.len()
        invariant
            i <= v.len(),
            r@ == without(v@.take(i as int), c),
        decreases v.len() - i,
    {
        proof {
            let t = v@.take(i + 1);
            assert(t.drop_last() == v@.take(i as int));
            reveal(Seq::filter);
        }
        if v[i] != c {
            r.push(v[i]);
        }
        i += 1;
    }
    assert(v@.take(v.len() as int) == v@);
    r
}

/// Whether `c` counts as white space when a text is trimmed.
pub fn char_is_space(c: char) -> (r: bool)
    ensures
        r == is_space(c),
{
    let n: u32 = c as u32;
    (0x09 <= n && n <= 0x0d) || n == 0x20 || n == 0x85 || n == 0xa0 || n == 0x1680 || (0x2000
        <= n && n <= 0x200a) || n == 0x2028 || n == 0x2029 || n == 0x202f || n == 0x205f || n
        == 0x3000
}

/// `v[from..]` without its leading and trailing white space.
pub fn trim_from(v: &Vec<char>, from: usize) -> (r: String)
    requires
        from <= v.len(),
    ensures
        r@ == trimmed(v@.skip(from as int)),
{
    let ghost s = v@.skip(from as int);
    let mut a: usize = from;
    while a < v.len() && char_is_space(v[a])
        invariant
            from <= a <= v.len(),
            forall|k: int| from <= k < a ==> is_space(v@[k]),
        decreases v.len() - a,
    {
        a += 1;
    }
    let mut b: usize = v.len();
    while b > a && char_is_space(v[b - 1])
        invariant
            a <= b <= v.len(),
            forall|k: int| b <= k < v.len() ==> is_space(v@[k]),
        decreases b,
    {
        b -= 1;
    }
    proof {
        lemma_leading_space_is(s, a - from);
        let rest = s.skip(a - from);
        lemma_trailing_space_is(rest, v.len() - b);
    }
    slice_text(v, a, b)
}

/// `s` without its leading and trailing white space.
pub fn trim(s: &str) -> (r: String)
    ensures
        r@ == trimmed(s@),
{
    let v = chars_of(s);
    assert(v@.skip(0) == v@);
    trim_from(&v, 0)
}

/// The decimal numeral of `n`.
pub fn decimal_text(n: u32) -> (s: String)
    ensures
        s@ == decimal(n as nat),
    decreases n,
{
    let d: u32 = n % 10;
    let c: char = if d == 0 {
        '0'
    } else if d == 1 {
        '1'
    } else if d == 2 {
        '2'
    } else if d == 3 {
        '3'
    } else if d == 4 {
        '4'
    } else if d == 5 {
        '5'
    } else if d == 6 {
        '6'
    } else if d == 7 {
        '7'
    } else if d == 8 {
        '8'
    } else {
        '9'
    };
    if n < 10 {
        let mut s = String::new();
        s.push(c);
        s
    } else {
        let mut s = decimal_text(n / 10);
        s.push(c);
        s
    }
}

/// A copy of the strings of `v`.
pub fn copy_texts(v: &Vec<String>) -> (r: Vec<String>)
    ensures
        texts(r@) == texts(v@),
{
    let mut r: Vec<String> = Vec::new();
    let mut i: usize = 0;
    while i < v.len()
        invariant
            i <= v.len(),
            r@.len() == i,
            forall|k: int| 0 <= k < i ==> r@[k]@ == v@[k]@,
        decreases v.len() - i,
    {
        r.push(v[i].clone());
        i += 1;
    }
    r
}

/// `head` followed by `tail`.
pub fn followed_by(head: &str, tail: &str) -> (s: String)
    ensures
        s@ == head@ + tail@,
{
    let mut s = head.to_owned();
    s.append(tail);
    s
}

} // verus!
