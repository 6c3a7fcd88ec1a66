//! Character-level string helpers and their specifications.

use vstd::prelude::*;

verus! {

/// Appends one character to a string (`String::push`).
#[verifier::external_body]
pub(crate) fn push_char(s: &mut String, c: char)
    ensures
        final(s)@ == old(s)@.push(c),
{
    s.push(c);
}

/// Whether a character has the Unicode `White_Space` property: tab through
/// carriage return, the space, next line, no-break space, the Ogham space
/// mark, the en quad through the hair space, the line and paragraph
/// separators, the narrow no-break space, the medium mathematical space, and
/// the ideographic space.
pub open spec fn is_whitespace_spec(c: char) -> bool {
    let n = c as u32;
    ||| 0x09 <= n <= 0x0d
    ||| n == 0x20
    ||| n == 0x85
    ||| n == 0xa0
    ||| n == 0x1680
    ||| 0x2000 <= n <= 0x200a
    ||| n == 0x2028
    ||| n == 0x2029
    ||| n == 0x202f
    ||| n == 0x205f
    ||| n == 0x3000
}

/// Whether a character is whitespace (`char::is_whitespace`), which its
/// documentation defines as having the Unicode `White_Space` property.
#[verifier::external_body]
pub(crate) fn is_whitespace(c: char) -> (r: bool)
    ensures
        r == is_whitespace_spec(c),
{
    c.is_whitespace()
}

/// The characters of a string, in order.
pub fn chars_of(s: &str) -> (r: Vec<char>)
    ensures
        r@ == s@,
{
    let mut r: Vec<char> = Vec::new();
    for c in it: s.chars()
        invariant
            r@ == it.seq().take(it.index() as int),
    {
        r.push(c);
    }
    r
}

/// A string made of the given characters, in order.
pub fn string_from_chars(chars: &[char]) -> (r: String)
    ensures
        r@ == chars@,
{
    let mut r = String::new();
    let n = chars.len();
    for i in 0..n
        invariant
            n == chars@.len(),
            r@ == chars@.take(i as int),
    {
        push_char(&mut r, chars[i]);
        assert(chars@.take(i + 1) == chars@.take(i as int).push(chars@[i as int]));
    }
    assert(chars@.take(n as int) == chars@);
    r
}

/// A string made of the characters `chars[start..end]`.
pub fn string_from_range(chars: &[char], start: usize, end: usize) -> (r: String)
    requires
        start <= end <= chars@.len(),
    ensures
        r@ == chars@.subrange(start as int, end as int),
{
    let mut r = String::new();
    let mut i = start;
    while i < end
        invariant
            start <= i <= end <= chars@.len(),
            r@ == chars@.subrange(start as int, i as int),
        decreases end - i,
    {
        push_char(&mut r, chars[i]);
        assert(chars@.subrange(start as int, i + 1) == chars@.subrange(start as int, i as int).push(
            chars@[i as int],
        ));
        i = i + 1;
    }
    r
}

/// A string holding one character.
pub fn char_string(c: char) -> (r: String)
    ensures
        r@ == seq![c],
{
    let mut r = String::new();
    push_char(&mut r, c);
    r
}

/// A copy of a string slice.
pub fn copy_str(s: &str) -> (r: String)
    ensures
        r@ == s@,
{
    s.to_owned()
}

/// Appends a string slice.
pub fn append_str(s: &mut String, t: &str)
    ensures
        final(s)@ == old(s)@ + t@,
{
    let chars = chars_of(t);
    let n = chars.len();
    let ghost start = s@;
    for i in 0..n
        invariant
            n == chars@.len(),
            chars@ == t@,
            s@ == start + t@.take(i as int),
    {
        push_char(s, chars[i]);
        assert(t@.take(i + 1) == t@.take(i as int).push(t@[i as int]));
    }
    assert(t@.take(n as int) == t@);
}

/// The concatenation of two string slices.
pub fn concat(a: &str, b: &str) -> (r: String)
    ensures
        r@ == a@ + b@,
{
    let mut r = copy_str(a);
    append_str(&mut r, b);
    r
}

/// Whether two string slices hold the same characters.
pub fn str_eq(a: &str, b: &str) -> (r: bool)
    ensures
        r == (a@ == b@),
{
    let x = chars_of(a);
    let y = chars_of(b);
    if x.len() != y.len() {
        return false;
    }
    let n = x.len();
    for i in 0..n
        invariant
            n == x@.len() == y@.len(),
            x@ == a@,
            y@ == b@,
            forall|j: int| 0 <= j < i ==> x@[j] == y@[j],
    {
        if x[i] != y[i] {
            return false;
        }
    }
    assert(x@ =~= y@);
    true
}

// ---------------------------------------------------------------------------
// Splitting on a separator.
// ---------------------------------------------------------------------------

/// The pieces of `s` between occurrences of `sep`, as `str::split` yields
/// them: always at least one piece, empty pieces included.
pub open spec fn split_on(s: Seq<char>, sep: char) -> Seq<Seq<char>>
    decreases s.len(),
{
    if s.len() == 0 {
        seq![Seq::<char>::empty()]
    } else {
        let init = split_on(s.drop_last(), sep);
        if s.last() == sep {
            init.push(Seq::<char>::empty())
        } else {
            init.update(init.len() - 1, init.last().push(s.last()))
        }
    }
}

/// The pieces joined back together with `sep` between them.
pub open spec fn join_with(pieces: Seq<Seq<char>>, sep: char) -> Seq<char>
    decreases pieces.len(),
{
    if pieces.len() == 0 {
        Seq::<char>::empty()
    } else if pieces.len() == 1 {
        pieces[0]
    } else {
        join_with(pieces.drop_last(), sep).push(sep) + pieces.last()
    }
}

proof fn lemma_split_on_len(s: Seq<char>, sep: char)
    ensures
        split_on(s, sep).len() >= 1,
    decreases s.len(),
{
    if s.len() > 0 {
        lemma_split_on_len(s.drop_last(), sep);
    }
}

/// Splitting is undone by joining, and no piece holds the separator: the
/// pieces are exactly the maximal separator-free runs of the input.
pub proof fn law_split_join(s: Seq<char>, sep: char)
    ensures
        split_on(s, sep).len() >= 1,
        join_with(split_on(s, sep), sep) == s,
        forall|i: int| 0 <= i < split_on(s, sep).len() ==> !split_on(s, sep)[i].contains(sep),
    decreases s.len(),
{
    if s.len() == 0 {
    } else {
        let init = split_on(s.drop_last(), sep);
        law_split_join(s.drop_last(), sep);
        let p = split_on(s, sep);
        if s.last() == sep {
            assert(p.drop_last() == init);
            assert(join_with(p, sep) == join_with(init, sep).push(sep) + Seq::<char>::empty());
            assert(s == s.drop_last().push(sep));
            assert forall|i: int| 0 <= i < p.len() implies !p[i].contains(sep) by {
                if i < p.len() - 1 {
                    assert(p[i] == init[i]);
                }
            }
        } else {
            let last = init.last().push(s.last());
            assert(p == init.drop_last().push(last));
            assert(s == s.drop_last().push(s.last()));
            if init.len() == 1 {
                assert(join_with(p, sep) == last);
                assert(join_with(init, sep) == init[0]);
            } else {
                assert(p.drop_last() == init.drop_last());
                assert(join_with(p, sep) == join_with(init.drop_last(), sep).push(sep) + last);
                assert(join_with(init, sep) == join_with(init.drop_last(), sep).push(sep)
                    + init.last());
                assert((join_with(init.drop_last(), sep).push(sep) + init.last()).push(s.last())
                    == join_with(init.drop_last(), sep).push(sep) + last);
            }
            assert forall|i: int| 0 <= i < p.len() implies !p[i].contains(sep) by {
                if i < p.len() - 1 {
                    assert(p[i] == init[i]);
                } else {
                    assert(p[i] == last);
                    assert(!init.last().contains(sep));
                    if last.contains(sep) {
                        let k = choose|k: int| 0 <= k < last.len() && last[k] == sep;
                        if k < last.len() - 1 {
                            assert(init.last()[k] == sep);
                        }
                    }
                }
            }
        }
    }
}

/// The first piece of a split is the text before the first separator: a
/// prefix without the separator, followed by the separator unless it is the
/// whole text, in which case it is the only piece.
pub proof fn lemma_split_first(s: Seq<char>, sep: char)
    ensures
        split_on(s, sep).len() >= 1,
        split_on(s, sep)[0].len() <= s.len(),
        split_on(s, sep)[0] == s.take(split_on(s, sep)[0].len() as int),
        !split_on(s, sep)[0].contains(sep),
        split_on(s, sep)[0].len() < s.len() ==> s[split_on(s, sep)[0].len() as int] == sep,
        (split_on(s, sep).len() == 1) == (split_on(s, sep)[0].len() == s.len()),
    decreases s.len(),
{
    lemma_split_on_len(s, sep);
    if s.len() > 0 {
        let t = s.drop_last();
        let q = split_on(t, sep);
        lemma_split_first(t, sep);
        lemma_split_on_len(t, sep);
        let q0 = q[0];
        let p = split_on(s, sep);
        if s.last() == sep {
            assert(p[0] == q0);
            assert(s.take(q0.len() as int) =~= t.take(q0.len() as int));
            if q0.len() < t.len() {
                assert(s[q0.len() as int] == t[q0.len() as int]);
            }
        } else {
            if q.len() == 1 {
                assert(q0 == t);
                assert(p[0] == q0.push(s.last()));
                assert(s == t.push(s.last()));
                assert(p[0] =~= s);
                assert(s.take(s.len() as int) =~= s);
                if p[0].contains(sep) {
                    let k = choose|k: int| 0 <= k < p[0].len() && p[0][k] == sep;
                    if k < q0.len() {
                        assert(q0[k] == sep);
                    }
                }
            } else {
                assert(p[0] == q0);
                assert(s.take(q0.len() as int) =~= t.take(q0.len() as int));
                assert(s[q0.len() as int] == t[q0.len() as int]);
            }
        }
    }
}

/// ASCII letters are not whitespace.
pub proof fn lemma_ascii_letter_not_whitespace(c: char)
    requires
        ('a' <= c && c <= 'z') || ('A' <= c && c <= 'Z'),
    ensures
        !is_whitespace_spec(c),
{
}

/// Whether `s` holds a whitespace character.
pub open spec fn has_whitespace(s: Seq<char>) -> bool {
    exists|i: int| 0 <= i < s.len() && is_whitespace_spec(#[trigger] s[i])
}

/// Whether a string holds a whitespace character.
pub fn contains_whitespace(s: &str) -> (r: bool)
    ensures
        r == has_whitespace(s@),
{
    let chars = chars_of(s);
    let n = chars.len();
    for i in 0..n
        invariant
            n == chars@.len(),
            chars@ == s@,
            forall|j: int| 0 <= j < i ==> !is_whitespace_spec(#[trigger] s@[j]),
    {
        if is_whitespace(chars[i]) {
            assert(is_whitespace_spec(s@[i as int]));
            return true;
        }
    }
    false
}

/// The pieces of a string between occurrences of `sep` (`str::split`).
pub fn split_str(s: &str, sep: char) -> (r: Vec<String>)
    ensures
        r@.len() == split_on(s@, sep).len(),
        forall|i: int| 0 <= i < r@.len() ==> #[trigger] r@[i]@ == split_on(s@, sep)[i],
{
    let chars = chars_of(s);
    let n = chars.len();
    let mut pieces: Vec<String> = Vec::new();
    let mut cur = String::new();
    for i in 0..n
        invariant
            n == chars@.len(),
            chars@ == s@,
            pieces@.len() + 1 == split_on(s@.take(i as int), sep).len(),
            forall|j: int| 0 <= j < pieces@.len() ==> #[trigger] pieces@[j]@ == split_on(
                s@.take(i as int),
                sep,
            )[j],
            cur@ == split_on(s@.take(i as int), sep).last(),
    {
        proof {
            lemma_split_on_len(s@.take(i as int), sep);
            assert(s@.take(i + 1).drop_last() == s@.take(i as int));
        }
        let c = chars[i];
        if c == sep {
            let done = cur;
            pieces.push(done);
            cur = String::new();
        } else {
            push_char(&mut cur, c);
        }
    }
    proof {
        lemma_split_on_len(s@, sep);
        assert(s@.take(n as int) == s@);
    }
    pieces.push(cur);
    pieces
}

/// `s` without one trailing carriage return, if it has one.
pub open spec fn strip_cr(s: Seq<char>) -> Seq<char> {
    if s.len() > 0 && s.last() == '\r' {
        s.drop_last()
    } else {
        s
    }
}

/// The lines of `s` as `str::lines` yields them: pieces between line feeds,
/// a carriage return before a line feed dropped, and no final empty line.
pub open spec fn lines_of(s: Seq<char>) -> Seq<Seq<char>> {
    let p = split_on(s, '\n');
    if p.last().len() == 0 {
        p.drop_last().map_values(|l: Seq<char>| strip_cr(l))
    } else {
        p.drop_last().map_values(|l: Seq<char>| strip_cr(l)).push(p.last())
    }
}

/// The lines of a string (`str::lines`).
pub fn lines_str(s: &str) -> (r: Vec<String>)
    ensures
        r@.len() == lines_of(s@).len(),
        forall|i: int| 0 <= i < r@.len() ==> #[trigger] r@[i]@ == lines_of(s@)[i],
{
    let pieces = split_str(s, '\n');
    proof {
        lemma_split_on_len(s@, '\n');
    }
    let n = pieces.len();
    let mut r: Vec<String> = Vec::new();
    let ghost p = split_on(s@, '\n');
    let ghost stripped = p.drop_last().map_values(|l: Seq<char>| strip_cr(l));
    for i in 0..n - 1
        invariant
            n == pieces@.len() == p.len(),
            n >= 1,
            p == split_on(s@, '\n'),
            stripped == p.drop_last().map_values(|l: Seq<char>| strip_cr(l)),
            forall|j: int| 0 <= j < n ==> #[trigger] pieces@[j]@ == p[j],
            r@.len() == i,
            forall|j: int| 0 <= j < i ==> #[trigger] r@[j]@ == stripped[j],
    {
        let piece = &pieces[i];
        let chars = chars_of(piece.as_str());
        let len = chars.len();
        if len > 0 && chars[len - 1] == '\r' {
            r.push(string_from_range(&chars, 0, len - 1));
            proof {
                assert(chars@.subrange(0, len - 1) == chars@.drop_last());
            }
        } else {
            r.push(string_from_range(&chars, 0, len));
            proof {
                assert(chars@.subrange(0, len as int) == chars@);
            }
        }
    }
    let last = &pieces[n - 1];
    if last.as_str().is_empty() {
        proof {
            assert(r@.len() == lines_of(s@).len());
        }
    } else {
        r.push(copy_str(last.as_str()));
    }
    r
}

// ---------------------------------------------------------------------------
// Trimming.
// ---------------------------------------------------------------------------

/// The number of leading whitespace characters of `s`.
pub open spec fn leading_ws(s: Seq<char>) -> nat
    decreases s.len(),
{
    if s.len() > 0 && is_whitespace_spec(s[0]) {
        1 + leading_ws(s.drop_first())
    } else {
        0
    }
}

/// The number of trailing whitespace characters of `s`.
pub open spec fn trailing_ws(s: Seq<char>) -> nat
    decreases s.len(),
{
    if s.len() > 0 && is_whitespace_spec(s.last()) {
        1 + trailing_ws(s.drop_last())
    } else {
        0
    }
}

/// `s` without leading and trailing whitespace (`str::trim`).
pub open spec fn trim_spec(s: Seq<char>) -> Seq<char> {
    let a = leading_ws(s);
    let rest = s.skip(a as int);
    rest.take(rest.len() - trailing_ws(rest))
}


proof fn lemma_leading_ws_bound(s: Seq<char>)
    ensures
        leading_ws(s) <= s.len(),
        forall|i: int| 0 <= i < leading_ws(s) ==> is_whitespace_spec(#[trigger] s[i]),
        leading_ws(s) < s.len() ==> !is_whitespace_spec(s[leading_ws(s) as int]),
    decreases s.len(),
{
    if s.len() > 0 && is_whitespace_spec(s[0]) {
        lemma_leading_ws_bound(s.drop_first());
        assert forall|i: int| 0 <= i < leading_ws(s) implies is_whitespace_spec(#[trigger] s[i]) by {
            if i > 0 {
                assert(s[i] == s.drop_first()[i - 1]);
            }
        }
    }
}

proof fn lemma_trailing_ws_bound(s: Seq<char>)
    ensures
        trailing_ws(s) <= s.len(),
        forall|i: int|
            s.len() - trailing_ws(s) <= i < s.len() ==> is_whitespace_spec(#[trigger] s[i]),
        trailing_ws(s) < s.len() ==> !is_whitespace_spec(s[s.len() - trailing_ws(s) - 1]),
    decreases s.len(),
{
    if s.len() > 0 && is_whitespace_spec(s.last()) {
        lemma_trailing_ws_bound(s.drop_last());
        assert forall|i: int|
            s.len() - trailing_ws(s) <= i < s.len() implies is_whitespace_spec(#[trigger] s[i]) by {
            if i < s.len() - 1 {
                assert(s[i] == s.drop_last()[i]);
            }
        }
    }
}

/// Characterizes the leading-whitespace count: `k` is it exactly when the
/// first `k` characters are whitespace and the next one (if any) is not.
proof fn lemma_leading_ws_unique(s: Seq<char>, k: int)
    requires
        0 <= k <= s.len(),
        forall|i: int| 0 <= i < k ==> is_whitespace_spec(#[trigger] s[i]),
        k < s.len() ==> !is_whitespace_spec(s[k]),
    ensures
        leading_ws(s) == k,
    decreases s.len(),
{
    if k > 0 {
        assert(is_whitespace_spec(s[0]));
        assert forall|i: int| 0 <= i < k - 1 implies is_whitespace_spec(
            #[trigger] s.drop_first()[i],
        ) by {
            assert(s.drop_first()[i] == s[i + 1]);
        }
        if k - 1 < s.drop_first().len() {
            assert(s.drop_first()[k - 1] == s[k]);
        }
        lemma_leading_ws_unique(s.drop_first(), k - 1);
    }
}

/// Characterizes the trailing-whitespace count.
proof fn lemma_trailing_ws_unique(s: Seq<char>, k: int)
    requires
        0 <= k <= s.len(),
        forall|i: int| s.len() - k <= i < s.len() ==> is_whitespace_spec(#[trigger] s[i]),
        k < s.len() ==> !is_whitespace_spec(s[s.len() - k - 1]),
    ensures
        trailing_ws(s) == k,
    decreases s.len(),
{
    if k > 0 {
        assert(is_whitespace_spec(s[s.len() - 1]));
        assert forall|i: int| s.len() - 1 - (k - 1) <= i < s.len() - 1 implies is_whitespace_spec(
            #[trigger] s.drop_last()[i],
        ) by {
            assert(s.drop_last()[i] == s[i]);
        }
        if k - 1 < s.drop_last().len() {
            assert(s.drop_last()[s.len() - 1 - (k - 1) - 1] == s[s.len() - k - 1]);
        }
        lemma_trailing_ws_unique(s.drop_last(), k - 1);
    }
}

/// Facts about a trimmed string: it neither starts nor ends with whitespace.
pub proof fn lemma_trim_edges(s: Seq<char>)
    ensures
        trim_spec(s).len() > 0 ==> !is_whitespace_spec(trim_spec(s)[0]),
        trim_spec(s).len() > 0 ==> !is_whitespace_spec(trim_spec(s).last()),
        trim_spec(s).len() <= s.len(),
{
    let a = leading_ws(s);
    lemma_leading_ws_bound(s);
    let rest = s.skip(a as int);
    lemma_trailing_ws_bound(rest);
    let t = trim_spec(s);
    if t.len() > 0 {
        assert(t[0] == rest[0]);
        assert(rest[0] == s[a as int]);
        assert(t.last() == rest[rest.len() - trailing_ws(rest) - 1]);
    }
}

/// Where a trimmed string starts and ends in the untrimmed one.
pub open spec fn trim_bounds(s: Seq<char>) -> (int, int) {
    let a = leading_ws(s) as int;
    let rest = s.skip(a);
    (a, a + rest.len() - trailing_ws(rest))
}

/// A trimmed string is a piece of the untrimmed one.
pub proof fn lemma_trim_subrange(s: Seq<char>)
    ensures
        0 <= trim_bounds(s).0 <= trim_bounds(s).1 <= s.len(),
        trim_spec(s) == s.subrange(trim_bounds(s).0, trim_bounds(s).1),
{
    lemma_leading_ws_bound(s);
    let a = leading_ws(s) as int;
    let rest = s.skip(a);
    lemma_trailing_ws_bound(rest);
    assert(trim_spec(s) =~= s.subrange(trim_bounds(s).0, trim_bounds(s).1));
}

/// Trimming is idempotent: a trimmed string has nothing left to trim.
pub proof fn law_trim_idempotent(s: Seq<char>)
    ensures
        trim_spec(trim_spec(s)) == trim_spec(s),
{
    let t = trim_spec(s);
    lemma_trim_edges(s);
    lemma_leading_ws_unique(t, 0);
    assert(t.skip(0) == t);
    lemma_trailing_ws_unique(t, 0);
    assert(t.take(t.len() as int) == t);
}

/// `s` without leading and trailing whitespace (`str::trim`), as characters.
pub fn trim_chars(s: &str) -> (r: Vec<char>)
    ensures
        r@ == trim_spec(s@),
{
    let chars = chars_of(s);
    let n = chars.len();
    let mut a: usize = 0;
    while a < n && is_whitespace(chars[a])
        invariant
            n == chars@.len(),
            chars@ == s@,
            a <= n,
            forall|i: int| 0 <= i < a ==> is_whitespace_spec(#[trigger] s@[i]),
        decreases n - a,
    {
        a = a + 1;
    }
    proof {
        lemma_leading_ws_unique(s@, a as int);
    }
    let ghost rest = s@.skip(a as int);
    let mut b: usize = n;
    while b > a && is_whitespace(chars[b - 1])
        invariant
            n == chars@.len(),
            chars@ == s@,
            a <= b <= n,
            rest == s@.skip(a as int),
            forall|i: int| b <= i < n ==> is_whitespace_spec(#[trigger] s@[i]),
        decreases b - a,
    {
        b = b - 1;
    }
    proof {
        assert forall|i: int|
            rest.len() - (n - b) <= i < rest.len() implies is_whitespace_spec(#[trigger] rest[i]) by {
            assert(rest[i] == s@[i + a]);
        }
        if b > a {
            assert(rest[rest.len() - (n - b) - 1] == s@[b - 1]);
        }
        lemma_trailing_ws_unique(rest, n - b);
    }
    let mut r: Vec<char> = Vec::new();
    let mut i = a;
    while i < b
        invariant
            n == chars@.len(),
            chars@ == s@,
            a <= i <= b <= n,
            r@ == s@.subrange(a as int, i as int),
        decreases b - i,
    {
        r.push(chars[i]);
        assert(s@.subrange(a as int, i + 1) == s@.subrange(a as int, i as int).push(s@[i as int]));
        i = i + 1;
    }
    assert(rest.take(rest.len() - (n - b)) == s@.subrange(a as int, b as int));
    r
}

/// `s` without leading and trailing whitespace (`str::trim`).
pub fn trim_string(s: &str) -> (r: String)
    ensures
        r@ == trim_spec(s@),
{
    let chars = trim_chars(s);
    string_from_chars(&chars)
}

/// `s` without trailing whitespace (`str::trim_end`).
pub open spec fn trim_end_spec(s: Seq<char>) -> Seq<char> {
    s.take(s.len() - trailing_ws(s))
}

/// `s` without trailing whitespace (`str::trim_end`).
pub fn trim_end_string(s: &str) -> (r: String)
    ensures
        r@ == trim_end_spec(s@),
{
    let chars = chars_of(s);
    let n = chars.len();
    let mut b: usize = n;
    while b > 0 && is_whitespace(chars[b - 1])
        invariant
            n == chars@.len(),
            chars@ == s@,
            b <= n,
            forall|i: int| b <= i < n ==> is_whitespace_spec(#[trigger] s@[i]),
        decreases b,
    {
        b = b - 1;
    }
    proof {
        lemma_trailing_ws_unique(s@, n - b);
    }
    string_from_range(&chars, 0, b)
}

// ---------------------------------------------------------------------------
// Decimal numerals.
// ---------------------------------------------------------------------------

/// The ASCII digit for `d` (`0 <= d < 10`).
pub open spec fn digit_char(d: nat) -> char {
    if d == 0 { '0' }
    else if d == 1 { '1' }
    else if d == 2 { '2' }
    else if d == 3 { '3' }
    else if d == 4 { '4' }
    else if d == 5 { '5' }
    else if d == 6 { '6' }
    else if d == 7 { '7' }
    else if d == 8 { '8' }
    else { '9' }
}

/// The decimal numeral of `n`, without leading zeros.
pub open spec fn decimal(n: nat) -> Seq<char>
    decreases n,
{
    if n < 10 {
        seq![digit_char(n)]
    } else {
        decimal(n / 10).push(digit_char(n % 10))
    }
}

fn digit(d: u128) -> (c: char)
    requires
        d < 10,
    ensures
        c == digit_char(d as nat),
{
    if d == 0 { '0' }
    else if d == 1 { '1' }
    else if d == 2 { '2' }
    else if d == 3 { '3' }
    else if d == 4 { '4' }
    else if d == 5 { '5' }
    else if d == 6 { '6' }
    else if d == 7 { '7' }
    else if d == 8 { '8' }
    else { '9' }
}

/// The decimal numeral of `n` (what `n.to_string()` gives).
pub fn decimal_string(n: u128) -> (r: String)
    ensures
        r@ == decimal(n as nat),
    decreases n,
{
    if n < 10 {
        char_string(digit(n))
    } else {
        let mut r = decimal_string(n / 10);
        push_char(&mut r, digit(n % 10));
        r
    }
}


// ---------------------------------------------------------------------------
// Escaping control characters.
// ---------------------------------------------------------------------------

/// The lowercase hexadecimal digit for `d` (`0 <= d < 16`).
pub open spec fn hex_digit_char(d: nat) -> char {
    if d < 10 {
        digit_char(d)
    } else if d == 10 { 'a' }
    else if d == 11 { 'b' }
    else if d == 12 { 'c' }
    else if d == 13 { 'd' }
    else if d == 14 { 'e' }
    else { 'f' }
}

/// The lowercase hexadecimal numeral of `n`, without leading zeros.
pub open spec fn hexadecimal(n: nat) -> Seq<char>
    decreases n,
{
    if n < 16 {
        seq![hex_digit_char(n)]
    } else {
        hexadecimal(n / 16).push(hex_digit_char(n % 16))
    }
}

/// Whether a character is a control character (C0, delete, or C1).
pub open spec fn is_control_char(c: char) -> bool {
    (c as u32) < 0x20 || (0x7f <= (c as u32) && (c as u32) < 0xa0)
}

/// How a character is shown when control characters must not reach the
/// terminal: tab, carriage return and line feed as `\t`, `\r` and `\n`,
/// other control characters as `\u{..}` with their code in hexadecimal,
/// and everything else as it is.
pub open spec fn escape_char(c: char) -> Seq<char> {
    if c == '\t' {
        seq!['\\', 't']
    } else if c == '\r' {
        seq!['\\', 'r']
    } else if c == '\n' {
        seq!['\\', 'n']
    } else if is_control_char(c) {
        seq!['\\', 'u', '{'] + hexadecimal(c as nat) + seq!['}']
    } else {
        seq![c]
    }
}

/// A text with each of its characters escaped.
pub open spec fn escape_controls(s: Seq<char>) -> Seq<char>
    decreases s.len(),
{
    if s.len() == 0 {
        Seq::<char>::empty()
    } else {
        escape_controls(s.drop_last()) + escape_char(s.last())
    }
}

proof fn lemma_hexadecimal_is_plain(n: nat)
    ensures
        forall|i: int| 0 <= i < hexadecimal(n).len() ==> !is_control_char(#[trigger] hexadecimal(n)[i]),
    decreases n,
{
    if n >= 16 {
        lemma_hexadecimal_is_plain(n / 16);
        let h = hexadecimal(n);
        assert forall|i: int| 0 <= i < h.len() implies !is_control_char(#[trigger] h[i]) by {
            if i < h.len() - 1 {
                assert(h[i] == hexadecimal(n / 16)[i]);
            }
        }
    }
}

/// Escaped text holds no control character, whatever it was made from: it
/// cannot act on the terminal it is written to.
pub proof fn law_escaped_text_has_no_control_chars(s: Seq<char>)
    ensures
        forall|i: int| 0 <= i < escape_controls(s).len() ==> !is_control_char(#[trigger] escape_controls(s)[i]),
    decreases s.len(),
{
    if s.len() > 0 {
        law_escaped_text_has_no_control_chars(s.drop_last());
        let c = s.last();
        let head = escape_controls(s.drop_last());
        let tail = escape_char(c);
        assert(forall|i: int| 0 <= i < tail.len() ==> !is_control_char(#[trigger] tail[i])) by {
            if c != '\t' && c != '\r' && c != '\n' && is_control_char(c) {
                lemma_hexadecimal_is_plain(c as nat);
                let h = hexadecimal(c as nat);
                assert forall|i: int| 0 <= i < tail.len() implies !is_control_char(#[trigger] tail[i]) by {
                    if 3 <= i < 3 + h.len() {
                        assert(tail[i] == h[i - 3]);
                    }
                }
            }
        }
        assert forall|i: int| 0 <= i < escape_controls(s).len() implies !is_control_char(
            #[trigger] escape_controls(s)[i],
        ) by {
            if i < head.len() {
                assert(escape_controls(s)[i] == head[i]);
            } else {
                assert(escape_controls(s)[i] == tail[i - head.len()]);
            }
        }
    }
}

fn hex_digit(d: u32) -> (c: char)
    requires
        d < 16,
    ensures
        c == hex_digit_char(d as nat),
{
    if d < 10 { digit(d as u128) }
    else if d == 10 { 'a' }
    else if d == 11 { 'b' }
    else if d == 12 { 'c' }
    else if d == 13 { 'd' }
    else if d == 14 { 'e' }
    else { 'f' }
}

fn push_hexadecimal(out: &mut String, n: u32)
    ensures
        final(out)@ == old(out)@ + hexadecimal(n as nat),
    decreases n,
{
    if n < 16 {
        push_char(out, hex_digit(n));
    } else {
        push_hexadecimal(out, n / 16);
        push_char(out, hex_digit(n % 16));
    }
}

/// Appends a character as `escape_char` shows it.
pub fn push_escaped(out: &mut String, c: char)
    ensures
        final(out)@ == old(out)@ + escape_char(c),
{
    let code = c as u32;
    if c == '\t' {
        push_char(out, '\\');
        push_char(out, 't');
    } else if c == '\r' {
        push_char(out, '\\');
        push_char(out, 'r');
    } else if c == '\n' {
        push_char(out, '\\');
        push_char(out, 'n');
    } else if code < 0x20 || (0x7f <= code && code < 0xa0) {
        push_char(out, '\\');
        push_char(out, 'u');
        push_char(out, '{');
        push_hexadecimal(out, code);
        push_char(out, '}');
    } else {
        push_char(out, c);
    }
}

/// A text with its control characters escaped.
pub fn escape_controls_string(s: &str) -> (r: String)
    ensures
        r@ == escape_controls(s@),
{
    let chars = chars_of(s);
    let mut r = String::new();
    let n = chars.len();
    assert(s@.take(0) =~= Seq::<char>::empty());
    for i in 0..n
        invariant
            n == s@.len(),
            chars@ == s@,
            r@ == escape_controls(s@.take(i as int)),
    {
        push_escaped(&mut r, chars[i]);
        assert(s@.take(i + 1).drop_last() =~= s@.take(i as int));
    }
    assert(s@.take(n as int) =~= s@);
    r
}

} // verus!
