//! Text functions, stated over sequences of characters.
//!
//! Every function here reads or builds a `&str` or `String` and says what it does through the
//! character sequence that the text stands for.
use vstd::prelude::*;

verus! {

/// `String::push` appends one character at the end and changes nothing else.
pub assume_specification[ String::push ](s: &mut String, c: char)
    ensures
        final(s)@ == old(s)@.push(c),
;

/// The texts held by a sequence of strings.
pub open spec fn views(s: Seq<String>) -> Seq<Seq<char>> {
    Seq::new(s.len(), |i: int| s[i]@)
}

/// The text held by an optional string.
pub open spec fn opt_view(o: Option<String>) -> Option<Seq<char>> {
    match o {
        Some(s) => Some(s@),
        None => None,
    }
}

/// Characters with the Unicode `White_Space` property.
pub open spec fn is_white(c: char) -> bool {
    ||| '\u{9}' <= c <= '\u{d}'
    ||| c == ' '
    ||| c == '\u{85}'
    ||| c == '\u{a0}'
    ||| c == '\u{1680}'
    ||| '\u{2000}' <= c <= '\u{200a}'
    ||| c == '\u{2028}'
    ||| c == '\u{2029}'
    ||| c == '\u{202f}'
    ||| c == '\u{205f}'
    ||| c == '\u{3000}'
}

/// `s` without its leading whitespace.
pub open spec fn trim_front(s: Seq<char>) -> Seq<char>
    decreases s.len(),
{
    if s.len() > 0 && is_white(s[0]) {
        trim_front(s.drop_first())
    } else {
        s
    }
}

/// `s` without its trailing whitespace.
pub open spec fn trim_back(s: Seq<char>) -> Seq<char>
    decreases s.len(),
{
    if s.len() > 0 && is_white(s.last()) {
        trim_back(s.drop_last())
    } else {
        s
    }
}

/// `s` without leading and trailing whitespace.
pub open spec fn trimmed(s: Seq<char>) -> Seq<char> {
    trim_back(trim_front(s))
}

/// `s` without the leading run of `c`.
pub open spec fn strip_front(s: Seq<char>, c: char) -> Seq<char>
    decreases s.len(),
{
    if s.len() > 0 && s[0] == c {
        strip_front(s.drop_first(), c)
    } else {
        s
    }
}

/// `s` without the trailing run of `c`.
pub open spec fn strip_back(s: Seq<char>, c: char) -> Seq<char>
    decreases s.len(),
{
    if s.len() > 0 && s.last() == c {
        strip_back(s.drop_last(), c)
    } else {
        s
    }
}

/// `s` starts with `p`.
pub open spec fn has_prefix(s: Seq<char>, p: Seq<char>) -> bool {
    p.len() <= s.len() && s.take(p.len() as int) == p
}

/// `s` ends with `p`.
pub open spec fn has_suffix(s: Seq<char>, p: Seq<char>) -> bool {
    p.len() <= s.len() && s.skip(s.len() - p.len()) == p
}

/// The first place at or after `i` where `p` stands in `s`.
pub open spec fn find_from(s: Seq<char>, p: Seq<char>, i: int) -> Option<int>
    decreases s.len() + 1 - i,
{
    if i < 0 || i + p.len() > s.len() {
        None
    } else if s.subrange(i, i + p.len()) == p {
        Some(i)
    } else {
        find_from(s, p, i + 1)
    }
}

/// The first place where `p` stands in `s`.
pub open spec fn find(s: Seq<char>, p: Seq<char>) -> Option<int> {
    find_from(s, p, 0)
}

/// `p` stands somewhere in `s`.
pub open spec fn has_text(s: Seq<char>, p: Seq<char>) -> bool {
    find(s, p) is Some
}

/// The place of the first `c` in `s`, or the length of `s`.
pub open spec fn index_of(s: Seq<char>, c: char) -> int
    decreases s.len(),
{
    if s.len() == 0 || s[0] == c {
        0
    } else {
        1 + index_of(s.drop_first(), c)
    }
}

/// The place of the last `c` in `s`, or -1.
pub open spec fn last_index_of(s: Seq<char>, c: char) -> int
    decreases s.len(),
{
    if s.len() == 0 {
        -1
    } else if s.last() == c {
        s.len() - 1
    } else {
        last_index_of(s.drop_last(), c)
    }
}

/// The first place where the text `s` stands in a row of texts, or the length of the row.
pub open spec fn place_of(texts: Seq<Seq<char>>, s: Seq<char>) -> int
    decreases texts.len(),
{
    if texts.len() == 0 || texts[0] == s {
        0
    } else {
        1 + place_of(texts.drop_first(), s)
    }
}

/// The pieces of `s` between the occurrences of `c`; at least one piece.
pub open spec fn split(s: Seq<char>, c: char) -> Seq<Seq<char>>
    decreases s.len(),
{
    if s.len() == 0 {
        seq![s]
    } else {
        let before = split(s.drop_last(), c);
        if s.last() == c {
            before.push(Seq::empty())
        } else {
            before.drop_last().push(before.last().push(s.last()))
        }
    }
}

/// `parts` put together with `sep` between neighbours.
pub open spec fn join(parts: Seq<Seq<char>>, sep: Seq<char>) -> Seq<char>
    decreases parts.len(),
{
    if parts.len() == 0 {
        Seq::empty()
    } else if parts.len() == 1 {
        parts[0]
    } else {
        join(parts.drop_last(), sep) + sep + parts.last()
    }
}

/// A line without the carriage return that stood before its line feed.
pub open spec fn without_cr(s: Seq<char>) -> Seq<char> {
    if s.len() > 0 && s.last() == '\r' {
        s.drop_last()
    } else {
        s
    }
}

/// The lines of `s`. A line ends at a line feed, with or without a carriage return before it; the
/// last line may lack its line feed, and an empty last line is none.
pub open spec fn lines(s: Seq<char>) -> Seq<Seq<char>> {
    let parts = split(s, '\n');
    let ended = Seq::new((parts.len() - 1) as nat, |i: int| without_cr(parts[i]));
    if parts.last().len() == 0 {
        ended
    } else {
        ended.push(parts.last())
    }
}

/// The rest of `s` from `pos` on, with every occurrence of `p` replaced by `t`, found from left to
/// right without overlap.
pub open spec fn replaced_from(s: Seq<char>, p: Seq<char>, t: Seq<char>, pos: int) -> Seq<char>
    decreases s.len() - pos,
    when p.len() > 0 && 0 <= pos <= s.len()
    via replaced_from_decreases
{
    match find_from(s, p, pos) {
        None => s.skip(pos),
        Some(i) => s.subrange(pos, i) + t + replaced_from(s, p, t, i + p.len()),
    }
}

#[via_fn]
proof fn replaced_from_decreases(s: Seq<char>, p: Seq<char>, t: Seq<char>, pos: int) {
    lemma_find_from(s, p, pos);
}

/// `s` with every occurrence of `p` replaced by `t`.
pub open spec fn replaced(s: Seq<char>, p: Seq<char>, t: Seq<char>) -> Seq<char> {
    replaced_from(s, p, t, 0)
}

pub open spec fn is_digit(c: char) -> bool {
    '0' <= c <= '9'
}

pub open spec fn digit_of(n: nat) -> char {
    (48 + n) as char
}

/// `n` in decimal, without leading zeros.
pub open spec fn decimal(n: nat) -> Seq<char>
    decreases n,
{
    if n < 10 {
        seq![digit_of(n)]
    } else {
        decimal(n / 10).push(digit_of(n % 10))
    }
}

pub open spec fn all_digits(s: Seq<char>) -> bool {
    forall|i: int| 0 <= i < s.len() ==> is_digit(#[trigger] s[i])
}

/// The number that a row of decimal digits stands for.
pub open spec fn number(s: Seq<char>) -> nat
    decreases s.len(),
{
    if s.len() == 0 {
        0
    } else {
        number(s.drop_last()) * 10 + ((s.last() as int - 48) as nat)
    }
}

/// The digits of an unsigned number as it is written: one leading `+` does not count.
pub open spec fn unsigned_digits(s: Seq<char>) -> Seq<char> {
    if s.len() > 0 && s[0] == '+' {
        s.drop_first()
    } else {
        s
    }
}

/// What `s` stands for as an unsigned decimal number of at most `max`.
pub open spec fn parsed(s: Seq<char>, max: nat) -> Option<nat> {
    let d = unsigned_digits(s);
    if d.len() > 0 && all_digits(d) && number(d) <= max {
        Some(number(d))
    } else {
        None
    }
}

/// `a` comes before `b` in the order of texts: the first difference decides, and a text comes
/// after its prefixes.
pub open spec fn before(a: Seq<char>, b: Seq<char>) -> bool
    decreases a.len(),
{
    if b.len() == 0 {
        false
    } else if a.len() == 0 {
        true
    } else if a[0] != b[0] {
        a[0] < b[0]
    } else {
        before(a.drop_first(), b.drop_first())
    }
}

/// An ASCII capital as its small letter; any other character as it is.
pub open spec fn ascii_small(c: char) -> char {
    if 'A' <= c <= 'Z' {
        (c as int + 32) as char
    } else {
        c
    }
}

/// `s` with its ASCII capitals as small letters.
pub open spec fn ascii_lower(s: Seq<char>) -> Seq<char> {
    Seq::new(s.len(), |i: int| ascii_small(s[i]))
}

// Facts about these functions.

/// `find_from` gives the first place at or after `i` where `p` stands.
pub proof fn lemma_find_from(s: Seq<char>, p: Seq<char>, i: int)
    ensures
        find_from(s, p, i) matches Some(k) ==> {
            &&& 0 <= i <= k
            &&& k + p.len() <= s.len()
            &&& s.subrange(k, k + p.len()) == p
            &&& forall|j: int| i <= j < k ==> #[trigger] s.subrange(j, j + p.len()) != p
        },
        find_from(s, p, i) is None && i >= 0 ==> forall|j: int|
            i <= j && j + p.len() <= s.len() ==> #[trigger] s.subrange(j, j + p.len()) != p,
    decreases s.len() + 1 - i,
{
    if !(i < 0 || i + p.len() > s.len() || s.subrange(i, i + p.len()) == p) {
        lemma_find_from(s, p, i + 1);
    }
}

/// A text has `p` in it exactly if `p` stands at some place of it.
pub proof fn lemma_has_text(s: Seq<char>, p: Seq<char>)
    ensures
        has_text(s, p) <==> exists|j: int|
            0 <= j && j + p.len() <= s.len() && #[trigger] s.subrange(j, j + p.len()) == p,
{
    lemma_find_from(s, p, 0);
}

/// The pieces of a text, put together with the separator, are the text, and no piece holds the
/// separator.
pub proof fn lemma_split_join(s: Seq<char>, c: char)
    ensures
        split(s, c).len() > 0,
        join(split(s, c), seq![c]) == s,
        forall|i: int| 0 <= i < split(s, c).len() ==> !(#[trigger] split(s, c)[i]).contains(c),
    decreases s.len(),
{
    if s.len() == 0 {
    } else {
        lemma_split_join(s.drop_last(), c);
        let b = split(s.drop_last(), c);
        let r = split(s, c);
        assert(s =~= s.drop_last().push(s.last()));
        if s.last() == c {
            assert(r.drop_last() =~= b);
        } else {
            assert(r.drop_last() =~= b.drop_last());
            assert(r.last() =~= b.last().push(s.last()));
            if b.len() == 1 {
            } else {
                assert(join(r, seq![c]) =~= join(b, seq![c]).push(s.last()));
            }
            assert forall|i: int| 0 <= i < r.len() implies !(#[trigger] r[i]).contains(c) by {
                if i < b.len() - 1 {
                    assert(r[i] == b[i]);
                } else {
                    let last = b.last();
                    assert(!b[b.len() - 1].contains(c));
                    if r[i].contains(c) {
                        let k = choose|k: int| 0 <= k < r[i].len() && r[i][k] == c;
                        assert(last[k] == c);
                    }
                }
            }
        }
    }
}

/// Trimmed text is a stretch of the text that was trimmed.
pub proof fn lemma_trimmed_len(s: Seq<char>)
    ensures
        trim_front(s).len() <= s.len(),
        trim_front(s) == s.skip(s.len() - trim_front(s).len()),
        trim_front(s).len() > 0 ==> !is_white(trim_front(s)[0]),
        forall|i: int| 0 <= i < s.len() - trim_front(s).len() ==> is_white(#[trigger] s[i]),
    decreases s.len(),
{
    if s.len() > 0 && is_white(s[0]) {
        lemma_trimmed_len(s.drop_first());
        let t = trim_front(s);
        assert(t =~= s.skip(s.len() - t.len()));
        assert forall|i: int| 0 <= i < s.len() - t.len() implies is_white(#[trigger] s[i]) by {
            if i > 0 {
                assert(s[i] == s.drop_first()[i - 1]);
            }
        }
    } else {
        assert(s =~= s.skip(0));
    }
}

/// Trimming the back keeps a stretch at the front.
pub proof fn lemma_trim_back(s: Seq<char>)
    ensures
        trim_back(s).len() <= s.len(),
        trim_back(s) == s.take(trim_back(s).len() as int),
        trim_back(s).len() > 0 ==> !is_white(trim_back(s).last()),
        forall|i: int| trim_back(s).len() <= i < s.len() ==> is_white(#[trigger] s[i]),
    decreases s.len(),
{
    if s.len() > 0 && is_white(s.last()) {
        lemma_trim_back(s.drop_last());
        let t = trim_back(s);
        assert(t =~= s.take(t.len() as int));
        assert forall|i: int| t.len() <= i < s.len() implies is_white(#[trigger] s[i]) by {
            if i < s.len() - 1 {
                assert(s[i] == s.drop_last()[i]);
            }
        }
    } else {
        assert(s =~= s.take(s.len() as int));
    }
}

/// Trimming is done after one pass: trimmed text has no whitespace at its ends, and trimming it
/// again changes nothing.
pub proof fn lemma_trimmed_twice(s: Seq<char>)
    ensures
        trimmed(trimmed(s)) == trimmed(s),
        trimmed(s).len() > 0 ==> !is_white(trimmed(s)[0]) && !is_white(trimmed(s).last()),
{
    lemma_trimmed_len(s);
    let f = trim_front(s);
    lemma_trim_back(f);
    let t = trim_back(f);
    if t.len() > 0 {
        assert(t[0] == f[0]);
    }
    assert(trim_front(t) == t);
    assert(trim_back(t) == t);
}

proof fn lemma_strip_front(s: Seq<char>, c: char, i: int)
    requires
        0 <= i <= s.len(),
        forall|k: int| 0 <= k < i ==> s[k] == c,
        i < s.len() ==> s[i] != c,
    ensures
        strip_front(s, c) == s.skip(i),
    decreases i,
{
    if i > 0 {
        lemma_strip_front(s.drop_first(), c, i - 1);
        assert(s.drop_first().skip(i - 1) =~= s.skip(i));
    } else {
        assert(s.skip(0) =~= s);
    }
}

proof fn lemma_strip_back(s: Seq<char>, c: char, n: int)
    requires
        0 <= n <= s.len(),
        forall|k: int| n <= k < s.len() ==> s[k] == c,
        n > 0 ==> s[n - 1] != c,
    ensures
        strip_back(s, c) == s.take(n),
    decreases s.len() - n,
{
    if n < s.len() {
        lemma_strip_back(s.drop_last(), c, n);
        assert(s.drop_last().take(n) =~= s.take(n));
    } else {
        assert(s.take(n) =~= s);
    }
}

proof fn lemma_trim_front_at(s: Seq<char>, i: int)
    requires
        0 <= i <= s.len(),
        forall|k: int| 0 <= k < i ==> is_white(#[trigger] s[k]),
        i < s.len() ==> !is_white(s[i]),
    ensures
        trim_front(s) == s.skip(i),
    decreases i,
{
    if i > 0 {
        assert forall|k: int| 0 <= k < i - 1 implies is_white(#[trigger] s.drop_first()[k]) by {
            assert(is_white(s[k + 1]));
        }
        lemma_trim_front_at(s.drop_first(), i - 1);
        assert(is_white(s[0]));
        assert(s.drop_first().skip(i - 1) =~= s.skip(i));
    } else {
        assert(s.skip(0) =~= s);
    }
}

proof fn lemma_trim_back_at(s: Seq<char>, n: int)
    requires
        0 <= n <= s.len(),
        forall|k: int| n <= k < s.len() ==> is_white(#[trigger] s[k]),
        n > 0 ==> !is_white(s[n - 1]),
    ensures
        trim_back(s) == s.take(n),
    decreases s.len() - n,
{
    if n < s.len() {
        assert forall|k: int| n <= k < s.drop_last().len() implies is_white(
            #[trigger] s.drop_last()[k],
        ) by {
            assert(is_white(s[k]));
        }
        lemma_trim_back_at(s.drop_last(), n);
        assert(is_white(s[s.len() - 1]));
        assert(s.drop_last().take(n) =~= s.take(n));
    } else {
        assert(s.take(n) =~= s);
    }
}

proof fn lemma_index_of(s: Seq<char>, c: char, i: int)
    requires
        0 <= i <= s.len(),
        forall|k: int| 0 <= k < i ==> s[k] != c,
        i < s.len() ==> s[i] == c,
    ensures
        index_of(s, c) == i,
    decreases i,
{
    if i > 0 {
        lemma_index_of(s.drop_first(), c, i - 1);
    }
}

proof fn lemma_last_index_of(s: Seq<char>, c: char, i: int)
    requires
        -1 <= i < s.len(),
        forall|k: int| i < k < s.len() ==> s[k] != c,
        i >= 0 ==> s[i] == c,
    ensures
        last_index_of(s, c) == i,
    decreases s.len(),
{
    if s.len() > 0 && i < s.len() - 1 {
        lemma_last_index_of(s.drop_last(), c, i);
    }
}

/// `index_of` is the first place of the character, if it has one.
pub proof fn lemma_index_of_range(s: Seq<char>, c: char)
    ensures
        0 <= index_of(s, c) <= s.len(),
        index_of(s, c) < s.len() ==> s[index_of(s, c)] == c,
        index_of(s, c) < s.len() <==> s.contains(c),
        forall|k: int| 0 <= k < index_of(s, c) ==> s[k] != c,
    decreases s.len(),
{
    if s.len() == 0 || s[0] == c {
    } else {
        let t = s.drop_first();
        lemma_index_of_range(t, c);
        if s.contains(c) {
            let k = choose|k: int| 0 <= k < s.len() && s[k] == c;
            assert(t[k - 1] == c);
        }
        if t.contains(c) {
            let k = choose|k: int| 0 <= k < t.len() && t[k] == c;
            assert(s[k + 1] == c);
        }
        assert forall|k: int| 0 <= k < index_of(s, c) implies s[k] != c by {
            if k > 0 {
                assert(s[k] == t[k - 1]);
            }
        }
    }
}

/// `last_index_of` is the last place of the character, if it has one.
pub proof fn lemma_last_index_of_range(s: Seq<char>, c: char)
    ensures
        -1 <= last_index_of(s, c) < s.len(),
        last_index_of(s, c) >= 0 ==> s[last_index_of(s, c)] == c,
        forall|k: int| last_index_of(s, c) < k < s.len() ==> s[k] != c,
    decreases s.len(),
{
    if s.len() > 0 && s.last() != c {
        lemma_last_index_of_range(s.drop_last(), c);
        assert forall|k: int| last_index_of(s, c) < k < s.len() implies s[k] != c by {
            if k < s.len() - 1 {
                assert(s[k] == s.drop_last()[k]);
            }
        }
    }
}

proof fn lemma_number_prefix(s: Seq<char>, i: int)
    requires
        0 <= i <= s.len(),
    ensures
        number(s.take(i)) <= number(s),
    decreases s.len() - i,
{
    if i < s.len() {
        lemma_number_prefix(s, i + 1);
        assert(s.take(i + 1).drop_last() =~= s.take(i));
    } else {
        assert(s.take(i) =~= s);
    }
}

/// A number in decimal is a row of digits.
pub proof fn lemma_decimal_digits(n: nat)
    ensures
        decimal(n).len() > 0,
        all_digits(decimal(n)),
    decreases n,
{
    if n >= 10 {
        lemma_decimal_digits(n / 10);
        let d = decimal(n / 10);
        assert forall|i: int| 0 <= i < decimal(n).len() implies is_digit(
            #[trigger] decimal(n)[i],
        ) by {
            if i < d.len() {
                assert(decimal(n)[i] == d[i]);
            }
        }
    }
}

/// A number written in decimal reads back as that number.
pub proof fn lemma_decimal_parses(n: nat, max: nat)
    requires
        n <= max,
    ensures
        parsed(decimal(n), max) == Some(n),
    decreases n,
{
    lemma_decimal_digits(n);
    lemma_decimal_number(n);
    assert(is_digit(decimal(n)[0]));
}

proof fn lemma_decimal_number(n: nat)
    ensures
        number(decimal(n)) == n,
    decreases n,
{
    if n >= 10 {
        lemma_decimal_number(n / 10);
        assert(decimal(n).drop_last() =~= decimal(n / 10));
    } else {
        reveal_with_fuel(number, 2);
        assert(decimal(n).drop_last() =~= Seq::<char>::empty());
    }
}

/// The order of texts is strict: no text comes before itself.
pub proof fn lemma_before_irreflexive(a: Seq<char>)
    ensures
        !before(a, a),
    decreases a.len(),
{
    if a.len() > 0 {
        lemma_before_irreflexive(a.drop_first());
    }
}

/// Of two different texts, exactly one comes before the other.
pub proof fn lemma_before_total(a: Seq<char>, b: Seq<char>)
    ensures
        a != b ==> before(a, b) != before(b, a),
        before(a, b) ==> !before(b, a),
    decreases a.len(),
{
    if a.len() > 0 && b.len() > 0 && a[0] == b[0] {
        lemma_before_total(a.drop_first(), b.drop_first());
        if a != b && a.drop_first() == b.drop_first() {
            assert(a =~= seq![a[0]] + a.drop_first());
            assert(b =~= seq![b[0]] + b.drop_first());
        }
    } else if a.len() == 0 && b.len() == 0 {
        assert(a =~= b);
    }
}

/// The order of texts is transitive.
pub proof fn lemma_before_transitive(a: Seq<char>, b: Seq<char>, c: Seq<char>)
    requires
        before(a, b),
        before(b, c),
    ensures
        before(a, c),
    decreases a.len(),
{
    if a.len() > 0 && b.len() > 0 && c.len() > 0 && a[0] == b[0] && b[0] == c[0] {
        lemma_before_transitive(a.drop_first(), b.drop_first(), c.drop_first());
    }
}

/// The first difference decides the order of texts, by the code points there; a text that ends
/// where it has not differed comes first.
pub proof fn law_before(a: Seq<char>, b: Seq<char>, k: int)
    requires
        0 <= k <= a.len(),
        k <= b.len(),
        a.take(k) == b.take(k),
        k < a.len() && k < b.len() ==> a[k] != b[k],
    ensures
        k < a.len() && k < b.len() ==> before(a, b) == ((a[k] as int) < (b[k] as int)),
        k == a.len() ==> before(a, b) == (k < b.len()),
        k == b.len() ==> !before(a, b),
    decreases k,
{
    if k > 0 {
        assert(a.take(k)[0] == a[0] && b.take(k)[0] == b[0]);
        let x = a.drop_first();
        let y = b.drop_first();
        assert(x.take(k - 1) =~= y.take(k - 1)) by {
            assert forall|i: int| 0 <= i < k - 1 implies x[i] == y[i] by {
                assert(a.take(k)[i + 1] == b.take(k)[i + 1]);
                assert(a.take(k)[i + 1] == a[i + 1] && b.take(k)[i + 1] == b[i + 1]);
                assert(x[i] == a[i + 1] && y[i] == b[i + 1]);
            }
        }
        law_before(x, y, k - 1);
    }
}

/// Trimmed text is what is left between the whitespace at the front and that at the back: the
/// stretch from the first character that is none to the last one that is none.
pub proof fn law_trimmed(s: Seq<char>, i: int, j: int)
    requires
        0 <= i <= j <= s.len(),
        forall|k: int| 0 <= k < i ==> is_white(#[trigger] s[k]),
        forall|k: int| j <= k < s.len() ==> is_white(#[trigger] s[k]),
        i < j ==> !is_white(s[i]) && !is_white(s[j - 1]),
    ensures
        trimmed(s) == s.subrange(i, j),
{
    if i < j {
        lemma_trim_front_at(s, i);
        let f = s.skip(i);
        assert forall|k: int| j - i <= k < f.len() implies is_white(#[trigger] f[k]) by {
            assert(is_white(s[k + i]));
        }
        lemma_trim_back_at(f, j - i);
        assert(f.take(j - i) =~= s.subrange(i, j));
    } else {
        assert forall|k: int| 0 <= k < s.len() implies is_white(#[trigger] s[k]) by {}
        lemma_trim_front_at(s, s.len() as int);
        assert(s.skip(s.len() as int) =~= s.subrange(i, j));
        assert(trim_back(s.subrange(i, j)) == s.subrange(i, j));
    }
}

/// What counts as whitespace: the blank, the tabulator, the ends of lines and the like, and the
/// wide blanks of Unicode; no letter, digit or other sign of ASCII.
pub proof fn law_white(c: char)
    ensures
        c == ' ' || c == '\t' || c == '\n' || c == '\r' || c == '\u{a0}' || c == '\u{3000}'
            ==> is_white(c),
        '!' <= c <= '~' ==> !is_white(c),
{
}

/// A text without the separator is its only piece.
pub proof fn lemma_split_none(s: Seq<char>, c: char)
    requires
        !s.contains(c),
    ensures
        split(s, c) == seq![s],
    decreases s.len(),
{
    if s.len() > 0 {
        let front = s.drop_last();
        assert(!front.contains(c)) by {
            if front.contains(c) {
                let k = choose|k: int| 0 <= k < front.len() && front[k] == c;
                assert(s[k] == c);
            }
        }
        lemma_split_none(front, c);
        assert(s[s.len() - 1] != c);
        assert(seq![front].drop_last().push(front.push(s.last())) =~= seq![s]) by {
            assert(front.push(s.last()) =~= s);
        }
    }
}

/// The first piece of a text ends at the first separator; the other pieces are those of the rest.
pub proof fn law_split(a: Seq<char>, c: char, b: Seq<char>)
    requires
        !a.contains(c),
    ensures
        split(a + seq![c] + b, c) == seq![a] + split(b, c),
    decreases b.len(),
{
    let s = a + seq![c] + b;
    if b.len() == 0 {
        assert(s.drop_last() =~= a);
        lemma_split_none(a, c);
        assert(b =~= Seq::<char>::empty());
        assert(seq![a].push(Seq::empty()) =~= seq![a] + seq![b]);
    } else {
        let front = b.drop_last();
        law_split(a, c, front);
        lemma_split_join(front, c);
        assert(s.drop_last() =~= a + seq![c] + front);
        let before = split(s.drop_last(), c);
        let rest = split(front, c);
        assert(s.last() == b.last());
        assert(before.last() == rest.last());
        if b.last() == c {
            assert(before.push(Seq::empty()) =~= seq![a] + rest.push(Seq::empty()));
        } else {
            assert(before.drop_last().push(before.last().push(s.last())) =~= seq![a]
                + rest.drop_last().push(rest.last().push(b.last())));
        }
    }
}

/// The lines of a text are what stands before its line feeds, without the carriage return there;
/// what follows the last line feed is a line of its own unless it is empty.
pub proof fn law_lines(first: Seq<char>, rest: Seq<char>)
    requires
        !first.contains('\n'),
    ensures
        lines(first + seq!['\n'] + rest) == seq![without_cr(first)] + lines(rest),
        lines(first) == (if first.len() == 0 {
            Seq::<Seq<char>>::empty()
        } else {
            seq![first]
        }),
        without_cr(first + seq!['\r']) == first,
        first.len() > 0 && first.last() != '\r' ==> without_cr(first) == first,
{
    law_split(first, '\n', rest);
    lemma_split_none(first, '\n');
    lemma_split_join(rest, '\n');
    let parts = split(rest, '\n');
    let all = split(first + seq!['\n'] + rest, '\n');
    assert(all.last() == parts.last());
    assert(lines(first + seq!['\n'] + rest) =~= seq![without_cr(first)] + lines(rest));
    assert(lines(first) =~= if first.len() == 0 {
        Seq::<Seq<char>>::empty()
    } else {
        seq![first]
    });
    assert((first + seq!['\r']).drop_last() =~= first);
}

/// Where the text to be replaced does not occur nothing changes; where it occurs once, what stands
/// before and after it is kept.
pub proof fn law_replaced(s: Seq<char>, p: Seq<char>, t: Seq<char>, at: int)
    requires
        p.len() > 0,
    ensures
        (forall|j: int| 0 <= j && j + p.len() <= s.len() ==> #[trigger] s.subrange(j, j + p.len()) != p)
            ==> replaced(s, p, t) == s,
        0 <= at && at + p.len() <= s.len() && (forall|j: int|
            0 <= j && j + p.len() <= s.len() ==> (#[trigger] s.subrange(j, j + p.len()) == p) == (j
                == at)) ==> replaced(s, p, t) == s.take(at) + t + s.skip(at + p.len()),
{
    lemma_find_from(s, p, 0);
    assert(s.skip(0) =~= s);
    if 0 <= at && at + p.len() <= s.len() && (forall|j: int|
        0 <= j && j + p.len() <= s.len() ==> (#[trigger] s.subrange(j, j + p.len()) == p) == (j
            == at)) {
        assert(s.subrange(at, at + p.len()) == p);
        let k = find_from(s, p, 0)->0;
        assert(s.subrange(k, k + p.len()) == p);
        assert(k == at);
        lemma_find_from(s, p, at + p.len());
        assert(find_from(s, p, at + p.len()) is None) by {
            if let Some(m) = find_from(s, p, at + p.len()) {
                assert(s.subrange(m, m + p.len()) == p);
            }
        }
        assert(replaced_from(s, p, t, at + p.len()) == s.skip(at + p.len()));
        assert(s.subrange(0, at) =~= s.take(at));
    }
}

proof fn lemma_find_shift(s: Seq<char>, p: Seq<char>, pos: int, i: int)
    requires
        0 <= pos <= s.len(),
        0 <= i,
    ensures
        find_from(s, p, pos + i) == (match find_from(s.skip(pos), p, i) {
            Some(k) => Some(k + pos),
            None => None,
        }),
    decreases s.len() + 1 - pos - i,
{
    let rest = s.skip(pos);
    if i + p.len() <= rest.len() {
        assert(rest.subrange(i, i + p.len()) =~= s.subrange(pos + i, pos + i + p.len()));
        if rest.subrange(i, i + p.len()) != p {
            lemma_find_shift(s, p, pos, i + 1);
        }
    }
}

proof fn lemma_replaced_shift(s: Seq<char>, p: Seq<char>, t: Seq<char>, pos: int)
    requires
        p.len() > 0,
        0 <= pos <= s.len(),
    ensures
        replaced_from(s, p, t, pos) == replaced(s.skip(pos), p, t),
    decreases s.len() - pos,
{
    let rest = s.skip(pos);
    lemma_find_shift(s, p, pos, 0);
    lemma_find_from(s, p, pos);
    lemma_find_from(rest, p, 0);
    match find_from(rest, p, 0) {
        None => {
            assert(rest.skip(0) =~= rest);
        },
        Some(k) => {
            let n: int = k + p.len();
            lemma_replaced_shift(s, p, t, pos + n);
            lemma_replaced_shift(rest, p, t, n);
            assert(rest.skip(n) =~= s.skip(pos + n));
            assert(rest.subrange(0, k) =~= s.subrange(pos, pos + k));
        },
    }
}

/// Every occurrence is replaced: the first one, and then those in what follows it.
pub proof fn law_replaced_each(s: Seq<char>, p: Seq<char>, t: Seq<char>, at: int)
    requires
        p.len() > 0,
        0 <= at,
        at + p.len() <= s.len(),
        s.subrange(at, at + p.len()) == p,
        forall|j: int| 0 <= j < at ==> #[trigger] s.subrange(j, j + p.len()) != p,
    ensures
        replaced(s, p, t) == s.take(at) + t + replaced(s.skip(at + p.len()), p, t),
{
    lemma_find_from(s, p, 0);
    let k = find_from(s, p, 0)->0;
    assert(find_from(s, p, 0) is Some);
    assert(k == at) by {
        if k < at {
            assert(s.subrange(k, k + p.len()) == p);
        }
    }
    lemma_replaced_shift(s, p, t, at + p.len());
    assert(s.subrange(0, at) =~= s.take(at));
}

/// The place of a text in a row is the first one where it stands, or the length of the row if it
/// stands nowhere.
pub proof fn law_place_of(texts: Seq<Seq<char>>, s: Seq<char>, i: int)
    requires
        0 <= i <= texts.len(),
        forall|k: int| 0 <= k < i ==> #[trigger] texts[k] != s,
        i < texts.len() ==> texts[i] == s,
    ensures
        place_of(texts, s) == i,
    decreases i,
{
    if i > 0 {
        assert(texts[0] != s);
        let rest = texts.drop_first();
        assert forall|k: int| 0 <= k < i - 1 implies #[trigger] rest[k] != s by {
            assert(rest[k] == texts[k + 1]);
        }
        law_place_of(rest, s, i - 1);
    }
}

/// What is stripped from an end of a text is the whole run of the character there and no more.
pub proof fn law_strip(s: Seq<char>, c: char, n: nat)
    requires
        s.len() == 0 || (s[0] != c && s.last() != c),
    ensures
        strip_back(s + Seq::new(n, |i: int| c), c) == s,
        strip_front(Seq::new(n, |i: int| c) + s, c) == s,
{
    let run = Seq::new(n, |i: int| c);
    lemma_strip_back(s + run, c, s.len() as int);
    assert((s + run).take(s.len() as int) =~= s);
    lemma_strip_front(run + s, c, n as int);
    assert((run + s).skip(n as int) =~= s);
}

/// A number is read from its decimal digits, which may follow a plus sign. Nothing else is read as
/// a number: no empty text, and none with another sign in it.
pub proof fn law_parsed(s: Seq<char>, n: nat, max: nat)
    requires
        n <= max,
    ensures
        parsed(decimal(n), max) == Some(n),
        parsed(seq!['+'] + decimal(n), max) == Some(n),
        parsed(Seq::empty(), max) is None,
        (exists|i: int| 1 <= i < s.len() && !('0' <= #[trigger] s[i] <= '9')) ==> parsed(s, max)
            is None,
        max < n + 1 ==> parsed(decimal(n + 1), max) is None,
{
    lemma_decimal_parses(n, max);
    lemma_decimal_number(n);
    lemma_decimal_digits(n);
    lemma_decimal_number(n + 1);
    lemma_decimal_digits(n + 1);
    assert((seq!['+'] + decimal(n)).drop_first() =~= decimal(n));
    assert(is_digit(decimal(n + 1)[0]));
    if exists|i: int| 1 <= i < s.len() && !('0' <= #[trigger] s[i] <= '9') {
        let i = choose|i: int| 1 <= i < s.len() && !('0' <= #[trigger] s[i] <= '9');
        let d = unsigned_digits(s);
        if d.len() == s.len() {
            assert(!is_digit(d[i]));
        } else {
            assert(d[i - 1] == s[i]);
            assert(!is_digit(d[i - 1]));
        }
    }
}

/// Joined texts stand one after another with the separator between neighbours.
pub proof fn law_join(parts: Seq<Seq<char>>, last: Seq<char>, sep: Seq<char>)
    ensures
        join(seq![last], sep) == last,
        parts.len() > 0 ==> join(parts.push(last), sep) == join(parts, sep) + sep + last,
{
    assert(parts.push(last).drop_last() =~= parts);
}

/// Small letters of ASCII stand for its capitals; every other character stays as it is.
pub proof fn law_ascii_lower(s: Seq<char>, i: int)
    requires
        0 <= i < s.len(),
    ensures
        ascii_lower(s).len() == s.len(),
        'A' <= s[i] <= 'Z' ==> ascii_lower(s)[i] as int - 'a' as int == s[i] as int - 'A' as int,
        !('A' <= s[i] <= 'Z') ==> ascii_lower(s)[i] == s[i],
{
}

// The functions themselves.

/// Whether `c` is whitespace.
pub fn is_whitespace(c: char) -> (r: bool)
    ensures
        r == is_white(c),
{
    ('\u{9}' <= c && c <= '\u{d}') || c == ' ' || c == '\u{85}' || c == '\u{a0}' || c == '\u{1680}'
        || ('\u{2000}' <= c && c <= '\u{200a}') || c == '\u{2028}' || c == '\u{2029}' || c
        == '\u{202f}' || c == '\u{205f}' || c == '\u{3000}'
}

/// The characters of `s`.
pub fn chars_of(s: &str) -> (r: Vec<char>)
    ensures
        r@ == s@,
{
    let mut out: Vec<char> = Vec::new();
    for c in it: s.chars()
        invariant
            out@ == s@.take(it.index()),
            it.seq() == s@,
    {
        out.push(c);
    }
    out
}

/// The characters `from..to` as a text.
pub fn string_of(v: &Vec<char>, from: usize, to: usize) -> (r: String)
    requires
        from <= to <= v@.len(),
    ensures
        r@ == v@.subrange(from as int, to as int),
{
    let mut out = String::new();
    let mut i: usize = from;
    while i < to
        invariant
            from <= i <= to <= v@.len(),
            out@ == v@.subrange(from as int, i as int),
        decreases to - i,
    {
        out.push(v[i]);
        i += 1;
    }
    out
}

/// Whether two texts are equal.
pub fn same(a: &str, b: &str) -> (r: bool)
    ensures
        r == (a@ == b@),
{
    a.to_owned() == b.to_owned()
}

/// Copies of the texts.
pub fn copy_all(v: &Vec<String>) -> (r: Vec<String>)
    ensures
        r@ == v@,
        views(r@) == views(v@),
{
    let mut out: Vec<String> = Vec::new();
    let mut i: usize = 0;
    while i < v.len()
        invariant
            i <= v@.len(),
            out@ == v@.take(i as int),
        decreases v@.len() - i,
    {
        out.push(v[i].clone());
        i += 1;
    }
    out
}

/// A copy of the text, if there is one.
pub fn copy_opt(o: &Option<String>) -> (r: Option<String>)
    ensures
        r == *o,
{
    match o {
        Some(s) => Some(s.clone()),
        None => None,
    }
}

/// Whether one of `v` is the text `s`.
pub fn any_same(v: &Vec<String>, s: &str) -> (r: bool)
    ensures
        r == views(v@).contains(s@),
{
    let mut i: usize = 0;
    while i < v.len()
        invariant
            i <= v@.len(),
            forall|k: int| 0 <= k < i ==> (#[trigger] v@[k])@ != s@,
        decreases v@.len() - i,
    {
        if same(v[i].as_str(), s) {
            assert(views(v@)[i as int] == s@);
            return true;
        }
        i += 1;
    }
    false
}

/// The first place where the text `s` stands in `v`, if it does.
pub fn find_text(v: &Vec<String>, s: &str) -> (r: Option<usize>)
    ensures
        r is Some <==> place_of(views(v@), s@) < v@.len(),
        r matches Some(i) ==> i == place_of(views(v@), s@) && i < v@.len(),
{
    let ghost all = views(v@);
    let mut i: usize = 0;
    assert(all.skip(0) =~= all);
    while i < v.len()
        invariant
            i <= v@.len(),
            all == views(v@),
            place_of(all, s@) == i + place_of(all.skip(i as int), s@),
        decreases v@.len() - i,
    {
        let ghost rest = all.skip(i as int);
        assert(rest.drop_first() =~= all.skip(i + 1));
        assert(rest[0] == v@[i as int]@);
        if same(v[i].as_str(), s) {
            return Some(i);
        }
        i += 1;
    }
    None
}

/// `a` and `b` one after the other.
pub fn cat(a: &str, b: &str) -> (r: String)
    ensures
        r@ == a@ + b@,
{
    let mut out = String::new();
    out.append(a);
    out.append(b);
    out
}

/// Three texts one after the other.
pub fn cat3(a: &str, b: &str, c: &str) -> (r: String)
    ensures
        r@ == a@ + b@ + c@,
{
    let mut out = cat(a, b);
    out.append(c);
    out
}

/// Four texts one after the other.
pub fn cat4(a: &str, b: &str, c: &str, d: &str) -> (r: String)
    ensures
        r@ == a@ + b@ + c@ + d@,
{
    let mut out = cat3(a, b, c);
    out.append(d);
    out
}

/// Five texts one after the other.
pub fn cat5(a: &str, b: &str, c: &str, d: &str, e: &str) -> (r: String)
    ensures
        r@ == a@ + b@ + c@ + d@ + e@,
{
    let mut out = cat4(a, b, c, d);
    out.append(e);
    out
}

/// `s` without leading and trailing whitespace.
pub fn trim(s: &str) -> (r: String)
    ensures
        r@ == trimmed(s@),
{
    let v = chars_of(s);
    let mut i: usize = 0;
    while i < v.len() && is_whitespace(v[i])
        invariant
            i <= v@.len(),
            forall|k: int| 0 <= k < i ==> is_white(#[trigger] v@[k]),
        decreases v@.len() - i,
    {
        i += 1;
    }
    proof {
        lemma_trim_front_at(v@, i as int);
    }
    let mut n: usize = v.len();
    while n > i && is_whitespace(v[n - 1])
        invariant
            i <= n <= v@.len(),
            forall|k: int| n <= k < v@.len() ==> is_white(#[trigger] v@[k]),
        decreases n,
    {
        n -= 1;
    }
    proof {
        let f = v@.skip(i as int);
        assert forall|k: int| n - i <= k < f.len() implies is_white(#[trigger] f[k]) by {
            assert(is_white(v@[k + i]));
        }
        lemma_trim_back_at(f, n - i);
        assert(f.take(n - i) =~= v@.subrange(i as int, n as int));
    }
    string_of(&v, i, n)
}

/// `s` without the leading run of `c`.
pub fn trim_start_matches(s: &str, c: char) -> (r: String)
    ensures
        r@ == strip_front(s@, c),
{
    let v = chars_of(s);
    let mut i: usize = 0;
    while i < v.len() && v[i] == c
        invariant
            i <= v@.len(),
            forall|k: int| 0 <= k < i ==> v@[k] == c,
        decreases v@.len() - i,
    {
        i += 1;
    }
    proof {
        lemma_strip_front(v@, c, i as int);
        assert(v@.skip(i as int) =~= v@.subrange(i as int, v@.len() as int));
    }
    string_of(&v, i, v.len())
}

/// `s` without the trailing run of `c`.
pub fn trim_end_matches(s: &str, c: char) -> (r: String)
    ensures
        r@ == strip_back(s@, c),
{
    let v = chars_of(s);
    let mut n: usize = v.len();
    while n > 0 && v[n - 1] == c
        invariant
            n <= v@.len(),
            forall|k: int| n <= k < v@.len() ==> v@[k] == c,
        decreases n,
    {
        n -= 1;
    }
    proof {
        lemma_strip_back(v@, c, n as int);
        assert(v@.take(n as int) =~= v@.subrange(0, n as int));
    }
    string_of(&v, 0, n)
}

/// Whether `p` stands at place `at` of `v`.
pub fn stands_at(v: &Vec<char>, p: &Vec<char>, at: usize) -> (r: bool)
    requires
        at + p@.len() <= v@.len(),
    ensures
        r == (v@.subrange(at as int, at + p@.len()) == p@),
{
    let mut k: usize = 0;
    while k < p.len()
        invariant
            k <= p@.len(),
            at + p@.len() <= v.len(),
            forall|j: int| 0 <= j < k ==> v@[at + j] == p@[j],
        decreases p@.len() - k,
    {
        if v[at + k] != p[k] {
            assert(v@.subrange(at as int, at + p@.len())[k as int] != p@[k as int]);
            return false;
        }
        k += 1;
    }
    assert(v@.subrange(at as int, at + p@.len()) =~= p@);
    true
}

/// Whether `s` starts with `p`.
pub fn starts_with(s: &str, p: &str) -> (r: bool)
    ensures
        r == has_prefix(s@, p@),
{
    let v = chars_of(s);
    let w = chars_of(p);
    if w.len() > v.len() {
        return false;
    }
    assert(v@.subrange(0, w@.len() as int) =~= v@.take(w@.len() as int));
    stands_at(&v, &w, 0)
}

/// Whether `s` ends with `p`.
pub fn ends_with(s: &str, p: &str) -> (r: bool)
    ensures
        r == has_suffix(s@, p@),
{
    let v = chars_of(s);
    let w = chars_of(p);
    if w.len() > v.len() {
        return false;
    }
    assert(v@.subrange(v@.len() - w@.len(), v@.len() as int) =~= v@.skip(v@.len() - w@.len()));
    stands_at(&v, &w, v.len() - w.len())
}

/// `s` without the prefix `p`, if it starts with it.
pub fn strip_prefix(s: &str, p: &str) -> (r: Option<String>)
    ensures
        r is Some <==> has_prefix(s@, p@),
        r matches Some(t) ==> t@ == s@.skip(p@.len() as int),
{
    if starts_with(s, p) {
        let v = chars_of(s);
        let n: usize = p.unicode_len();
        assert(v@.skip(n as int) =~= v@.subrange(n as int, v@.len() as int));
        Some(string_of(&v, n, v.len()))
    } else {
        None
    }
}

/// `s` without the suffix `p`, if it ends with it.
pub fn strip_suffix(s: &str, p: &str) -> (r: Option<String>)
    ensures
        r is Some <==> has_suffix(s@, p@),
        r matches Some(t) ==> t@ == s@.take(s@.len() - p@.len()),
{
    if ends_with(s, p) {
        let v = chars_of(s);
        let n: usize = v.len() - p.unicode_len();
        assert(v@.take(n as int) =~= v@.subrange(0, n as int));
        Some(string_of(&v, 0, n))
    } else {
        None
    }
}

/// The first place at or after `from` where `p` stands in `v`.
pub fn find_at(v: &Vec<char>, p: &Vec<char>, from: usize) -> (r: Option<usize>)
    requires
        from <= v@.len(),
    ensures
        r is Some <==> find_from(v@, p@, from as int) is Some,
        r matches Some(k) ==> find_from(v@, p@, from as int) == Some(k as int) && from <= k && k
            + p@.len() <= v@.len(),
{
    if p.len() > v.len() {
        return None;
    }
    let last: usize = v.len() - p.len();
    let mut i: usize = from;
    while i <= last
        invariant
            from <= i <= v@.len(),
            last == v@.len() - p@.len(),
            find_from(v@, p@, from as int) == find_from(v@, p@, i as int),
        decreases v@.len() + 1 - i,
    {
        if stands_at(v, p, i) {
            return Some(i);
        }
        if i == last {
            assert(find_from(v@, p@, i + 1) is None);
            return None;
        }
        i += 1;
    }
    None
}

/// Whether `p` stands somewhere in `s`.
pub fn contains(s: &str, p: &str) -> (r: bool)
    ensures
        r == has_text(s@, p@),
{
    let v = chars_of(s);
    let w = chars_of(p);
    find_at(&v, &w, 0).is_some()
}

/// Whether the character `c` stands somewhere in `s`.
pub fn contains_char(s: &str, c: char) -> (r: bool)
    ensures
        r == s@.contains(c),
{
    let v = chars_of(s);
    let mut i: usize = 0;
    while i < v.len()
        invariant
            i <= v@.len(),
            v@ == s@,
            forall|k: int| 0 <= k < i ==> v@[k] != c,
        decreases v@.len() - i,
    {
        if v[i] == c {
            assert(s@[i as int] == c);
            return true;
        }
        i += 1;
    }
    false
}

/// `s` before and after its first `c`, if it has one.
pub fn split_once(s: &str, c: char) -> (r: Option<(String, String)>)
    ensures
        r is Some <==> index_of(s@, c) < s@.len(),
        r matches Some(p) ==> {
            &&& p.0@ == s@.take(index_of(s@, c))
            &&& p.1@ == s@.skip(index_of(s@, c) + 1)
        },
{
    let v = chars_of(s);
    let mut i: usize = 0;
    while i < v.len() && v[i] != c
        invariant
            i <= v@.len(),
            forall|k: int| 0 <= k < i ==> v@[k] != c,
        decreases v@.len() - i,
    {
        i += 1;
    }
    proof {
        lemma_index_of(v@, c, i as int);
    }
    if i < v.len() {
        assert(v@.take(i as int) =~= v@.subrange(0, i as int));
        assert(v@.skip(i + 1) =~= v@.subrange(i + 1, v@.len() as int));
        Some((string_of(&v, 0, i), string_of(&v, i + 1, v.len())))
    } else {
        None
    }
}

/// `s` before and after its last `c`, if it has one.
pub fn rsplit_once(s: &str, c: char) -> (r: Option<(String, String)>)
    ensures
        r is Some <==> last_index_of(s@, c) >= 0,
        r matches Some(p) ==> {
            &&& p.0@ == s@.take(last_index_of(s@, c))
            &&& p.1@ == s@.skip(last_index_of(s@, c) + 1)
        },
{
    let v = chars_of(s);
    let mut n: usize = v.len();
    while n > 0 && v[n - 1] != c
        invariant
            n <= v@.len(),
            forall|k: int| n <= k < v@.len() ==> v@[k] != c,
        decreases n,
    {
        n -= 1;
    }
    proof {
        lemma_last_index_of(v@, c, n - 1);
    }
    if n > 0 {
        assert(v@.take(n - 1) =~= v@.subrange(0, n - 1));
        assert(v@.skip(n as int) =~= v@.subrange(n as int, v@.len() as int));
        Some((string_of(&v, 0, n - 1), string_of(&v, n, v.len())))
    } else {
        None
    }
}

/// The pieces of `s` between the occurrences of `c`.
pub fn split_at_char(s: &str, c: char) -> (r: Vec<String>)
    ensures
        views(r@) == split(s@, c),
        r@.len() > 0,
{
    let v = chars_of(s);
    let mut out: Vec<String> = Vec::new();
    let mut cur = String::new();
    let mut i: usize = 0;
    assert(v@.take(0) =~= Seq::<char>::empty());
    assert(views(out@).push(cur@) =~= seq![Seq::<char>::empty()]);
    while i < v.len()
        invariant
            i <= v@.len(),
            split(v@.take(i as int), c) == views(out@).push(cur@),
        decreases v@.len() - i,
    {
        let ghost before = views(out@).push(cur@);
        let ghost t = v@.take(i + 1);
        assert(t.drop_last() =~= v@.take(i as int));
        let ghost old_out = out@;
        let ghost old_cur = cur@;
        if v[i] == c {
            out.push(cur);
            cur = String::new();
            assert(views(out@) =~= before);
        } else {
            cur.push(v[i]);
            assert(before.drop_last() =~= views(out@));
        }
        i += 1;
    }
    assert(v@.take(v@.len() as int) =~= v@);
    let ghost old_views = views(out@).push(cur@);
    out.push(cur);
    assert(views(out@) =~= old_views);
    out
}

/// The lines of `s`.
pub fn lines_of(s: &str) -> (r: Vec<String>)
    ensures
        views(r@) == lines(s@),
{
    let parts = split_at_char(s, '\n');
    let ghost all = views(parts@);
    let mut out: Vec<String> = Vec::new();
    let mut i: usize = 0;
    while i + 1 < parts.len()
        invariant
            0 < parts@.len(),
            i < parts.len(),
            all == views(parts@),
            views(out@) == Seq::new(i as nat, |k: int| without_cr(all[k])),
        decreases parts@.len() - i,
    {
        let line = match strip_suffix(parts[i].as_str(), "\r") {
            Some(t) => {
                proof {
                    reveal_strlit("\r");
                    let p = parts@[i as int]@;
                    assert(p.skip(p.len() - 1)[0] == '\r');
                    assert(p.last() == '\r');
                    assert(p.take(p.len() - 1) =~= p.drop_last());
                }
                t
            },
            None => {
                proof {
                    reveal_strlit("\r");
                    let p = parts@[i as int]@;
                    if p.len() > 0 && p.last() == '\r' {
                        assert(p.skip(p.len() - 1) =~= "\r"@);
                    }
                }
                parts[i].clone()
            },
        };
        assert(line@ == without_cr(all[i as int]));
        let ghost o = views(out@);
        out.push(line);
        assert(views(out@) =~= o.push(line@));
        assert(views(out@) =~= Seq::new((i + 1) as nat, |k: int| without_cr(all[k])));
        i += 1;
    }
    let last = &parts[i];
    let ghost o = views(out@);
    if !last.as_str().is_empty() {
        out.push(last.clone());
        assert(views(out@) =~= o.push(last@));
    }
    out
}

/// `s` with every occurrence of `p` replaced by `t`.
pub fn replace(s: &str, p: &str, t: &str) -> (r: String)
    requires
        p@.len() > 0,
    ensures
        r@ == replaced(s@, p@, t@),
{
    let v = chars_of(s);
    let w = chars_of(p);
    let mut out = String::new();
    let mut pos: usize = 0;
    loop
        invariant
            w@.len() > 0,
            v@ == s@,
            w@ == p@,
            pos <= v@.len(),
            out@ + replaced_from(v@, w@, t@, pos as int) == replaced(s@, p@, t@),
        decreases v@.len() - pos,
    {
        match find_at(&v, &w, pos) {
            Some(i) => {
                let ghost before = out@;
                let piece = string_of(&v, pos, i);
                out.append(piece.as_str());
                out.append(t);
                assert(out@ + replaced_from(v@, w@, t@, i + w@.len()) =~= before + (v@.subrange(
                    pos as int,
                    i as int,
                ) + t@ + replaced_from(v@, w@, t@, i + w@.len())));
                assert(i + w@.len() <= v.len());
                pos = i + w.len();
            },
            None => {
                let rest = string_of(&v, pos, v.len());
                assert(v@.subrange(pos as int, v@.len() as int) =~= v@.skip(pos as int));
                out.append(rest.as_str());
                return out;
            },
        }
    }
}

/// The texts with `sep` between neighbours.
pub fn join_with(parts: &Vec<String>, sep: &str) -> (r: String)
    ensures
        r@ == join(views(parts@), sep@),
{
    let ghost all = views(parts@);
    let mut out = String::new();
    let mut i: usize = 0;
    assert(all.take(0) =~= Seq::<Seq<char>>::empty());
    while i < parts.len()
        invariant
            i <= parts@.len(),
            all == views(parts@),
            out@ == join(all.take(i as int), sep@),
        decreases parts@.len() - i,
    {
        let ghost t = all.take(i + 1);
        assert(t.drop_last() =~= all.take(i as int));
        if i > 0 {
            out.append(sep);
        }
        out.append(parts[i].as_str());
        assert(out@ =~= join(t, sep@));
        i += 1;
    }
    assert(all.take(all.len() as int) =~= all);
    out
}

/// The decimal digit for `d`.
fn digit_char(d: u64) -> (r: char)
    requires
        d < 10,
    ensures
        r == digit_of(d as nat),
{
    (48 + d as u8) as char
}

/// `n` in decimal.
pub fn decimal_of(n: u64) -> (r: String)
    ensures
        r@ == decimal(n as nat),
    decreases n,
{
    if n < 10 {
        let mut out = String::new();
        out.push(digit_char(n));
        assert(out@ =~= decimal(n as nat));
        out
    } else {
        let mut out = decimal_of(n / 10);
        out.push(digit_char(n % 10));
        out
    }
}

/// What `s` stands for as an unsigned decimal number of at most `max`.
pub fn parse_up_to(s: &str, max: u64) -> (r: Option<u64>)
    ensures
        r is Some <==> parsed(s@, max as nat) is Some,
        r matches Some(n) ==> parsed(s@, max as nat) == Some(n as nat),
        r matches Some(n) ==> n <= max,
{
    let v = chars_of(s);
    let from: usize = if v.len() > 0 && v[0] == '+' {
        1
    } else {
        0
    };
    let ghost d = unsigned_digits(s@);
    assert(d =~= v@.skip(from as int));
    if from == v.len() {
        return None;
    }
    let mut acc: u128 = 0;
    let mut i: usize = from;
    assert(d.take(0) =~= Seq::<char>::empty());
    while i < v.len()
        invariant
            from <= i <= v@.len(),
            d == v@.skip(from as int),
            d == unsigned_digits(s@),
            acc == number(d.take(i - from)),
            acc <= max,
            forall|k: int| 0 <= k < i - from ==> is_digit(#[trigger] d[k]),
        decreases v@.len() - i,
    {
        let c = v[i];
        assert(c == d[i - from]);
        if !('0' <= c && c <= '9') {
            assert(!is_digit(d[i - from]));
            return None;
        }
        let ghost t = d.take(i - from + 1);
        assert(t.drop_last() =~= d.take(i - from));
        acc = acc * 10 + (c as u32 - 48) as u128;
        assert(acc == number(t));
        if acc > max as u128 {
            proof {
                lemma_number_prefix(d, i - from + 1);
            }
            return None;
        }
        i += 1;
    }
    assert(d.take(v@.len() - from) =~= d);
    Some(acc as u64)
}

/// `s` as a `u64`.
pub fn parse_u64(s: &str) -> (r: Option<u64>)
    ensures
        r is Some <==> parsed(s@, u64::MAX as nat) is Some,
        r matches Some(n) ==> parsed(s@, u64::MAX as nat) == Some(n as nat),
{
    parse_up_to(s, u64::MAX)
}

/// `s` as a `u32`.
pub fn parse_u32(s: &str) -> (r: Option<u32>)
    ensures
        r is Some <==> parsed(s@, u32::MAX as nat) is Some,
        r matches Some(n) ==> parsed(s@, u32::MAX as nat) == Some(n as nat),
{
    match parse_up_to(s, u32::MAX as u64) {
        Some(n) => Some(n as u32),
        None => None,
    }
}

/// `s` as a `u16`.
pub fn parse_u16(s: &str) -> (r: Option<u16>)
    ensures
        r is Some <==> parsed(s@, u16::MAX as nat) is Some,
        r matches Some(n) ==> parsed(s@, u16::MAX as nat) == Some(n as nat),
{
    match parse_up_to(s, u16::MAX as u64) {
        Some(n) => Some(n as u16),
        None => None,
    }
}

/// Whether `a` comes before `b` in the order of texts.
pub fn comes_before(a: &str, b: &str) -> (r: bool)
    ensures
        r == before(a@, b@),
{
    let v = chars_of(a);
    let w = chars_of(b);
    let mut i: usize = 0;
    assert(v@.skip(0) =~= v@);
    assert(w@.skip(0) =~= w@);
    while i < v.len() && i < w.len()
        invariant
            i <= v@.len(),
            i <= w@.len(),
            v@ == a@,
            w@ == b@,
            before(a@, b@) == before(v@.skip(i as int), w@.skip(i as int)),
        decreases v@.len() - i,
    {
        assert(v@.skip(i as int).drop_first() =~= v@.skip(i + 1));
        assert(w@.skip(i as int).drop_first() =~= w@.skip(i + 1));
        if v[i] != w[i] {
            return v[i] < w[i];
        }
        i += 1;
    }
    i < w.len()
}

/// `s` with its ASCII capitals as small letters.
pub fn to_ascii_lower(s: &str) -> (r: String)
    ensures
        r@ == ascii_lower(s@),
{
    let v = chars_of(s);
    let mut out = String::new();
    let mut i: usize = 0;
    while i < v.len()
        invariant
            i <= v@.len(),
            v@ == s@,
            out@ == ascii_lower(s@).take(i as int),
        decreases v@.len() - i,
    {
        let c = v[i];
        let small = if 'A' <= c && c <= 'Z' {
            (c as u8 + 32) as char
        } else {
            c
        };
        assert(small == ascii_small(c));
        out.push(small);
        i += 1;
    }
    assert(ascii_lower(s@).take(v@.len() as int) =~= ascii_lower(s@));
    out
}

} // verus!
