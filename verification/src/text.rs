//! Text utilities over sequences of characters: splitting a path into its
//! segments, joining them again, ordering strings and decimal notation.

use vstd::prelude::*;
use vstd::string::*;

verus! {

/// The position of the first `/` in `s`, or the length of `s` if it has none.
pub open spec fn first_slash(s: Seq<char>) -> nat
    decreases s.len(),
{
    if s.len() == 0 || s[0] == '/' {
        0
    } else {
        1 + first_slash(s.drop_first())
    }
}

/// The pieces of `s` between its `/` characters, in order.  There is always
/// at least one piece; a piece may be empty.
pub open spec fn segments(s: Seq<char>) -> Seq<Seq<char>>
    decreases s.len(),
{
    let k = first_slash(s);
    if k >= s.len() {
        seq![s]
    } else {
        seq![s.take(k as int)] + segments(s.skip(k as int + 1))
    }
}

/// The segments written one after another with a `/` between neighbours.
pub open spec fn join(segs: Seq<Seq<char>>) -> Seq<char>
    decreases segs.len(),
{
    if segs.len() == 0 {
        Seq::empty()
    } else if segs.len() == 1 {
        segs[0]
    } else {
        join(segs.drop_last()) + seq!['/'] + segs.last()
    }
}

/// No character of `s` is a `/`.
pub open spec fn slash_free(s: Seq<char>) -> bool {
    forall|i: int| 0 <= i < s.len() ==> s[i] != '/'
}

/// The first `/` is within the text, or the text has none.
pub proof fn lemma_first_slash_bounds(s: Seq<char>)
    ensures
        first_slash(s) <= s.len(),
        first_slash(s) < s.len() ==> s[first_slash(s) as int] == '/',
        forall|i: int| 0 <= i < first_slash(s) ==> s[i] != '/',
    decreases s.len(),
{
    if s.len() == 0 || s[0] == '/' {
    } else {
        lemma_first_slash_bounds(s.drop_first());
        assert forall|i: int| 0 <= i < first_slash(s) implies s[i] != '/' by {
            if i > 0 {
                assert(s[i] == s.drop_first()[i - 1]);
            }
        }
    }
}

/// The first `/` is where a scan from the left finds it.
pub proof fn lemma_first_slash_is(s: Seq<char>, k: int)
    requires
        0 <= k <= s.len(),
        forall|i: int| 0 <= i < k ==> s[i] != '/',
        k < s.len() ==> s[k] == '/',
    ensures
        first_slash(s) == k,
    decreases s.len(),
{
    if s.len() == 0 || s[0] == '/' {
    } else {
        let t = s.drop_first();
        assert forall|i: int| 0 <= i < k - 1 implies t[i] != '/' by {
            assert(t[i] == s[i + 1]);
        }
        lemma_first_slash_is(t, k - 1);
    }
}

/// A text has at least one segment, and no segment holds a `/`.
pub proof fn lemma_segments_slash_free(s: Seq<char>)
    ensures
        segments(s).len() >= 1,
        forall|i: int| 0 <= i < segments(s).len() ==> slash_free(#[trigger] segments(s)[i]),
    decreases s.len(),
{
    lemma_first_slash_bounds(s);
    let k = first_slash(s);
    if k >= s.len() {
        assert(slash_free(s));
    } else {
        let rest = s.skip(k as int + 1);
        lemma_segments_slash_free(rest);
        assert(slash_free(s.take(k as int)));
        assert forall|i: int| 0 <= i < segments(s).len() implies slash_free(
            #[trigger] segments(s)[i],
        ) by {
            if i > 0 {
                assert(segments(s)[i] == segments(rest)[i - 1]);
            }
        }
    }
}

/// Joining puts the first segment in front of the joined rest.
pub proof fn lemma_join_front(head: Seq<char>, rest: Seq<Seq<char>>)
    requires
        rest.len() >= 1,
    ensures
        join(seq![head] + rest) == head + seq!['/'] + join(rest),
    decreases rest.len(),
{
    let all = seq![head] + rest;
    assert(all.last() == rest.last());
    if rest.len() == 1 {
        assert(all.drop_last() =~= seq![head]);
        assert(join(all.drop_last()) == head);
    } else {
        assert(all.drop_last() =~= seq![head] + rest.drop_last());
        lemma_join_front(head, rest.drop_last());
        assert(join(all) =~= head + seq!['/'] + join(rest));
    }
}

/// Splitting what was joined gives the segments back, as long as none of
/// them holds a `/`.
pub proof fn lemma_segments_of_join(segs: Seq<Seq<char>>)
    requires
        segs.len() >= 1,
        forall|i: int| 0 <= i < segs.len() ==> slash_free(#[trigger] segs[i]),
    ensures
        segments(join(segs)) == segs,
    decreases segs.len(),
{
    let head = segs[0];
    if segs.len() == 1 {
        lemma_first_slash_is(head, head.len() as int);
        assert(segments(head) =~= segs);
    } else {
        let rest = segs.drop_first();
        assert(segs =~= seq![head] + rest);
        lemma_join_front(head, rest);
        let s = join(segs);
        assert(s == head + seq!['/'] + join(rest));
        assert forall|i: int| 0 <= i < head.len() implies s[i] != '/' by {
            assert(s[i] == head[i]);
        }
        assert(s[head.len() as int] == '/');
        lemma_first_slash_is(s, head.len() as int);
        assert(s.take(head.len() as int) =~= head);
        assert(s.skip(head.len() as int + 1) =~= join(rest));
        assert forall|i: int| 0 <= i < rest.len() implies slash_free(#[trigger] rest[i]) by {
            assert(rest[i] == segs[i + 1]);
        }
        lemma_segments_of_join(rest);
        assert(segments(s) =~= segs);
    }
}

/// Joining the segments of a text gives the text back.
pub proof fn lemma_join_of_segments(s: Seq<char>)
    ensures
        join(segments(s)) == s,
    decreases s.len(),
{
    lemma_first_slash_bounds(s);
    let k = first_slash(s);
    if k >= s.len() {
    } else {
        let rest = s.skip(k as int + 1);
        lemma_join_of_segments(rest);
        lemma_segments_slash_free(rest);
        lemma_join_front(s.take(k as int), segments(rest));
        assert(s =~= s.take(k as int) + seq!['/'] + rest);
    }
}

/// The strings of `v` as sequences of characters.
pub open spec fn texts(v: Seq<String>) -> Seq<Seq<char>> {
    Seq::new(v.len(), |i: int| v[i]@)
}

/// Copies a list of strings.
pub fn clone_strings(v: &Vec<String>) -> (r: Vec<String>)
    ensures
        texts(r@) == texts(v@),
{
    let mut out: Vec<String> = Vec::new();
    let mut i: usize = 0;
    while i < v.len()
        invariant
            i <= v.len(),
            out.len() == i,
            forall|j: int| 0 <= j < i ==> out[j]@ == v[j]@,
        decreases v.len() - i,
    {
        out.push(v[i].clone());
        i += 1;
    }
    assert(texts(out@) =~= texts(v@));
    out
}

/// The characters of `s` from position `from` up to, not including, `to`,
/// as a string of their own.
pub(crate) fn slice_to_string(s: &str, from: usize, to: usize) -> (r: String)
    requires
        from <= to <= s@.len(),
    ensures
        r@ == s@.subrange(from as int, to as int),
{
    String::from_str(s.substring_char(from, to))
}

/// Splits a path at each `/`.
pub fn split_segments(path: &str) -> (segs: Vec<String>)
    ensures
        texts(segs@) == segments(path@),
{
    let n: usize = path.unicode_len();
    let mut segs: Vec<String> = Vec::new();
    let mut start: usize = 0;
    let mut i: usize = 0;
    proof {
        assert(path@.skip(0) =~= path@);
        assert(texts(segs@) + segments(path@) =~= segments(path@));
    }
    while i < n
        invariant
            n == path@.len(),
            start <= i <= n,
            forall|j: int| start <= j < i ==> path@[j] != '/',
            segments(path@) == texts(segs@) + segments(path@.skip(start as int)),
        decreases n - i,
    {
        if path.get_char(i) == '/' {
            let ghost rest = path@.skip(start as int);
            let ghost before = texts(segs@);
            proof {
                assert forall|j: int| 0 <= j < i - start implies rest[j] != '/' by {
                    assert(rest[j] == path@[start + j]);
                }
                lemma_first_slash_is(rest, i - start);
                assert(rest.take(i - start) =~= path@.subrange(start as int, i as int));
                assert(rest.skip(i - start + 1) =~= path@.skip(i + 1));
            }
            segs.push(slice_to_string(path, start, i));
            proof {
                assert(texts(segs@) =~= before.push(path@.subrange(start as int, i as int)));
                assert(texts(segs@) + segments(path@.skip(i + 1)) =~= before + segments(rest));
            }
            start = i + 1;
        }
        i += 1;
    }
    let ghost rest = path@.skip(start as int);
    let ghost before = texts(segs@);
    proof {
        assert forall|j: int| 0 <= j < rest.len() implies rest[j] != '/' by {
            assert(rest[j] == path@[start + j]);
        }
        lemma_first_slash_is(rest, rest.len() as int);
        assert(rest =~= path@.subrange(start as int, n as int));
    }
    segs.push(slice_to_string(path, start, n));
    proof {
        assert(texts(segs@) =~= before.push(rest));
        assert(before.push(rest) =~= before + segments(rest));
    }
    segs
}

/// `prefix` is how `s` begins.
pub open spec fn starts_with(s: Seq<char>, prefix: Seq<char>) -> bool {
    prefix.len() <= s.len() && s.take(prefix.len() as int) == prefix
}

/// Whether `s` begins with `prefix`.
pub fn has_prefix(s: &str, prefix: &str) -> (r: bool)
    ensures
        r == starts_with(s@, prefix@),
{
    let n: usize = prefix.unicode_len();
    if s.unicode_len() < n {
        return false;
    }
    let mut i: usize = 0;
    while i < n
        invariant
            i <= n,
            n == prefix@.len(),
            n <= s@.len(),
            forall|j: int| 0 <= j < i ==> s@[j] == prefix@[j],
        decreases n - i,
    {
        if s.get_char(i) != prefix.get_char(i) {
            assert(s@.take(n as int)[i as int] != prefix@[i as int]);
            return false;
        }
        i += 1;
    }
    assert(s@.take(n as int) =~= prefix@);
    true
}

/// Whether two strings hold the same characters.
pub fn same_text(a: &str, b: &str) -> (r: bool)
    ensures
        r == (a@ == b@),
{
    let n: usize = a.unicode_len();
    if b.unicode_len() != n {
        return false;
    }
    let r = has_prefix(a, b);
    proof {
        assert(a@.take(n as int) =~= a@);
    }
    r
}

/// The order of strings: character by character from the left, the
/// smaller code point first, and a proper prefix before what it begins.
pub open spec fn text_before(a: Seq<char>, b: Seq<char>) -> bool
    decreases a.len(),
{
    if b.len() == 0 {
        false
    } else if a.len() == 0 {
        true
    } else if a[0] != b[0] {
        (a[0] as int) < (b[0] as int)
    } else {
        text_before(a.drop_first(), b.drop_first())
    }
}

/// Of two different texts exactly one comes before the other, and no text
/// comes before itself.
pub proof fn lemma_text_before_total(a: Seq<char>, b: Seq<char>)
    ensures
        text_before(a, b) || text_before(b, a) || a == b,
        !(text_before(a, b) && text_before(b, a)),
    decreases a.len(),
{
    if a.len() == 0 || b.len() == 0 {
        if a.len() == 0 && b.len() == 0 {
            assert(a =~= b);
        }
    } else if a[0] != b[0] {
    } else {
        lemma_text_before_total(a.drop_first(), b.drop_first());
        if a.drop_first() == b.drop_first() {
            assert(a =~= seq![a[0]] + a.drop_first());
            assert(b =~= seq![b[0]] + b.drop_first());
        }
    }
}

/// What comes before a text comes before everything after it.
pub proof fn lemma_text_before_transitive(a: Seq<char>, b: Seq<char>, c: Seq<char>)
    requires
        text_before(a, b),
        text_before(b, c),
    ensures
        text_before(a, c),
    decreases a.len(),
{
    if a.len() == 0 {
    } else if a[0] != b[0] {
        if b[0] != c[0] {
        } else {
        }
    } else {
        if b[0] != c[0] {
        } else {
            lemma_text_before_transitive(a.drop_first(), b.drop_first(), c.drop_first());
        }
    }
}

/// Two texts that agree up to position `k` are ordered as what follows.
pub proof fn lemma_text_before_from(a: Seq<char>, b: Seq<char>, k: int)
    requires
        0 <= k <= a.len(),
        k <= b.len(),
        forall|j: int| 0 <= j < k ==> a[j] == b[j],
    ensures
        text_before(a, b) == text_before(a.skip(k), b.skip(k)),
    decreases k,
{
    if k == 0 {
        assert(a.skip(0) =~= a);
        assert(b.skip(0) =~= b);
    } else {
        assert forall|j: int| 0 <= j < k - 1 implies a.drop_first()[j] == b.drop_first()[j] by {
            assert(a.drop_first()[j] == a[j + 1]);
            assert(b.drop_first()[j] == b[j + 1]);
        }
        lemma_text_before_from(a.drop_first(), b.drop_first(), k - 1);
        assert(a.drop_first().skip(k - 1) =~= a.skip(k));
        assert(b.drop_first().skip(k - 1) =~= b.skip(k));
    }
}

/// Whether `a` comes before `b` in the order of strings.
pub fn comes_before(a: &str, b: &str) -> (r: bool)
    ensures
        r == text_before(a@, b@),
{
    let n: usize = a.unicode_len();
    let m: usize = b.unicode_len();
    let mut i: usize = 0;
    while i < n && i < m
        invariant
            i <= n,
            i <= m,
            n == a@.len(),
            m == b@.len(),
            forall|j: int| 0 <= j < i ==> a@[j] == b@[j],
        decreases n - i,
    {
        let x = a.get_char(i);
        let y = b.get_char(i);
        if x != y {
            proof {
                lemma_text_before_from(a@, b@, i as int);
            }
            return (x as u32) < (y as u32);
        }
        i += 1;
    }
    proof {
        lemma_text_before_from(a@, b@, i as int);
    }
    i < m
}

/// The character that stands for the digit `d`.
pub open spec fn digit_char(d: nat) -> char {
    if d == 0 {
        '0'
    } else if d == 1 {
        '1'
    } else if d == 2 {
        '2'
    } else if d == 3 {
        '3'
    } else if d == 4 {
        '4'
    } else if d == 5 {
        '5'
    } else if d == 6 {
        '6'
    } else if d == 7 {
        '7'
    } else if d == 8 {
        '8'
    } else {
        '9'
    }
}

/// The decimal notation of `n`, without leading zeros.
pub open spec fn decimal(n: nat) -> Seq<char>
    decreases n,
{
    if n < 10 {
        seq![digit_char(n)]
    } else {
        decimal(n / 10).push(digit_char(n % 10))
    }
}

/// `c` is one of the ten digits.
pub open spec fn is_digit(c: char) -> bool {
    '0' as int <= c as int <= '9' as int
}

/// The digit that `c` stands for.
pub open spec fn digit_value(c: char) -> nat {
    (c as int - '0' as int) as nat
}

/// The number that a sequence of digits denotes.
pub open spec fn decimal_value(s: Seq<char>) -> nat
    decreases s.len(),
{
    if s.len() == 0 {
        0
    } else {
        decimal_value(s.drop_last()) * 10 + digit_value(s.last())
    }
}

/// Every character of `s` is a digit.
pub open spec fn all_digits(s: Seq<char>) -> bool {
    forall|i: int| 0 <= i < s.len() ==> is_digit(#[trigger] s[i])
}

/// The number that `s` denotes, if `s` is one or more digits and nothing
/// else.
pub open spec fn parse_decimal(s: Seq<char>) -> Option<nat> {
    if s.len() > 0 && all_digits(s) {
        Some(decimal_value(s))
    } else {
        None
    }
}

/// Reading the decimal notation of a number gives the number.
pub proof fn lemma_parse_decimal_of_decimal(n: nat)
    ensures
        parse_decimal(decimal(n)) == Some(n),
    decreases n,
{
    if n < 10 {
        assert(decimal(n).drop_last() =~= Seq::<char>::empty());
        assert(decimal_value(decimal(n).drop_last()) == 0);
    } else {
        lemma_parse_decimal_of_decimal(n / 10);
        let s = decimal(n);
        assert(s.drop_last() =~= decimal(n / 10));
        assert(digit_value(digit_char(n % 10)) == n % 10);
        assert forall|i: int| 0 <= i < s.len() implies is_digit(#[trigger] s[i]) by {
            if i < s.len() - 1 {
                assert(s[i] == decimal(n / 10)[i]);
            }
        }
    }
}

/// The decimal notation of `n`.
pub fn decimal_string(n: usize) -> (r: String)
    ensures
        r@ == decimal(n as nat),
    decreases n,
{
    let d: usize = n % 10;
    proof {
        reveal_strlit("0123456789");
    }
    let digits: &str = "0123456789";
    let last: &str = digits.substring_char(d, d + 1);
    assert(last@ =~= seq![digit_char(d as nat)]);
    if n < 10 {
        String::from_str(last)
    } else {
        let mut s = decimal_string(n / 10);
        s.append(last);
        s
    }
}

/// What the digits of a text say about a position in a list of `bound`
/// items.
#[derive(Debug, Clone, Copy, PartialEq, Eq, Structural)]
pub enum Ordinal {
    /// The text is not a number.
    Absent,
    /// The number, which is below the bound.
    Within(usize),
    /// The number is the bound or more.
    Beyond,
}

/// Reads the characters of `s` from position `from` on as a decimal number
/// and holds it against `bound`.
pub(crate) fn read_ordinal(s: &str, from: usize, bound: usize) -> (r: Ordinal)
    requires
        from <= s@.len(),
    ensures
        r == match parse_decimal(s@.skip(from as int)) {
            None => Ordinal::Absent,
            Some(n) => if n < bound {
                Ordinal::Within(n as usize)
            } else {
                Ordinal::Beyond
            },
        },
{
    let n: usize = s.unicode_len();
    let ghost digits = s@.skip(from as int);
    if from == n {
        return Ordinal::Absent;
    }
    let mut i: usize = from;
    let mut value: usize = 0;
    let mut beyond: bool = bound == 0;
    assert(digits.take(0) =~= Seq::<char>::empty());
    while i < n
        invariant
            from <= i <= n,
            n == s@.len(),
            digits == s@.skip(from as int),
            all_digits(digits.take(i - from)),
            beyond == (decimal_value(digits.take(i - from)) >= bound),
            !beyond ==> value == decimal_value(digits.take(i - from)),
        decreases n - i,
    {
        let c = s.get_char(i);
        let ghost before = digits.take(i - from);
        let ghost after = digits.take(i - from + 1);
        proof {
            assert(after.drop_last() =~= before);
            assert(after.last() == c);
        }
        if (c as u32) < ('0' as u32) || (c as u32) > ('9' as u32) {
            assert(!is_digit(digits[i - from]));
            return Ordinal::Absent;
        }
        let d: usize = (c as u32 - '0' as u32) as usize;
        assert(d == digit_value(c) && d <= 9);
        if !beyond {
            if value > (usize::MAX - d) / 10 {
                beyond = true;
            } else {
                value = value * 10 + d;
                beyond = value >= bound;
            }
        }
        proof {
            assert forall|j: int| 0 <= j < after.len() implies is_digit(#[trigger] after[j]) by {
                if j < after.len() - 1 {
                    assert(after[j] == before[j]);
                }
            }
        }
        i += 1;
    }
    assert(digits.take(n - from) =~= digits);
    if beyond {
        Ordinal::Beyond
    } else {
        Ordinal::Within(value)
    }
}

} // verus!
