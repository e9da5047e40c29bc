//! Small verified helpers for building strings.

use vstd::prelude::*;
use vstd::std_specs::iter::IteratorSpec;

verus! {

/// Relies on `String::push`: appends one character.
#[verifier::external_body]
pub(crate) fn push_char(s: &mut String, c: char)
    ensures
        final(s)@ == old(s)@.push(c),
{
    s.push(c)
}

/// The decimal digit for `d`, which is below ten.
pub open spec fn digit_char(d: nat) -> char {
    if d == 0 {
        '0'
    } else if d == 1 {
        '1'
    } else if d == 2 {
        '2'
    } else if d == 3 {
        '3'
    } else if d == 4 {
        '4'
    } else if d == 5 {
        '5'
    } else if d == 6 {
        '6'
    } else if d == 7 {
        '7'
    } else if d == 8 {
        '8'
    } else {
        '9'
    }
}

/// The decimal notation of `n`, without leading zeros.
pub open spec fn decimal(n: nat) -> Seq<char>
    decreases n,
{
    if n < 10 {
        seq![digit_char(n)]
    } else {
        decimal(n / 10).push(digit_char(n % 10))
    }
}

fn digit_of(d: u64) -> (c: char)
    requires
        d < 10,
    ensures
        c == digit_char(d as nat),
{
    if d == 0 {
        '0'
    } else if d == 1 {
        '1'
    } else if d == 2 {
        '2'
    } else if d == 3 {
        '3'
    } else if d == 4 {
        '4'
    } else if d == 5 {
        '5'
    } else if d == 6 {
        '6'
    } else if d == 7 {
        '7'
    } else if d == 8 {
        '8'
    } else {
        '9'
    }
}

/// Appends the decimal notation of `n` to `s`.
pub fn push_decimal(s: &mut String, n: u64)
    ensures
        final(s)@ == old(s)@ + decimal(n as nat),
    decreases n,
{
    if n >= 10 {
        push_decimal(s, n / 10);
    }
    push_char(s, digit_of(n % 10));
    proof {
        if n < 10 {
            assert(old(s)@ + decimal(n as nat) =~= old(s)@.push(digit_char(n as nat)));
        } else {
            assert(old(s)@ + decimal(n as nat) =~= (old(s)@ + decimal((n / 10) as nat)).push(
                digit_char((n % 10) as nat),
            ));
        }
    }
}

/// Whether two strings hold the same characters.
pub fn str_eq(a: &str, b: &str) -> (r: bool)
    ensures
        r == (a@ == b@),
{
    let n = a.unicode_len();
    if n != b.unicode_len() {
        return false;
    }
    let mut i: usize = 0;
    while i < n
        invariant
            n == a@.len(),
            n == b@.len(),
            i <= n,
            a@.subrange(0, i as int) == b@.subrange(0, i as int),
        decreases n - i,
    {
        if a.get_char(i) != b.get_char(i) {
            return false;
        }
        i = i + 1;
        assert(a@.subrange(0, i as int) =~= a@.subrange(0, i - 1).push(a@[i - 1]));
        assert(b@.subrange(0, i as int) =~= b@.subrange(0, i - 1).push(b@[i - 1]));
    }
    assert(a@ =~= a@.subrange(0, n as int));
    assert(b@ =~= b@.subrange(0, n as int));
    true
}

/// The characters of `s`, in order.
pub fn chars_of(s: &str) -> (r: Vec<char>)
    ensures
        r@ == s@,
{
    broadcast use vstd::string::group_string_axioms;

    let mut it = s.chars();
    let mut v: Vec<char> = Vec::new();
    loop
        invariant
            it.obeys_prophetic_iter_laws(),
            s@ == v@ + it.remaining(),
            it.decrease() is Some,
        ensures
            v@ == s@,
        decreases it.decrease()->0,
    {
        let ghost before = it;
        match it.next() {
            Some(c) => {
                v.push(c);
            },
            None => {
                assert(before.remaining().len() == 0);
                assert(v@ =~= s@);
                break;
            },
        }
    }
    v
}

/// The index of the first `c` in `s`, or the length of `s` when there is none.
pub open spec fn first_index(s: Seq<char>, c: char) -> int
    decreases s.len(),
{
    if s.len() == 0 {
        0
    } else if s[0] == c {
        0
    } else {
        1 + first_index(s.drop_first(), c)
    }
}

/// `first_index` is the one position before which no `c` stands and at which `c` stands,
/// unless it is the end.
pub proof fn lemma_first_index(s: Seq<char>, c: char, i: int)
    requires
        0 <= i <= s.len(),
        forall|j: int| 0 <= j < i ==> s[j] != c,
        i < s.len() ==> s[i] == c,
    ensures
        first_index(s, c) == i,
    decreases i,
{
    if i > 0 {
        lemma_first_index(s.drop_first(), c, i - 1);
    }
}

/// `first_index` lies within the sequence, at a `c` unless it is the end, with no `c`
/// before it.
pub proof fn lemma_first_index_bounds(s: Seq<char>, c: char)
    ensures
        0 <= first_index(s, c) <= s.len(),
        first_index(s, c) < s.len() ==> s[first_index(s, c)] == c,
        forall|j: int| 0 <= j < first_index(s, c) ==> s[j] != c,
    decreases s.len(),
{
    if s.len() > 0 && s[0] != c {
        lemma_first_index_bounds(s.drop_first(), c);
        assert forall|j: int| 0 <= j < first_index(s, c) implies s[j] != c by {
            if j > 0 {
                assert(s[j] == s.drop_first()[j - 1]);
            }
        }
    }
}

/// The position of the first `c` in `v[lo..hi]`, or `hi` when there is none.
pub fn find(v: &Vec<char>, c: char, lo: usize, hi: usize) -> (r: usize)
    requires
        lo <= hi <= v@.len(),
    ensures
        r == lo + first_index(v@.subrange(lo as int, hi as int), c),
        lo <= r <= hi,
{
    let mut i = lo;
    while i < hi
        invariant
            lo <= i <= hi <= v@.len(),
            forall|j: int| lo <= j < i ==> v@[j] != c,
        ensures
            lo <= i <= hi,
            forall|j: int| lo <= j < i ==> v@[j] != c,
            i < hi ==> v@[i as int] == c,
        decreases hi - i,
    {
        if v[i] == c {
            break;
        }
        i = i + 1;
    }
    proof {
        lemma_first_index(v@.subrange(lo as int, hi as int), c, i - lo);
    }
    i
}

/// The pieces of `s` between occurrences of `sep`; there is always at least one.
pub open spec fn split_on(s: Seq<char>, sep: char) -> Seq<Seq<char>>
    decreases s.len(),
{
    let k = first_index(s, sep);
    if k < 0 || k >= s.len() {
        seq![s]
    } else {
        seq![s.subrange(0, k)] + split_on(s.subrange(k + 1, s.len() as int), sep)
    }
}

/// One step of `split_on`, from the position `e` of the first separator.
pub proof fn lemma_split_step(s: Seq<char>, sep: char, e: int)
    requires
        e == first_index(s, sep),
        0 <= e <= s.len(),
    ensures
        e == s.len() ==> split_on(s, sep) == seq![s],
        e < s.len() ==> split_on(s, sep) == seq![s.subrange(0, e)] + split_on(
            s.subrange(e + 1, s.len() as int),
            sep,
        ),
{
}

/// Splitting text that follows a piece ending in the separator: the pieces of `a`, less
/// the empty one after its last separator, then the pieces of `b`.
pub proof fn lemma_split_concat(a: Seq<char>, b: Seq<char>, sep: char)
    requires
        a.len() > 0,
        a.last() == sep,
    ensures
        split_on(a + b, sep) == split_on(a, sep).drop_last() + split_on(b, sep),
    decreases a.len(),
{
    let ab = a + b;
    lemma_first_index_bounds(a, sep);
    let k = first_index(a, sep);
    assert(k < a.len()) by {
        if k >= a.len() {
            assert(a[a.len() - 1] != sep);
        }
    }
    lemma_first_index(ab, sep, k);
    assert(ab.subrange(0, k) =~= a.subrange(0, k));
    let rest = a.subrange(k + 1, a.len() as int);
    assert(ab.subrange(k + 1, ab.len() as int) =~= rest + b);
    if rest.len() == 0 {
        assert(rest + b =~= b);
        lemma_first_index(rest, sep, 0);
        assert(split_on(rest, sep) == seq![rest]);
        assert(split_on(a, sep).drop_last() =~= seq![a.subrange(0, k)]);
    } else {
        assert(rest.last() == sep);
        lemma_split_concat(rest, b, sep);
        let sr = split_on(rest, sep);
        assert(sr.len() > 0) by {
            lemma_first_index_bounds(rest, sep);
        }
        assert(split_on(a, sep).drop_last() =~= seq![a.subrange(0, k)] + sr.drop_last());
        assert(split_on(ab, sep) =~= seq![a.subrange(0, k)] + (sr.drop_last() + split_on(b, sep)));
    }
}

/// Whether `s` begins with `p`.
pub open spec fn starts_with(s: Seq<char>, p: Seq<char>) -> bool {
    p.len() <= s.len() && s.subrange(0, p.len() as int) == p
}

/// Whether `v[lo..hi]` begins with `p`.
pub fn starts_with_at(v: &Vec<char>, lo: usize, hi: usize, p: &[char]) -> (r: bool)
    requires
        lo <= hi <= v@.len(),
    ensures
        r == starts_with(v@.subrange(lo as int, hi as int), p@),
{
    let ghost s = v@.subrange(lo as int, hi as int);
    if p.len() > hi - lo {
        return false;
    }
    let mut i: usize = 0;
    while i < p.len()
        invariant
            p@.len() <= hi - lo,
            lo <= hi <= v@.len(),
            s == v@.subrange(lo as int, hi as int),
            i <= p@.len(),
            forall|j: int| 0 <= j < i ==> s[j] == p@[j],
        decreases p@.len() - i,
    {
        if v[lo + i] != p[i] {
            assert(s.subrange(0, p@.len() as int)[i as int] != p@[i as int]);
            return false;
        }
        i = i + 1;
    }
    assert(s.subrange(0, p@.len() as int) =~= p@);
    true
}

/// The characters `v[lo..hi]` as a string.
pub fn string_of(v: &Vec<char>, lo: usize, hi: usize) -> (r: String)
    requires
        lo <= hi <= v@.len(),
    ensures
        r@ == v@.subrange(lo as int, hi as int),
{
    let mut s = String::new();
    let mut i = lo;
    while i < hi
        invariant
            lo <= i <= hi <= v@.len(),
            s@ == v@.subrange(lo as int, i as int),
        decreases hi - i,
    {
        push_char(&mut s, v[i]);
        i = i + 1;
        assert(s@ =~= v@.subrange(lo as int, i as int));
    }
    s
}

/// The value of a digit in the given radix (up to 36), if it is one.
pub open spec fn digit_value(c: char, radix: nat) -> Option<nat> {
    let k = c as u32 as int;
    let d = if 48 <= k <= 57 {
        k - 48
    } else if 97 <= k <= 122 {
        k - 87
    } else if 65 <= k <= 90 {
        k - 55
    } else {
        36
    };
    if d < radix {
        Some(d as nat)
    } else {
        None
    }
}

/// Every character of `s` is a digit in the radix.
pub open spec fn all_digits(s: Seq<char>, radix: nat) -> bool {
    forall|i: int| 0 <= i < s.len() ==> (#[trigger] digit_value(s[i], radix)) is Some
}

/// The number that the digits `s` write in the radix.
pub open spec fn digits_value(s: Seq<char>, radix: nat) -> nat
    decreases s.len(),
{
    if s.len() == 0 {
        0
    } else {
        digits_value(s.drop_last(), radix) * radix + match digit_value(s.last(), radix) {
            Some(d) => d,
            None => 0,
        }
    }
}

/// An unsigned number as Rust's standard parsers read it: an optional `+`, then at least
/// one digit in the radix, with a value of at most `max`.
pub open spec fn unsigned_of(s: Seq<char>, radix: nat, max: nat) -> Option<nat> {
    let body = if s.len() > 0 && s[0] == '+' {
        s.drop_first()
    } else {
        s
    };
    if body.len() > 0 && all_digits(body, radix) && digits_value(body, radix) <= max {
        Some(digits_value(body, radix))
    } else {
        None
    }
}

proof fn lemma_digits_value_grows(s: Seq<char>, radix: nat, i: int)
    requires
        radix >= 1,
        0 <= i <= s.len(),
    ensures
        digits_value(s.subrange(0, i), radix) <= digits_value(s, radix),
    decreases s.len() - i,
{
    if i < s.len() {
        lemma_digits_value_grows(s, radix, i + 1);
        let a = s.subrange(0, i);
        let b = s.subrange(0, i + 1);
        assert(b.drop_last() =~= a);
        let d: nat = match digit_value(b.last(), radix) {
            Some(d) => d,
            None => 0,
        };
        assert(digits_value(a, radix) * radix + d >= digits_value(a, radix)) by (nonlinear_arith)
            requires
                radix >= 1,
        ;
    } else {
        assert(s.subrange(0, i) =~= s);
    }
}

proof fn lemma_digits_step(body: Seq<char>, radix: nat, k: int)
    requires
        0 <= k < body.len(),
        all_digits(body.subrange(0, k), radix),
        digit_value(body[k], radix) is Some,
    ensures
        all_digits(body.subrange(0, k + 1), radix),
        digits_value(body.subrange(0, k + 1), radix) == digits_value(body.subrange(0, k), radix)
            * radix + digit_value(body[k], radix)->0,
{
    let pre = body.subrange(0, k);
    let next = body.subrange(0, k + 1);
    assert(next.drop_last() =~= pre);
    assert forall|j: int| 0 <= j < k + 1 implies (#[trigger] digit_value(next[j], radix)) is Some by {
        if j < k {
            assert(next[j] == pre[j]);
        }
    }
}

proof fn lemma_mul_bound(val: u128, radix: u128)
    requires
        val <= u64::MAX,
        radix <= 36,
    ensures
        val * radix + 36 <= u128::MAX,
{
    assert(val * radix <= (u64::MAX as u128) * 36) by (nonlinear_arith)
        requires
            val <= u64::MAX,
            radix <= 36,
    ;
}

fn digit_at(c: char, radix: u32) -> (r: Option<u32>)
    requires
        radix <= 36,
    ensures
        r matches Some(d) ==> digit_value(c, radix as nat) == Some(d as nat),
        r is None ==> digit_value(c, radix as nat) is None,
{
    let k = c as u32;
    let d = if 48 <= k && k <= 57 {
        k - 48
    } else if 97 <= k && k <= 122 {
        k - 87
    } else if 65 <= k && k <= 90 {
        k - 55
    } else {
        36
    };
    if d < radix {
        Some(d)
    } else {
        None
    }
}

/// Reads `v[lo..hi]` as an unsigned number in `radix`, as Rust's standard parsers do,
/// refusing a value above `max`.
pub fn parse_unsigned(v: &Vec<char>, lo: usize, hi: usize, radix: u32, max: u64) -> (r: Option<u64>)
    requires
        lo <= hi <= v@.len(),
        2 <= radix <= 36,
    ensures
        r == (match unsigned_of(v@.subrange(lo as int, hi as int), radix as nat, max as nat) {
            Some(n) => Some(n as u64),
            None => None,
        }),
{
    let ghost s = v@.subrange(lo as int, hi as int);
    let mut start = lo;
    if lo < hi && v[lo] == '+' {
        start = lo + 1;
    }
    let ghost body = v@.subrange(start as int, hi as int);
    proof {
        if lo < hi && v@[lo as int] == '+' {
            assert(body =~= s.drop_first());
        } else {
            assert(body =~= s);
        }
        assert(unsigned_of(s, radix as nat, max as nat) == if body.len() > 0 && all_digits(
            body,
            radix as nat,
        ) && digits_value(body, radix as nat) <= max {
            Some(digits_value(body, radix as nat))
        } else {
            None
        });
    }
    if start == hi {
        return None;
    }
    let mut val: u128 = 0;
    let mut i = start;
    while i < hi
        invariant
            lo <= start <= i <= hi <= v@.len(),
            2 <= radix <= 36,
            body == v@.subrange(start as int, hi as int),
            all_digits(body.subrange(0, i - start), radix as nat),
            val == digits_value(body.subrange(0, i - start), radix as nat),
            val <= max,
            unsigned_of(v@.subrange(lo as int, hi as int), radix as nat, max as nat) == if body.len()
                > 0 && all_digits(body, radix as nat) && digits_value(body, radix as nat) <= max {
                Some(digits_value(body, radix as nat))
            } else {
                None
            },
        decreases hi - i,
    {
        let k = i - start;
        match digit_at(v[i], radix) {
            Some(d) => {
                proof {
                    lemma_digits_step(body, radix as nat, k as int);
                    lemma_mul_bound(val, radix as u128);
                }
                val = val * (radix as u128) + (d as u128);
                if val > max as u128 {
                    proof {
                        lemma_digits_value_grows(body, radix as nat, k + 1);
                    }
                    return None;
                }
            },
            None => {
                assert(digit_value(body[k as int], radix as nat) is None);
                return None;
            },
        }
        i = i + 1;
    }
    assert(body.subrange(0, hi - start) =~= body);
    Some(val as u64)
}

/// Whether `c` is white space in Unicode's sense, as `char::is_whitespace` tells it.
pub open spec fn is_ws(c: char) -> bool {
    let k = c as u32;
    (9 <= k <= 13) || k == 32 || k == 0x85 || k == 0xA0 || k == 0x1680 || (0x2000 <= k <= 0x200A)
        || k == 0x2028 || k == 0x2029 || k == 0x202F || k == 0x205F || k == 0x3000
}

/// Whether `c` is white space in Unicode's sense.
pub fn is_whitespace(c: char) -> (r: bool)
    ensures
        r == is_ws(c),
{
    let k = c as u32;
    (9 <= k && k <= 13) || k == 32 || k == 0x85 || k == 0xA0 || k == 0x1680 || (0x2000 <= k && k
        <= 0x200A) || k == 0x2028 || k == 0x2029 || k == 0x202F || k == 0x205F || k == 0x3000
}

/// `s` without its leading white space.
pub open spec fn trim_start(s: Seq<char>) -> Seq<char>
    decreases s.len(),
{
    if s.len() > 0 && is_ws(s[0]) {
        trim_start(s.drop_first())
    } else {
        s
    }
}

/// `s` without its trailing white space.
pub open spec fn trim_end(s: Seq<char>) -> Seq<char>
    decreases s.len(),
{
    if s.len() > 0 && is_ws(s.last()) {
        trim_end(s.drop_last())
    } else {
        s
    }
}

/// `s` without white space at either end.
pub open spec fn trim(s: Seq<char>) -> Seq<char> {
    trim_end(trim_start(s))
}

/// The bounds of `v[lo..hi]` without white space at either end.
pub fn trim_at(v: &Vec<char>, lo: usize, hi: usize) -> (r: (usize, usize))
    requires
        lo <= hi <= v@.len(),
    ensures
        lo <= r.0 <= r.1 <= hi,
        v@.subrange(r.0 as int, r.1 as int) == trim(v@.subrange(lo as int, hi as int)),
{
    let mut a = lo;
    while a < hi && is_whitespace(v[a])
        invariant
            lo <= a <= hi <= v@.len(),
            trim_start(v@.subrange(lo as int, hi as int)) == trim_start(v@.subrange(a as int, hi as int)),
        decreases hi - a,
    {
        assert(v@.subrange(a as int, hi as int).drop_first() =~= v@.subrange(a + 1, hi as int));
        a = a + 1;
    }
    let mut b = hi;
    while b > a && is_whitespace(v[b - 1])
        invariant
            lo <= a <= b <= hi <= v@.len(),
            trim_end(v@.subrange(a as int, hi as int)) == trim_end(v@.subrange(a as int, b as int)),
        decreases b - a,
    {
        assert(v@.subrange(a as int, b as int).drop_last() =~= v@.subrange(a as int, b - 1));
        b = b - 1;
    }
    (a, b)
}

/// The words of `s`: its longest runs of characters that are not white space, in order,
/// as `str::split_whitespace` gives them.
pub open spec fn words(s: Seq<char>) -> Seq<Seq<char>>
    decreases s.len(),
{
    if s.len() == 0 {
        Seq::empty()
    } else {
        let w = words(s.drop_last());
        let c = s.last();
        if is_ws(c) {
            w
        } else if s.len() >= 2 && !is_ws(s[s.len() - 2]) {
            w.update(w.len() - 1, w.last().push(c))
        } else {
            w.push(seq![c])
        }
    }
}

/// `spans` are the bounds in `s` of the words of `s`, in order.
pub open spec fn spans_of_words(spans: Seq<(usize, usize)>, s: Seq<char>) -> bool {
    &&& spans.len() == words(s).len()
    &&& forall|j: int|
        0 <= j < spans.len() ==> {
            let (a, b) = #[trigger] spans[j];
            &&& a <= b <= s.len()
            &&& s.subrange(a as int, b as int) == words(s)[j]
        }
}

/// The bounds of each word of `v`, in order.
pub fn word_spans(v: &Vec<char>) -> (r: Vec<(usize, usize)>)
    ensures
        spans_of_words(r@, v@),
{
    let n = v.len();
    let mut spans: Vec<(usize, usize)> = Vec::new();
    let mut i: usize = 0;
    while i < n
        invariant
            n == v@.len(),
            i <= n,
            spans_of_words(spans@, v@.subrange(0, i as int)),
            i > 0 && !is_ws(v@[i - 1]) ==> spans@.len() > 0 && spans@.last().1 == i,
        decreases n - i,
    {
        let ghost pre = v@.subrange(0, i as int);
        let ghost next = v@.subrange(0, i + 1);
        proof {
            assert(next.drop_last() =~= pre);
            assert(next.last() == v@[i as int]);
            if i >= 1 {
                assert(next[next.len() - 2] == v@[i - 1]);
            }
        }
        let c = v[i];
        let ghost old_spans = spans@;
        if is_whitespace(c) {
        } else if i >= 1 && !is_whitespace(v[i - 1]) {
            let last = spans.len() - 1;
            let (a, _) = spans[last];
            proof {
                let _ = old_spans[last as int];
            }
            spans.set(last, (a, i + 1));
            proof {
                assert(v@.subrange(a as int, i + 1) =~= v@.subrange(a as int, i as int).push(c));
                assert(pre.subrange(a as int, i as int) =~= v@.subrange(a as int, i as int));
            }
        } else {
            spans.push((i, i + 1));
            proof {
                assert(v@.subrange(i as int, i + 1) =~= seq![c]);
            }
        }
        proof {
            assert forall|j: int| 0 <= j < spans@.len() implies {
                let (a, b) = #[trigger] spans@[j];
                &&& a <= b <= next.len()
                &&& next.subrange(a as int, b as int) == words(next)[j]
            } by {
                if j < old_spans.len() {
                    let _ = old_spans[j];
                    let (a, b) = old_spans[j];
                    assert(pre.subrange(a as int, b as int) =~= next.subrange(a as int, b as int));
                }
                if j == spans@.len() - 1 {
                    let (a, b) = spans@[j];
                    assert(next.subrange(a as int, b as int) =~= v@.subrange(a as int, b as int));
                }
            }
        }
        i = i + 1;
        assert(next == v@.subrange(0, i as int));
    }
    assert(v@.subrange(0, n as int) =~= v@);
    spans
}

} // verus!
