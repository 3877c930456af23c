//! Text as sequences of characters: searching, trimming, splitting and rewriting.

use vstd::prelude::*;
use vstd::string::*;

verus! {

/// `String::push` of the standard library appends the given character to the end of the string.
pub assume_specification[ String::push ](s: &mut String, c: char)
    ensures
        final(s)@ == old(s)@.push(c),
;

/// Classes of characters that text is trimmed by.
#[derive(Clone, Copy, PartialEq, Eq, Structural, Debug)]
pub enum CharClass {
    /// The forward slash.
    Slash,
    /// The forward slash and the backslash.
    PathSeparator,
    /// The characters with the Unicode property `White_Space`.
    Whitespace,
}

/// The characters with the Unicode property `White_Space`.
pub open spec fn is_whitespace(c: char) -> bool {
    let u = c as u32;
    ||| 0x9 <= u <= 0xd
    ||| u == 0x20
    ||| u == 0x85
    ||| u == 0xa0
    ||| u == 0x1680
    ||| 0x2000 <= u <= 0x200a
    ||| u == 0x2028
    ||| u == 0x2029
    ||| u == 0x202f
    ||| u == 0x205f
    ||| u == 0x3000
}

impl CharClass {
    /// Whether `c` belongs to the class.
    pub open spec fn has(self, c: char) -> bool {
        match self {
            CharClass::Slash => c == '/',
            CharClass::PathSeparator => c == '/' || c == '\\',
            CharClass::Whitespace => is_whitespace(c),
        }
    }

    /// Tells whether `c` belongs to the class.
    pub fn contains(self, c: char) -> (r: bool)
        ensures
            r == self.has(c),
    {
        match self {
            CharClass::Slash => c == '/',
            CharClass::PathSeparator => c == '/' || c == '\\',
            CharClass::Whitespace => {
                let u: u32 = c as u32;
                (0x9 <= u && u <= 0xd) || u == 0x20 || u == 0x85 || u == 0xa0 || u == 0x1680 || (
                0x2000 <= u && u <= 0x200a) || u == 0x2028 || u == 0x2029 || u == 0x202f || u
                    == 0x205f || u == 0x3000
            },
        }
    }
}

/// The characters of `s`, in order.
pub fn to_chars(s: &str) -> (r: Vec<char>)
    ensures
        r@ == s@,
{
    let mut out: Vec<char> = Vec::new();
    for c in it: s.chars()
        invariant
            it.seq() == s@,
            out@ == s@.take(it.index() as int),
    {
        out.push(c);
    }
    out
}

/// The text made of the characters `from..to` of `cs`.
pub fn from_chars(cs: &Vec<char>, from: usize, to: usize) -> (r: String)
    requires
        from <= to <= cs@.len(),
    ensures
        r@ == cs@.subrange(from as int, to as int),
{
    let mut out = String::new();
    let mut i: usize = from;
    while i < to
        invariant
            from <= i <= to <= cs@.len(),
            out@ == cs@.subrange(from as int, i as int),
        decreases to - i,
    {
        out.push(cs[i]);
        i = i + 1;
    }
    out
}

/// Tells whether two texts are equal.
pub fn same_text(a: &str, b: &str) -> (r: bool)
    ensures
        r == (a@ == b@),
{
    let x = to_chars(a);
    let y = to_chars(b);
    if x.len() != y.len() {
        return false;
    }
    let mut i: usize = 0;
    while i < x.len()
        invariant
            x@ == a@,
            y@ == b@,
            x@.len() == y@.len(),
            i <= x@.len(),
            forall|j: int| 0 <= j < i ==> x@[j] == y@[j],
        decreases x@.len() - i,
    {
        if x[i] != y[i] {
            return false;
        }
        i = i + 1;
    }
    assert(x@ =~= y@);
    true
}

/// Tells whether an optional text is present and equal to `b`.
pub fn is_text(a: &Option<String>, b: &str) -> (r: bool)
    ensures
        r == (a is Some && a->Some_0@ == b@),
{
    match a {
        Some(t) => same_text(t.as_str(), b),
        None => false,
    }
}

/// The characters of an optional text.
pub open spec fn opt_text(t: Option<String>) -> Option<Seq<char>> {
    match t {
        Some(s) => Some(s@),
        None => None,
    }
}

/// The two texts, one after the other.
pub fn append(a: &str, b: &str) -> (r: String)
    ensures
        r@ == a@ + b@,
{
    let mut out = a.to_owned();
    out.append(b);
    out
}

/// Whether `s` begins with `prefix`.
pub open spec fn has_prefix(s: Seq<char>, prefix: Seq<char>) -> bool {
    s.len() >= prefix.len() && s.subrange(0, prefix.len() as int) == prefix
}

/// Whether `s` ends with `suffix`.
pub open spec fn has_suffix(s: Seq<char>, suffix: Seq<char>) -> bool {
    s.len() >= suffix.len() && s.subrange(s.len() - suffix.len(), s.len() as int) == suffix
}

/// Whether `needle` occurs somewhere in `s`.
pub open spec fn has_infix(s: Seq<char>, needle: Seq<char>) -> bool {
    exists|i: int|
        0 <= i <= s.len() - needle.len() && #[trigger] s.subrange(i, i + needle.len()) == needle
}

fn matches_at(s: &Vec<char>, at: usize, needle: &Vec<char>) -> (r: bool)
    requires
        at + needle@.len() <= s@.len(),
    ensures
        r == (s@.subrange(at as int, at + needle@.len()) == needle@),
{
    let n: usize = s.len();
    let mut i: usize = 0;
    while i < needle.len()
        invariant
            n == s@.len(),
            at + needle@.len() <= n,
            i <= needle@.len(),
            forall|j: int| 0 <= j < i ==> s@[at + j] == needle@[j],
        decreases needle@.len() - i,
    {
        if s[at + i] != needle[i] {
            assert(s@.subrange(at as int, at + needle@.len())[i as int] != needle@[i as int]);
            return false;
        }
        i = i + 1;
    }
    assert(s@.subrange(at as int, at + needle@.len()) =~= needle@);
    true
}

/// Tells whether `s` begins with `prefix`.
pub fn starts_with(s: &str, prefix: &str) -> (r: bool)
    ensures
        r == has_prefix(s@, prefix@),
{
    let x = to_chars(s);
    let p = to_chars(prefix);
    x.len() >= p.len() && matches_at(&x, 0, &p)
}

/// Tells whether `s` ends with `suffix`.
pub fn ends_with(s: &str, suffix: &str) -> (r: bool)
    ensures
        r == has_suffix(s@, suffix@),
{
    let x = to_chars(s);
    let p = to_chars(suffix);
    x.len() >= p.len() && matches_at(&x, x.len() - p.len(), &p)
}

/// Tells whether `needle` occurs somewhere in `s`.
pub fn contains(s: &str, needle: &str) -> (r: bool)
    ensures
        r == has_infix(s@, needle@),
{
    let x = to_chars(s);
    let p = to_chars(needle);
    if x.len() < p.len() {
        return false;
    }
    let last: usize = x.len() - p.len();
    let mut i: usize = 0;
    while i <= last
        invariant
            x@ == s@,
            p@ == needle@,
            last == x@.len() - p@.len(),
            i <= last + 1,
            forall|j: int| 0 <= j < i ==> #[trigger] x@.subrange(j, j + p@.len()) != p@,
        decreases last + 1 - i,
    {
        if matches_at(&x, i, &p) {
            return true;
        }
        if i == last {
            return false;
        }
        i = i + 1;
    }
    false
}

/// `s` with every `from` turned into `to`.
pub open spec fn replaced(s: Seq<char>, from: char, to: char) -> Seq<char> {
    s.map_values(
        |c: char|
            if c == from {
                to
            } else {
                c
            },
    )
}

/// Turns every `from` in `s` into `to`.
pub fn replace_char(s: &str, from: char, to: char) -> (r: String)
    ensures
        r@ == replaced(s@, from, to),
{
    let mut out = String::new();
    for c in it: s.chars()
        invariant
            it.seq() == s@,
            out@ == replaced(s@, from, to).take(it.index() as int),
    {
        if c == from {
            out.push(to);
        } else {
            out.push(c);
        }
    }
    out
}

/// `s` without the characters of `class` that it begins with.
pub open spec fn without_leading(s: Seq<char>, class: CharClass) -> Seq<char>
    decreases s.len(),
{
    if s.len() > 0 && class.has(s[0]) {
        without_leading(s.drop_first(), class)
    } else {
        s
    }
}

/// `s` without the characters of `class` that it ends with.
pub open spec fn without_trailing(s: Seq<char>, class: CharClass) -> Seq<char>
    decreases s.len(),
{
    if s.len() > 0 && class.has(s.last()) {
        without_trailing(s.drop_last(), class)
    } else {
        s
    }
}

/// `s` without the characters of `class` at either end.
pub open spec fn trimmed(s: Seq<char>, class: CharClass) -> Seq<char> {
    without_trailing(without_leading(s, class), class)
}

/// Removes the characters of `class` that `s` begins with.
pub fn trim_start(s: &str, class: CharClass) -> (r: String)
    ensures
        r@ == without_leading(s@, class),
{
    let cs = to_chars(s);
    let mut i: usize = 0;
    assert(cs@.skip(0) =~= cs@);
    while i < cs.len() && class.contains(cs[i])
        invariant
            cs@ == s@,
            i <= cs@.len(),
            without_leading(s@, class) == without_leading(cs@.skip(i as int), class),
        decreases cs@.len() - i,
    {
        assert(cs@.skip(i as int).drop_first() =~= cs@.skip(i + 1));
        i = i + 1;
    }
    assert(cs@.skip(i as int) =~= cs@.subrange(i as int, cs@.len() as int));
    from_chars(&cs, i, cs.len())
}

/// Removes the characters of `class` that `s` ends with.
pub fn trim_end(s: &str, class: CharClass) -> (r: String)
    ensures
        r@ == without_trailing(s@, class),
{
    let cs = to_chars(s);
    let mut n: usize = cs.len();
    assert(cs@.take(n as int) =~= cs@);
    while n > 0 && class.contains(cs[n - 1])
        invariant
            cs@ == s@,
            n <= cs@.len(),
            without_trailing(s@, class) == without_trailing(cs@.take(n as int), class),
        decreases n,
    {
        assert(cs@.take(n as int).drop_last() =~= cs@.take(n - 1));
        n = n - 1;
    }
    assert(cs@.take(n as int) =~= cs@.subrange(0, n as int));
    from_chars(&cs, 0, n)
}

/// Removes the characters of `class` at either end of `s`.
pub fn trim(s: &str, class: CharClass) -> (r: String)
    ensures
        r@ == trimmed(s@, class),
{
    let t = trim_start(s, class);
    trim_end(t.as_str(), class)
}

/// Trimming leaves nothing to trim.
pub proof fn trimming_twice_changes_nothing(s: Seq<char>, class: CharClass)
    ensures
        trimmed(trimmed(s, class), class) == trimmed(s, class),
{
    let t = without_leading(s, class);
    lemma_leading_gone(s, class);
    lemma_trailing_gone(t, class);
    let u = without_trailing(t, class);
    if u.len() > 0 {
        assert(u[0] == t[0]);
    }
}

/// Text that was trimmed at its start does not begin with a character of the class.
pub proof fn lemma_leading_gone(s: Seq<char>, class: CharClass)
    ensures
        ({
            let t = without_leading(s, class);
            t.len() > 0 ==> !class.has(t[0])
        }),
    decreases s.len(),
{
    if s.len() > 0 && class.has(s[0]) {
        lemma_leading_gone(s.drop_first(), class);
    }
}

proof fn lemma_trailing_gone(s: Seq<char>, class: CharClass)
    ensures
        ({
            let t = without_trailing(s, class);
            &&& t.len() > 0 ==> !class.has(t.last())
            &&& t.len() <= s.len()
            &&& t == s.take(t.len() as int)
        }),
    decreases s.len(),
{
    if s.len() > 0 && class.has(s.last()) {
        lemma_trailing_gone(s.drop_last(), class);
        let t = without_trailing(s, class);
        assert(s.drop_last().take(t.len() as int) =~= s.take(t.len() as int));
    } else {
        assert(s.take(s.len() as int) =~= s);
    }
}

/// The pieces of `s` between the occurrences of `sep`.
pub open spec fn split_on(s: Seq<char>, sep: char) -> Seq<Seq<char>>
    decreases s.len(),
{
    if s.len() == 0 {
        seq![Seq::<char>::empty()]
    } else {
        let front = split_on(s.drop_last(), sep);
        if s.last() == sep {
            front.push(Seq::<char>::empty())
        } else {
            front.drop_last().push(front.last().push(s.last()))
        }
    }
}

/// The texts of a list of strings.
pub open spec fn texts(v: Seq<String>) -> Seq<Seq<char>> {
    v.map_values(|s: String| s@)
}

/// Splits `s` at every `sep`.
pub fn split(s: &str, sep: char) -> (r: Vec<String>)
    ensures
        texts(r@) == split_on(s@, sep),
{
    let mut out: Vec<String> = Vec::new();
    let mut piece = String::new();
    for c in it: s.chars()
        invariant
            it.seq() == s@,
            texts(out@).push(piece@) == split_on(s@.take(it.index() as int), sep),
    {
        let ghost i = it.index() as int;
        let ghost before = texts(out@).push(piece@);
        proof {
            assert(s@.take(i + 1).drop_last() =~= s@.take(i));
            assert(s@.take(i + 1).last() == c);
            assert(before.drop_last() =~= texts(out@));
        }
        if c == sep {
            out.push(piece);
            piece = String::new();
            assert(texts(out@) =~= before);
        } else {
            piece.push(c);
        }
    }
    assert(s@.take(s@.len() as int) =~= s@);
    let ghost whole = texts(out@).push(piece@);
    out.push(piece);
    assert(texts(out@) =~= whole);
    out
}

/// What stands before and after the first `sep` in `s`, where there is one.
pub open spec fn split_at_first(s: Seq<char>, sep: char) -> Option<(Seq<char>, Seq<char>)>
    decreases s.len(),
{
    if s.len() == 0 {
        None
    } else if s[0] == sep {
        Some((Seq::empty(), s.drop_first()))
    } else {
        match split_at_first(s.drop_first(), sep) {
            Some((a, b)) => Some((seq![s[0]] + a, b)),
            None => None,
        }
    }
}

proof fn lemma_split_at_first(s: Seq<char>, sep: char, i: int)
    requires
        0 <= i <= s.len(),
        forall|j: int| 0 <= j < i ==> s[j] != sep,
        i < s.len() ==> s[i] == sep,
    ensures
        split_at_first(s, sep) == if i < s.len() {
            Some((s.take(i), s.skip(i + 1)))
        } else {
            None
        },
    decreases s.len(),
{
    if s.len() > 0 {
        let t = s.drop_first();
        if i == 0 {
            assert(s.take(0) =~= Seq::empty());
            assert(s.skip(1) =~= t);
        } else {
            lemma_split_at_first(t, sep, i - 1);
            assert(seq![s[0]] + t.take(i - 1) =~= s.take(i));
            if i < s.len() {
                assert(t.skip(i) =~= s.skip(i + 1));
            }
        }
    }
}

/// Splits `s` at the first `sep`, where there is one.
pub fn split_once(s: &str, sep: char) -> (r: Option<(String, String)>)
    ensures
        match split_at_first(s@, sep) {
            Some(p) => r is Some && r->Some_0.0@ == p.0 && r->Some_0.1@ == p.1,
            None => r is None,
        },
{
    let cs = to_chars(s);
    let n: usize = cs.len();
    let mut i: usize = 0;
    while i < n && cs[i] != sep
        invariant
            cs@ == s@,
            n == cs@.len(),
            i <= n,
            forall|j: int| 0 <= j < i ==> cs@[j] != sep,
        decreases n - i,
    {
        i = i + 1;
    }
    proof {
        lemma_split_at_first(s@, sep, i as int);
    }
    if i < n {
        assert(s@.take(i as int) =~= s@.subrange(0, i as int));
        assert(s@.skip(i + 1) =~= s@.subrange(i + 1, n as int));
        Some((from_chars(&cs, 0, i), from_chars(&cs, i + 1, n)))
    } else {
        None
    }
}

/// The ten digits.
pub open spec fn is_digit(c: char) -> bool {
    '0' <= c <= '9'
}

/// Whether every character of `s` is a digit.
pub open spec fn all_digits(s: Seq<char>) -> bool {
    forall|i: int| 0 <= i < s.len() ==> is_digit(#[trigger] s[i])
}

/// The number that the digits of `s` write in base ten.
pub open spec fn decimal_value(s: Seq<char>) -> nat
    decreases s.len(),
{
    if s.len() == 0 {
        0
    } else {
        decimal_value(s.drop_last()) * 10 + (s.last() as u32 - '0' as u32) as nat
    }
}

/// The number at most `max` that `s` writes: digits, at least one, after an optional plus sign.
pub open spec fn parsed_unsigned(s: Seq<char>, max: nat) -> Option<nat> {
    let body = if s.len() > 0 && s[0] == '+' {
        s.drop_first()
    } else {
        s
    };
    if body.len() > 0 && all_digits(body) && decimal_value(body) <= max {
        Some(decimal_value(body))
    } else {
        None
    }
}

proof fn lemma_decimal_value_grows(s: Seq<char>, n: int)
    requires
        all_digits(s),
        0 <= n <= s.len(),
    ensures
        decimal_value(s.take(n)) <= decimal_value(s),
    decreases s.len(),
{
    if n == s.len() {
        assert(s.take(n) =~= s);
    } else {
        assert(s.drop_last().take(n) =~= s.take(n));
        lemma_decimal_value_grows(s.drop_last(), n);
        assert(is_digit(s[s.len() - 1]));
    }
}

/// Reads the digits `from..to` of `cs` as a number of at most `max`.
fn parse_digits(cs: &Vec<char>, from: usize, to: usize, max: u64) -> (r: Option<u64>)
    requires
        from <= to <= cs@.len(),
    ensures
        ({
            let body = cs@.subrange(from as int, to as int);
            if body.len() > 0 && all_digits(body) && decimal_value(body) <= max {
                r == Some(decimal_value(body) as u64)
            } else {
                r is None
            }
        }),
{
    let ghost body = cs@.subrange(from as int, to as int);
    if from == to {
        return None;
    }
    let mut v: u64 = 0;
    let mut i: usize = from;
    while i < to
        invariant
            from <= i <= to <= cs@.len(),
            body == cs@.subrange(from as int, to as int),
            all_digits(body.take(i - from)),
            v == decimal_value(body.take(i - from)),
            v <= max,
        decreases to - i,
    {
        let c = cs[i];
        let ghost k = i - from;
        assert(body[k] == c);
        assert(body.take(k + 1).drop_last() =~= body.take(k));
        assert(body.take(k + 1).last() == c);
        if !('0' <= c && c <= '9') {
            assert(!is_digit(body[k]));
            return None;
        }
        let d: u64 = (c as u32 - '0' as u32) as u64;
        assert forall|j: int| 0 <= j < k + 1 implies is_digit(#[trigger] body.take(k + 1)[j]) by {
            if j < k {
                assert(body.take(k)[j] == body.take(k + 1)[j]);
            }
        }
        if d > max || v > (max - d) / 10 {
            proof {
                assert(decimal_value(body.take(k + 1)) == v * 10 + d);
                assert(v * 10 + d > max);
                if all_digits(body) {
                    lemma_decimal_value_grows(body, k + 1);
                }
            }
            return None;
        }
        v = v * 10 + d;
        i = i + 1;
    }
    assert(body.take(to - from) =~= body);
    Some(v)
}

/// Reads `s` as an unsigned number of at most `max`.
pub fn parse_unsigned(s: &str, max: u64) -> (r: Option<u64>)
    ensures
        match parsed_unsigned(s@, max as nat) {
            Some(v) => r == Some(v as u64) && v <= max,
            None => r is None,
        },
{
    let cs = to_chars(s);
    let n: usize = cs.len();
    if n > 0 && cs[0] == '+' {
        assert(cs@.subrange(1, n as int) =~= s@.drop_first());
        parse_digits(&cs, 1, n, max)
    } else {
        assert(cs@.subrange(0, n as int) =~= s@);
        parse_digits(&cs, 0, n, max)
    }
}

/// The digit that writes `d`.
pub open spec fn digit_char(d: nat) -> char {
    ('0' as u32 + d) as char
}

/// `n` written in base ten, without leading zeros.
pub open spec fn decimal_text(n: nat) -> Seq<char>
    decreases n,
{
    if n < 10 {
        seq![digit_char(n)]
    } else {
        decimal_text(n / 10).push(digit_char(n % 10))
    }
}

fn digit(d: u64) -> (c: char)
    requires
        d < 10,
    ensures
        c == digit_char(d as nat),
{
    if d == 0 {
        '0'
    } else if d == 1 {
        '1'
    } else if d == 2 {
        '2'
    } else if d == 3 {
        '3'
    } else if d == 4 {
        '4'
    } else if d == 5 {
        '5'
    } else if d == 6 {
        '6'
    } else if d == 7 {
        '7'
    } else if d == 8 {
        '8'
    } else {
        '9'
    }
}

/// Writes `n` in base ten.
pub fn decimal(n: u64) -> (r: String)
    ensures
        r@ == decimal_text(n as nat),
    decreases n,
{
    if n < 10 {
        let mut out = String::new();
        out.push(digit(n));
        out
    } else {
        let mut out = decimal(n / 10);
        out.push(digit(n % 10));
        out
    }
}

/// A number that is written in base ten and read again is the same number.
pub proof fn decimal_text_reads_back(n: nat, max: nat)
    requires
        n <= max,
    ensures
        parsed_unsigned(decimal_text(n), max) == Some(n),
{
    lemma_decimal_text(n);
    let t = decimal_text(n);
    assert(is_digit(t[0]));
}

proof fn lemma_decimal_text(n: nat)
    ensures
        all_digits(decimal_text(n)),
        decimal_text(n).len() > 0,
        decimal_value(decimal_text(n)) == n,
    decreases n,
{
    if n < 10 {
        let t = decimal_text(n);
        assert(t.drop_last() =~= Seq::<char>::empty());
        assert(decimal_value(t.drop_last()) == 0);
    } else {
        lemma_decimal_text(n / 10);
        let t = decimal_text(n);
        assert(t.drop_last() =~= decimal_text(n / 10));
        assert forall|i: int| 0 <= i < t.len() implies is_digit(#[trigger] t[i]) by {
            if i < t.len() - 1 {
                assert(t[i] == decimal_text(n / 10)[i]);
            }
        }
    }
}

/// A number is written with at least one digit and nothing but digits, which write the number.
pub proof fn numbers_are_written_in_digits(n: nat)
    ensures
        all_digits(decimal_text(n)),
        decimal_text(n).len() > 0,
        decimal_value(decimal_text(n)) == n,
{
    lemma_decimal_text(n);
}

/// Whether `a` comes no later than `b` when texts are ordered by their first difference.
pub open spec fn text_le(a: Seq<char>, b: Seq<char>) -> bool
    decreases a.len(),
{
    if a.len() == 0 {
        true
    } else if b.len() == 0 {
        false
    } else if a[0] != b[0] {
        a[0] < b[0]
    } else {
        text_le(a.drop_first(), b.drop_first())
    }
}

/// Any two texts are ordered one way or the other.
pub proof fn text_le_total(a: Seq<char>, b: Seq<char>)
    ensures
        text_le(a, b) || text_le(b, a),
    decreases a.len(),
{
    if a.len() > 0 && b.len() > 0 && a[0] == b[0] {
        text_le_total(a.drop_first(), b.drop_first());
    }
}

/// Texts that are ordered both ways are equal.
pub proof fn text_le_antisymmetric(a: Seq<char>, b: Seq<char>)
    requires
        text_le(a, b),
        text_le(b, a),
    ensures
        a == b,
    decreases a.len(),
{
    if a.len() == 0 || b.len() == 0 {
        assert(a =~= b);
    } else {
        text_le_antisymmetric(a.drop_first(), b.drop_first());
        assert(a =~= seq![a[0]] + a.drop_first());
        assert(b =~= seq![b[0]] + b.drop_first());
    }
}

/// The order of texts is transitive.
pub proof fn text_le_transitive(a: Seq<char>, b: Seq<char>, c: Seq<char>)
    requires
        text_le(a, b),
        text_le(b, c),
    ensures
        text_le(a, c),
    decreases a.len(),
{
    if a.len() > 0 && b.len() > 0 && c.len() > 0 && a[0] == b[0] && b[0] == c[0] {
        text_le_transitive(a.drop_first(), b.drop_first(), c.drop_first());
    }
}

/// Tells whether `a` comes no later than `b`.
pub fn chars_le(a: &Vec<char>, b: &Vec<char>) -> (r: bool)
    ensures
        r == text_le(a@, b@),
{
    let mut i: usize = 0;
    assert(a@.skip(0) =~= a@);
    assert(b@.skip(0) =~= b@);
    while i < a.len() && i < b.len()
        invariant
            i <= a@.len(),
            i <= b@.len(),
            text_le(a@, b@) == text_le(a@.skip(i as int), b@.skip(i as int)),
        decreases a@.len() - i,
    {
        let x = a[i];
        let y = b[i];
        if x != y {
            return x < y;
        }
        assert(a@.skip(i as int).drop_first() =~= a@.skip(i + 1));
        assert(b@.skip(i as int).drop_first() =~= b@.skip(i + 1));
        i = i + 1;
    }
    i == a.len()
}

/// The characters that belong to a slash or to a path separator.
pub proof fn separators_are_slashes(c: char)
    ensures
        CharClass::Slash.has(c) <==> c == '/',
        CharClass::PathSeparator.has(c) <==> c == '/' || c == '\\',
        !CharClass::Whitespace.has('/') && !CharClass::Whitespace.has('\\'),
{
}

/// A text begins with the first of two texts that it was put together from, ends with the second,
/// and has both in it; what it begins or ends with, it can be put together from.
pub proof fn ends_are_found(a: Seq<char>, b: Seq<char>, c: Seq<char>)
    ensures
        has_prefix(a + b, a),
        has_suffix(a + b, b),
        has_infix(a + b + c, b),
        has_prefix(c, a) ==> c == a + c.skip(a.len() as int),
        has_suffix(c, b) ==> c == c.take(c.len() - b.len()) + b,
        has_infix(c, b) ==> exists|i: int|
            #![trigger c.take(i)]
            0 <= i <= c.len() - b.len() && c == c.take(i) + b + c.skip(i + b.len()),
{
    assert((a + b).subrange(0, a.len() as int) =~= a);
    assert((a + b).subrange(a.len() as int, (a + b).len() as int) =~= b);
    assert((a + b + c).subrange(a.len() as int, (a.len() + b.len()) as int) =~= b);
    if has_prefix(c, a) {
        assert(c =~= c.subrange(0, a.len() as int) + c.skip(a.len() as int));
    }
    if has_suffix(c, b) {
        assert(c =~= c.take(c.len() - b.len()) + c.subrange(c.len() - b.len(), c.len() as int));
    }
    if has_infix(c, b) {
        let i = choose|i: int|
            0 <= i <= c.len() - b.len() && #[trigger] c.subrange(i, i + b.len()) == b;
        assert(c =~= c.take(i) + c.subrange(i, i + b.len()) + c.skip(i + b.len()));
    }
}

/// Replacing a character changes neither the length of a text nor any other character, and leaves
/// none of those that are replaced.
pub proof fn replacing_changes_one_character(s: Seq<char>, from: char, to: char)
    ensures
        replaced(s, from, to).len() == s.len(),
        forall|i: int|
            0 <= i < s.len() ==> #[trigger] replaced(s, from, to)[i] == if s[i] == from {
                to
            } else {
                s[i]
            },
        from != to ==> !replaced(s, from, to).contains(from),
        !s.contains(from) ==> replaced(s, from, to) == s,
{
    if !s.contains(from) {
        assert(replaced(s, from, to) =~= s);
    }
}

/// Trimming the start of a text takes away just the characters of the class that it begins with.
pub proof fn trimming_the_start_leaves_the_rest(s: Seq<char>, class: CharClass) -> (n: int)
    ensures
        0 <= n <= s.len(),
        without_leading(s, class) == s.skip(n),
        forall|k: int| 0 <= k < n ==> class.has(#[trigger] s[k]),
        n < s.len() ==> !class.has(s[n]),
    decreases s.len(),
{
    if s.len() > 0 && class.has(s[0]) {
        let t = s.drop_first();
        let m = trimming_the_start_leaves_the_rest(t, class);
        assert(t.skip(m) =~= s.skip(m + 1));
        assert forall|k: int| 0 <= k < m + 1 implies class.has(#[trigger] s[k]) by {
            if k > 0 {
                assert(t[k - 1] == s[k]);
            }
        }
        m + 1
    } else {
        assert(s.skip(0) =~= s);
        0
    }
}

/// Trimming the end of a text takes away just the characters of the class that it ends with.
pub proof fn trimming_the_end_leaves_the_rest(s: Seq<char>, class: CharClass) -> (n: int)
    ensures
        0 <= n <= s.len(),
        without_trailing(s, class) == s.take(n),
        forall|k: int| n <= k < s.len() ==> class.has(#[trigger] s[k]),
        n > 0 ==> !class.has(s[n - 1]),
    decreases s.len(),
{
    if s.len() > 0 && class.has(s.last()) {
        let t = s.drop_last();
        let m = trimming_the_end_leaves_the_rest(t, class);
        assert(t.take(m) =~= s.take(m));
        assert forall|k: int| m <= k < s.len() implies class.has(#[trigger] s[k]) by {
            if k < t.len() {
                assert(t[k] == s[k]);
            }
        }
        m
    } else {
        assert(s.take(s.len() as int) =~= s);
        s.len() as int
    }
}

/// Trimming takes away just the characters of the class at the two ends: what is left is the part
/// between the first and the last character that are not of the class.
pub proof fn trimming_takes_only_the_ends(s: Seq<char>, class: CharClass)
    ensures
        exists|i: int, j: int|
            {
                &&& 0 <= i <= j <= s.len()
                &&& trimmed(s, class) == #[trigger] s.subrange(i, j)
                &&& forall|k: int| 0 <= k < i || j <= k < s.len() ==> class.has(#[trigger] s[k])
                &&& i < j ==> !class.has(s[i]) && !class.has(s[j - 1])
            },
{
    let i = trimming_the_start_leaves_the_rest(s, class);
    let t = s.skip(i);
    let n = trimming_the_end_leaves_the_rest(t, class);
    let j = i + n;
    assert(t.take(n) =~= s.subrange(i, j));
    assert forall|k: int| 0 <= k < i || j <= k < s.len() implies class.has(#[trigger] s[k]) by {
        if k >= j {
            assert(t[k - i] == s[k]);
        }
    }
    if i < j {
        assert(t[n - 1] == s[j - 1]);
    }
}

/// Trimming leaves nothing of a text exactly when all of it is of the class.
pub proof fn only_blank_text_is_trimmed_to_nothing(s: Seq<char>, class: CharClass)
    ensures
        trimmed(s, class).len() == 0 <==> forall|k: int|
            0 <= k < s.len() ==> class.has(#[trigger] s[k]),
{
    trimming_takes_only_the_ends(s, class);
    let (i, j) = choose|i: int, j: int|
        {
            &&& 0 <= i <= j <= s.len()
            &&& trimmed(s, class) == #[trigger] s.subrange(i, j)
            &&& forall|k: int| 0 <= k < i || j <= k < s.len() ==> class.has(#[trigger] s[k])
            &&& i < j ==> !class.has(s[i]) && !class.has(s[j - 1])
        };
    assert(trimmed(s, class).len() == j - i);
}

/// A text without the separator is one piece, and a separator between two texts splits there: the
/// pieces of the first come before those of the second.
pub proof fn texts_are_split_at_every_separator(a: Seq<char>, b: Seq<char>, sep: char)
    ensures
        !a.contains(sep) ==> split_on(a, sep) == seq![a],
        split_on(a + seq![sep] + b, sep) == split_on(a, sep) + split_on(b, sep),
        split_on(a, sep).len() > 0,
        forall|i: int|
            0 <= i < split_on(a, sep).len() ==> !(#[trigger] split_on(a, sep)[i]).contains(sep),
{
    lemma_pieces_of(a, sep);
    lemma_split_between(a, b, sep);
}

proof fn lemma_pieces_of(a: Seq<char>, sep: char)
    ensures
        !a.contains(sep) ==> split_on(a, sep) == seq![a],
        split_on(a, sep).len() > 0,
        forall|i: int|
            0 <= i < split_on(a, sep).len() ==> !(#[trigger] split_on(a, sep)[i]).contains(sep),
    decreases a.len(),
{
    if a.len() > 0 {
        let t = a.drop_last();
        lemma_pieces_of(t, sep);
        let front = split_on(t, sep);
        if !a.contains(sep) {
            assert forall|c: char| t.contains(c) implies a.contains(c) by {
                let i = t.index_of(c);
                assert(a[i] == c);
            }
            assert(a.contains(a.last()));
            assert(front == seq![t]);
            assert(t.push(a.last()) =~= a);
            assert(split_on(a, sep) =~= seq![a]);
        }
        assert forall|i: int| 0 <= i < split_on(a, sep).len() implies !(#[trigger] split_on(
            a,
            sep,
        )[i]).contains(sep) by {
            if i < front.len() - 1 || (a.last() == sep && i < front.len()) {
                assert(split_on(a, sep)[i] == front[i]);
            } else if a.last() != sep {
                let p = front.last();
                let q = p.push(a.last());
                assert(split_on(a, sep)[i] == q);
                assert(!p.contains(sep));
                if q.contains(sep) {
                    let k = q.index_of(sep);
                    assert(p[k] == sep);
                }
            }
        }
    } else {
        assert(a =~= Seq::empty());
    }
}

proof fn lemma_split_between(a: Seq<char>, b: Seq<char>, sep: char)
    ensures
        split_on(a + seq![sep] + b, sep) == split_on(a, sep) + split_on(b, sep),
    decreases b.len(),
{
    let s = a + seq![sep] + b;
    if b.len() == 0 {
        assert(s.drop_last() =~= a);
        assert(split_on(s, sep) =~= split_on(a, sep) + split_on(b, sep));
    } else {
        lemma_split_between(a, b.drop_last(), sep);
        lemma_pieces_of(b.drop_last(), sep);
        assert(s.drop_last() =~= a + seq![sep] + b.drop_last());
        assert(split_on(s, sep) =~= split_on(a, sep) + split_on(b, sep));
    }
}

/// A text without separators is its only piece. Else the last piece stands behind the last separator,
/// and the pieces before it are those of what stands before that separator, which is given.
pub proof fn pieces_make_up_the_text(s: Seq<char>, sep: char) -> (front: Seq<char>)
    ensures
        split_on(s, sep).len() == 1 ==> s == split_on(s, sep)[0],
        split_on(s, sep).len() > 1 ==> {
            &&& s == front + seq![sep] + split_on(s, sep).last()
            &&& split_on(front, sep) == split_on(s, sep).drop_last()
        },
    decreases s.len(),
{
    if s.len() == 0 {
        assert(s =~= Seq::empty());
        s
    } else {
        let t = s.drop_last();
        lemma_pieces_of(t, sep);
        assert(s =~= t.push(s.last()));
        if s.last() == sep {
            assert(s =~= t + seq![sep] + Seq::<char>::empty());
            assert(split_on(s, sep).drop_last() =~= split_on(t, sep));
            t
        } else {
            let front = pieces_make_up_the_text(t, sep);
            assert(split_on(s, sep).drop_last() =~= split_on(t, sep).drop_last());
            if split_on(t, sep).len() > 1 {
                assert(s =~= front + seq![sep] + split_on(s, sep).last());
            }
            front
        }
    }
}

/// A text is split at the first separator exactly when it has one: before it stands no other, and
/// the two parts with the separator between them are the text.
pub proof fn texts_are_split_at_the_first_separator(s: Seq<char>, sep: char)
    ensures
        match split_at_first(s, sep) {
            Some((a, b)) => s == a + seq![sep] + b && !a.contains(sep),
            None => !s.contains(sep),
        },
    decreases s.len(),
{
    if s.len() > 0 && s[0] != sep {
        let t = s.drop_first();
        texts_are_split_at_the_first_separator(t, sep);
        match split_at_first(t, sep) {
            Some((a, b)) => {
                assert(s =~= seq![s[0]] + t);
                assert(seq![s[0]] + (a + seq![sep] + b) =~= seq![s[0]] + a + seq![sep] + b);
                let x = seq![s[0]] + a;
                if x.contains(sep) {
                    let k = x.index_of(sep);
                    assert(a[k - 1] == sep);
                }
            },
            None => {
                if s.contains(sep) {
                    let k = s.index_of(sep);
                    assert(t[k - 1] == sep);
                }
            },
        }
    } else if s.len() > 0 {
        assert(s =~= Seq::<char>::empty() + seq![sep] + s.drop_first());
    }
}

/// A number is written with its digits from the highest on, one character each.
pub proof fn numbers_are_written_digit_by_digit(n: nat, d: nat)
    requires
        d < 10,
    ensures
        decimal_text(d) == seq![('0' as u32 + d) as char],
        n > 0 ==> decimal_text(n * 10 + d) == decimal_text(n).push(('0' as u32 + d) as char),
{
    if n > 0 {
        assert((n * 10 + d) / 10 == n);
        assert((n * 10 + d) % 10 == d);
    }
}

/// As many zeros as `k` says.
pub open spec fn zeros(k: nat) -> Seq<char> {
    Seq::new(k, |i: int| '0')
}

proof fn lemma_zeros(k: nat, t: Seq<char>)
    requires
        all_digits(t),
    ensures
        all_digits(zeros(k) + t),
        decimal_value(zeros(k) + t) == decimal_value(t),
    decreases k + t.len(),
{
    let z = zeros(k);
    let s = z + t;
    assert forall|i: int| 0 <= i < s.len() implies is_digit(#[trigger] s[i]) by {
        if i >= k {
            assert(is_digit(t[i - k]));
        }
    }
    if t.len() > 0 {
        let u = t.drop_last();
        assert forall|i: int| 0 <= i < u.len() implies is_digit(#[trigger] u[i]) by {
            assert(is_digit(t[i]));
        }
        lemma_zeros(k, u);
        assert(s.drop_last() =~= z + u);
    } else if k > 0 {
        let y = zeros((k - 1) as nat);
        lemma_zeros((k - 1) as nat, t);
        assert(s.drop_last() =~= y + t);
        assert(s.last() == '0');
    } else {
        assert(s =~= t);
    }
}

proof fn lemma_digits(s: Seq<char>) -> (k: nat)
    requires
        s.len() > 0,
        all_digits(s),
    ensures
        s == zeros(k) + decimal_text(decimal_value(s)),
    decreases s.len(),
{
    let t = s.drop_last();
    let d = (s.last() as u32 - '0' as u32) as nat;
    assert(is_digit(s[s.len() - 1]));
    assert(digit_char(d) == s.last());
    assert forall|i: int| 0 <= i < t.len() implies is_digit(#[trigger] t[i]) by {
        assert(is_digit(s[i]));
    }
    if t.len() == 0 {
        assert(t =~= Seq::empty());
        assert(decimal_value(t) == 0);
        assert(s =~= zeros(0) + decimal_text(decimal_value(s)));
        0
    } else {
        let k = lemma_digits(t);
        let v = decimal_value(t);
        numbers_are_written_digit_by_digit(v, d);
        assert(decimal_value(s) == v * 10 + d);
        if v > 0 {
            assert(s =~= t.push(s.last()));
            assert(s =~= zeros(k) + decimal_text(v * 10 + d));
            k
        } else {
            assert(decimal_text(0) =~= seq!['0']);
            assert(s =~= t.push(s.last()));
            assert(zeros(k) + seq!['0'] =~= zeros(k + 1));
            assert(s =~= zeros(k + 1) + decimal_text(d));
            k + 1
        }
    }
}

/// Just the texts that write a number in base ten are read as that number: its digits, which zeros
/// and before them a plus sign may precede. Numbers above the limit are not read.
pub proof fn numbers_are_read_as_written(s: Seq<char>, max: nat, n: nat)
    ensures
        parsed_unsigned(s, max) == Some(n) <==> n <= max && exists|k: nat|
            #![trigger zeros(k)]
            s == zeros(k) + decimal_text(n) || s == seq!['+'] + zeros(k) + decimal_text(n),
{
    let plus = s.len() > 0 && s[0] == '+';
    let body = if plus {
        s.drop_first()
    } else {
        s
    };
    if parsed_unsigned(s, max) == Some(n) {
        let k = lemma_digits(body);
        if plus {
            assert(s =~= seq!['+'] + body);
            assert(seq!['+'] + (zeros(k) + decimal_text(n)) =~= seq!['+'] + zeros(k) + decimal_text(
                n,
            ));
        }
    }
    if n <= max && exists|k: nat|
        #![trigger zeros(k)]
        s == zeros(k) + decimal_text(n) || s == seq!['+'] + zeros(k) + decimal_text(n) {
        let k = choose|k: nat|
            #![trigger zeros(k)]
            s == zeros(k) + decimal_text(n) || s == seq!['+'] + zeros(k) + decimal_text(n);
        lemma_decimal_text(n);
        let t = zeros(k) + decimal_text(n);
        lemma_zeros(k, decimal_text(n));
        assert(is_digit(t[0]));
        if s == t {
            assert(body == t);
        } else {
            assert(body =~= t);
        }
    }
}

/// Texts are ordered by the first character in which they differ, and a text comes before those
/// that go on after it.
pub proof fn texts_are_ordered_by_their_first_difference(a: Seq<char>, b: Seq<char>, i: int)
    requires
        0 <= i <= a.len(),
        i <= b.len(),
        forall|k: int| 0 <= k < i ==> a[k] == b[k],
    ensures
        i == a.len() ==> text_le(a, b),
        i == b.len() && i < a.len() ==> !text_le(a, b),
        i < a.len() && i < b.len() && a[i] != b[i] ==> (text_le(a, b) <==> a[i] < b[i]),
    decreases i,
{
    if i > 0 {
        let x = a.drop_first();
        let y = b.drop_first();
        texts_are_ordered_by_their_first_difference(x, y, i - 1);
        assert(i < a.len() ==> x[i - 1] == a[i]);
        assert(i < b.len() ==> y[i - 1] == b[i]);
    }
}

} // verus!
