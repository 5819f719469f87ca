//! Text as sequences of characters: the operations the rest of the crate
//! builds its URLs, MIME types, drawing commands and identifiers from.
//!
//! Every function here works on Unicode scalar values, so its contract is a
//! plain statement about `Seq<char>`.

use vstd::prelude::*;
use vstd::string::*;

verus! {

/// `String::push` of the standard library: appends one character and changes
/// nothing else.
pub assume_specification[ String::push ](s: &mut String, c: char)
    ensures
        final(s)@ == old(s)@.push(c),
;

/// What `quoted` makes of a text: the standard library's `Debug` rendering of
/// a string, with its surrounding quotes and escapes.
pub uninterp spec fn debug_quoted(s: Seq<char>) -> Seq<char>;

/// The `Debug` formatting of `str` in the standard library. Its rendering is
/// a function of the text alone, named `debug_quoted`; which characters it
/// escapes is not said here.
#[verifier::external_body]
pub(crate) fn quoted(s: &str) -> (r: String)
    ensures
        r@ == debug_quoted(s@),
{
    format!("{:?}", s)
}

/// The text of an optional string.
pub open spec fn opt_text(s: Option<String>) -> Option<Seq<char>> {
    match s {
        Some(t) => Some(t@),
        None => None,
    }
}

/// The text of an optional string slice.
pub open spec fn opt_str(s: Option<&str>) -> Option<Seq<char>> {
    match s {
        Some(t) => Some(t@),
        None => None,
    }
}

/// The texts of a list of strings.
pub open spec fn texts(v: Seq<String>) -> Seq<Seq<char>> {
    Seq::new(v.len(), |i: int| v[i]@)
}

// ---------------------------------------------------------------------------
// Characters
// ---------------------------------------------------------------------------

/// The characters with Unicode's `White_Space` property.
pub open spec fn is_space(c: char) -> bool {
    let n = c as u32;
    ||| 0x09 <= n <= 0x0d
    ||| n == 0x20
    ||| n == 0x85
    ||| n == 0xa0
    ||| n == 0x1680
    ||| 0x2000 <= n <= 0x200a
    ||| n == 0x2028
    ||| n == 0x2029
    ||| n == 0x202f
    ||| n == 0x205f
    ||| n == 0x3000
}

/// ASCII lower case: only `A` to `Z` change.
pub open spec fn lower(c: char) -> char {
    if 'A' <= c && c <= 'Z' {
        ((c as u8) + 32) as u8 as char
    } else {
        c
    }
}

/// `s` with every character in ASCII lower case.
pub open spec fn lowered(s: Seq<char>) -> Seq<char> {
    Seq::new(s.len(), |i: int| lower(s[i]))
}

fn char_is_space(c: char) -> (r: bool)
    ensures
        r == is_space(c),
{
    let n: u32 = c as u32;
    (0x09 <= n && n <= 0x0d) || n == 0x20 || n == 0x85 || n == 0xa0 || n == 0x1680 || (0x2000 <= n
        && n <= 0x200a) || n == 0x2028 || n == 0x2029 || n == 0x202f || n == 0x205f || n == 0x3000
}

fn char_lower(c: char) -> (r: char)
    ensures
        r == lower(c),
{
    if 'A' <= c && c <= 'Z' {
        let b: u8 = c as u8;
        (b + 32) as char
    } else {
        c
    }
}

// ---------------------------------------------------------------------------
// Conversions
// ---------------------------------------------------------------------------

/// The characters of `s`, in order.
pub fn chars_of(s: &str) -> (v: Vec<char>)
    ensures
        v@ == s@,
{
    let mut v: Vec<char> = Vec::new();
    for c in it: s.chars()
        invariant
            v@ == it.seq().take(it.index()),
            it.seq() == s@,
    {
        v.push(c);
    }
    v
}

/// The string made of the characters `v[from..to]`.
pub fn text_of(v: &Vec<char>, from: usize, to: usize) -> (s: String)
    requires
        from <= to <= v.len(),
    ensures
        s@ == v@.subrange(from as int, to as int),
{
    let mut s: String = String::new();
    let mut i: usize = from;
    while i < to
        invariant
            from <= i <= to <= v.len(),
            s@ == v@.subrange(from as int, i as int),
        decreases to - i,
    {
        s.push(v[i]);
        i = i + 1;
        assert(v@.subrange(from as int, i as int) =~= v@.subrange(from as int, i - 1).push(
            v@[i - 1],
        ));
    }
    s
}

/// Whether two texts are the same.
pub fn same_text(a: &str, b: &str) -> (r: bool)
    ensures
        r == (a@ == b@),
{
    let x: Vec<char> = chars_of(a);
    let y: Vec<char> = chars_of(b);
    if x.len() != y.len() {
        return false;
    }
    let mut i: usize = 0;
    while i < x.len()
        invariant
            i <= x.len() == y.len(),
            x@ == a@,
            y@ == b@,
            x@.take(i as int) =~= y@.take(i as int),
        decreases x.len() - i,
    {
        if x[i] != y[i] {
            assert(x@[i as int] != y@[i as int]);
            return false;
        }
        i = i + 1;
    }
    assert(x@.take(x.len() as int) =~= x@);
    assert(y@.take(y.len() as int) =~= y@);
    true
}

/// `a` followed by `b`.
pub fn joined(a: &str, b: &str) -> (r: String)
    ensures
        r@ == a@ + b@,
{
    let mut r: String = String::new();
    r.append(a);
    r.append(b);
    assert(r@ =~= a@ + b@);
    r
}

// ---------------------------------------------------------------------------
// Prefixes, trimming, cutting
// ---------------------------------------------------------------------------

/// Whether `s` starts with `prefix`.
pub open spec fn begins(s: Seq<char>, prefix: Seq<char>) -> bool {
    prefix.len() <= s.len() && s.take(prefix.len() as int) == prefix
}

/// Whether the text starts with `prefix`.
pub fn begins_with(s: &Vec<char>, prefix: &str) -> (r: bool)
    ensures
        r == begins(s@, prefix@),
{
    let p: Vec<char> = chars_of(prefix);
    if p.len() > s.len() {
        return false;
    }
    let mut i: usize = 0;
    while i < p.len()
        invariant
            i <= p.len() <= s.len(),
            p@ == prefix@,
            s@.take(i as int) =~= p@.take(i as int),
        decreases p.len() - i,
    {
        if s[i] != p[i] {
            assert(s@.take(p.len() as int)[i as int] != p@[i as int]);
            return false;
        }
        i = i + 1;
    }
    assert(p@.take(p.len() as int) =~= p@);
    true
}

/// `s` without its leading white space.
pub open spec fn trimmed_front(s: Seq<char>) -> Seq<char>
    decreases s.len(),
{
    if s.len() > 0 && is_space(s[0]) {
        trimmed_front(s.drop_first())
    } else {
        s
    }
}

/// `s` without its trailing white space.
pub open spec fn trimmed_back(s: Seq<char>) -> Seq<char>
    decreases s.len(),
{
    if s.len() > 0 && is_space(s.last()) {
        trimmed_back(s.drop_last())
    } else {
        s
    }
}

/// `s` without leading and trailing white space.
pub open spec fn trimmed(s: Seq<char>) -> Seq<char> {
    trimmed_back(trimmed_front(s))
}

/// The part of `s` in front of the first character that is one of `stops`,
/// or the whole of `s` where none occurs.
pub open spec fn until(s: Seq<char>, stops: Seq<char>) -> Seq<char>
    decreases s.len(),
{
    if s.len() == 0 || stops.contains(s[0]) {
        Seq::empty()
    } else {
        seq![s[0]] + until(s.drop_first(), stops)
    }
}

proof fn lemma_until_is_take(s: Seq<char>, stops: Seq<char>, n: int)
    requires
        0 <= n <= s.len(),
        forall|j: int| 0 <= j < n ==> !stops.contains(#[trigger] s[j]),
        n == s.len() || stops.contains(s[n]),
    ensures
        until(s, stops) == s.take(n),
    decreases s.len(),
{
    if s.len() == 0 || n == 0 {
        assert(s.take(0) =~= Seq::<char>::empty());
    } else {
        assert(!stops.contains(s[0]));
        let t = s.drop_first();
        assert forall|j: int| 0 <= j < n - 1 implies !stops.contains(#[trigger] t[j]) by {
            assert(t[j] == s[j + 1]);
        }
        if n < s.len() {
            assert(t[n - 1] == s[n]);
        }
        lemma_until_is_take(t, stops, n - 1);
        assert(seq![s[0]] + t.take(n - 1) =~= s.take(n));
    }
}

/// What stands in front of a stop character does not depend on what follows
/// it.
pub proof fn lemma_until_ignores_the_rest(s: Seq<char>, stop: char, rest: Seq<char>, stops: Seq<char>)
    requires
        stops.contains(stop),
    ensures
        until(s + seq![stop] + rest, stops) == until(s, stops),
    decreases s.len(),
{
    let whole = s + seq![stop] + rest;
    if s.len() == 0 {
        assert(whole[0] == stop);
    } else {
        assert(whole[0] == s[0]);
        if !stops.contains(s[0]) {
            lemma_until_ignores_the_rest(s.drop_first(), stop, rest, stops);
            assert(whole.drop_first() =~= s.drop_first() + seq![stop] + rest);
        }
    }
}

/// The number of characters in front of the first one that is in `stops`,
/// counted from `from`.
pub fn stop_index(s: &Vec<char>, from: usize, stops: &Vec<char>) -> (n: usize)
    requires
        from <= s.len(),
    ensures
        from <= n <= s.len(),
        s@.subrange(from as int, n as int) == until(
            s@.subrange(from as int, s.len() as int),
            stops@,
        ),
{
    let ghost tail = s@.subrange(from as int, s.len() as int);
    let mut n: usize = from;
    while n < s.len()
        invariant
            from <= n <= s.len(),
            tail == s@.subrange(from as int, s.len() as int),
            forall|j: int| 0 <= j < n - from ==> !stops@.contains(#[trigger] tail[j]),
        decreases s.len() - n,
    {
        let mut k: usize = 0;
        while k < stops.len()
            invariant
                k <= stops.len(),
                from <= n < s.len(),
                tail == s@.subrange(from as int, s.len() as int),
                forall|j: int| 0 <= j < n - from ==> !stops@.contains(#[trigger] tail[j]),
                forall|j: int| 0 <= j < k ==> stops@[j] != s@[n as int],
            decreases stops.len() - k,
        {
            if stops[k] == s[n] {
                proof {
                    assert(stops@[k as int] == tail[n - from]);
                    lemma_until_is_take(tail, stops@, n - from);
                    assert(tail.take(n - from) =~= s@.subrange(from as int, n as int));
                }
                return n;
            }
            k = k + 1;
        }
        assert(tail[n - from] == s@[n as int]);
        n = n + 1;
    }
    proof {
        lemma_until_is_take(tail, stops@, n - from);
        assert(tail.take(n - from) =~= s@.subrange(from as int, n as int));
    }
    n
}

/// `s` without leading and trailing white space.
pub fn trim_text(s: &str) -> (r: String)
    ensures
        r@ == trimmed(s@),
{
    let v: Vec<char> = chars_of(s);
    let mut from: usize = 0;
    assert(v@.subrange(0, v.len() as int) =~= s@);
    while from < v.len() && char_is_space(v[from])
        invariant
            from <= v.len(),
            trimmed_front(v@.subrange(from as int, v.len() as int)) == trimmed_front(s@),
        decreases v.len() - from,
    {
        assert(v@.subrange(from as int, v.len() as int).drop_first() =~= v@.subrange(
            from + 1,
            v.len() as int,
        ));
        from = from + 1;
    }
    let mut to: usize = v.len();
    while from < to && char_is_space(v[to - 1])
        invariant
            from <= to <= v.len(),
            trimmed_back(v@.subrange(from as int, to as int)) == trimmed(s@),
        decreases to,
    {
        assert(v@.subrange(from as int, to as int).drop_last() =~= v@.subrange(
            from as int,
            to - 1,
        ));
        to = to - 1;
    }
    text_of(&v, from, to)
}

/// The part of `s` in front of its first `stop`, or the whole of `s`.
pub fn text_before(s: &str, stop: char) -> (r: String)
    ensures
        r@ == until(s@, seq![stop]),
{
    let v: Vec<char> = chars_of(s);
    let mut stops: Vec<char> = Vec::new();
    stops.push(stop);
    let n: usize = stop_index(&v, 0, &stops);
    assert(v@.subrange(0, v.len() as int) =~= s@);
    assert(stops@ =~= seq![stop]);
    text_of(&v, 0, n)
}

/// `s` without the leading characters that are `c`.
pub open spec fn without_leading(s: Seq<char>, c: char) -> Seq<char>
    decreases s.len(),
{
    if s.len() > 0 && s[0] == c {
        without_leading(s.drop_first(), c)
    } else {
        s
    }
}

/// The first part of `s` that is not empty, where `separator` ends a part.
pub open spec fn first_part(s: Seq<char>, separator: char) -> Seq<char> {
    until(without_leading(s, separator), seq![separator])
}

/// The first part of `s` that is not empty; empty where there is none.
pub fn first_part_text(s: &str, separator: char) -> (r: String)
    ensures
        r@ == first_part(s@, separator),
{
    let v: Vec<char> = chars_of(s);
    let mut from: usize = 0;
    assert(v@.subrange(0, v.len() as int) =~= s@);
    while from < v.len() && v[from] == separator
        invariant
            from <= v.len(),
            without_leading(v@.subrange(from as int, v.len() as int), separator)
                == without_leading(s@, separator),
        decreases v.len() - from,
    {
        assert(v@.subrange(from as int, v.len() as int).drop_first() =~= v@.subrange(
            from + 1,
            v.len() as int,
        ));
        from = from + 1;
    }
    let mut stops: Vec<char> = Vec::new();
    stops.push(separator);
    let n: usize = stop_index(&v, from, &stops);
    assert(stops@ =~= seq![separator]);
    text_of(&v, from, n)
}

/// `s` in ASCII lower case.
pub fn lower_text(s: &str) -> (r: String)
    ensures
        r@ == lowered(s@),
{
    let v: Vec<char> = chars_of(s);
    let mut r: String = String::new();
    let mut i: usize = 0;
    while i < v.len()
        invariant
            i <= v.len(),
            r@ == lowered(v@.take(i as int)),
        decreases v.len() - i,
    {
        r.push(char_lower(v[i]));
        i = i + 1;
        assert(lowered(v@.take(i as int)) =~= lowered(v@.take(i - 1)).push(lower(v@[i - 1])));
    }
    assert(v@.take(v.len() as int) =~= v@);
    r
}

/// Lower case is reached in one step.
pub proof fn lemma_lowered_twice(s: Seq<char>)
    ensures
        lowered(lowered(s)) == lowered(s),
{
    assert(lowered(lowered(s)) =~= lowered(s));
}

/// Lower case does not move the place where a text is cut, where every stop
/// character is one that has no case.
pub proof fn lemma_until_keeps_case(s: Seq<char>, stops: Seq<char>)
    requires
        forall|c: char| #[trigger] stops.contains(lower(c)) <==> stops.contains(c),
    ensures
        until(lowered(s), stops) == lowered(until(s, stops)),
    decreases s.len(),
{
    if s.len() > 0 {
        assert(lowered(s)[0] == lower(s[0]));
        if !stops.contains(s[0]) {
            lemma_until_keeps_case(s.drop_first(), stops);
            assert(lowered(s).drop_first() =~= lowered(s.drop_first()));
            assert(lowered(until(s, stops)) =~= seq![lower(s[0])] + lowered(
                until(s.drop_first(), stops),
            ));
        } else {
            assert(lowered(Seq::<char>::empty()) =~= Seq::<char>::empty());
        }
    } else {
        assert(lowered(Seq::<char>::empty()) =~= Seq::<char>::empty());
    }
}

proof fn lemma_trimmed_front_keeps_case(s: Seq<char>)
    ensures
        trimmed_front(lowered(s)) == lowered(trimmed_front(s)),
    decreases s.len(),
{
    if s.len() > 0 {
        assert(is_space(lower(s[0])) == is_space(s[0]));
        if is_space(s[0]) {
            lemma_trimmed_front_keeps_case(s.drop_first());
            assert(lowered(s).drop_first() =~= lowered(s.drop_first()));
        }
    }
}

proof fn lemma_trimmed_back_keeps_case(s: Seq<char>)
    ensures
        trimmed_back(lowered(s)) == lowered(trimmed_back(s)),
    decreases s.len(),
{
    if s.len() > 0 {
        assert(is_space(lower(s.last())) == is_space(s.last()));
        if is_space(s.last()) {
            lemma_trimmed_back_keeps_case(s.drop_last());
            assert(lowered(s).drop_last() =~= lowered(s.drop_last()));
        }
    }
}

/// Trimming and lower case can be taken in either order.
pub proof fn lemma_trimmed_keeps_case(s: Seq<char>)
    ensures
        trimmed(lowered(s)) == lowered(trimmed(s)),
{
    lemma_trimmed_front_keeps_case(s);
    lemma_trimmed_back_keeps_case(trimmed_front(s));
}

// ---------------------------------------------------------------------------
// Numerals
// ---------------------------------------------------------------------------

/// The digit `d` as a character: `0` to `9`, then `a` to `z`.
pub open spec fn digit(d: nat) -> char {
    if d < 10 {
        (48 + d) as u8 as char
    } else {
        (87 + d) as u8 as char
    }
}

/// `n` written in `base`, without leading zeros; zero is a single `0`.
pub open spec fn numeral(n: nat, base: nat) -> Seq<char>
    decreases n,
{
    if base < 2 || n < base {
        seq![digit(n)]
    } else {
        proof {
            vstd::arithmetic::div_mod::lemma_div_decreases(n as int, base as int);
        }
        numeral(n / base, base).push(digit(n % base))
    }
}

/// `n` written in decimal.
pub open spec fn decimal(n: nat) -> Seq<char> {
    numeral(n, 10)
}

/// `n` written in lower-case hexadecimal.
pub open spec fn hexadecimal(n: nat) -> Seq<char> {
    numeral(n, 16)
}

/// `n` in decimal, padded with a zero to at least two digits.
pub open spec fn two_digits(n: nat) -> Seq<char> {
    if n < 10 {
        seq!['0'] + decimal(n)
    } else {
        decimal(n)
    }
}

/// The upper-case hexadecimal digit `d`.
pub open spec fn upper_hex_digit(d: nat) -> char {
    if d < 10 {
        (48 + d) as u8 as char
    } else {
        (55 + d) as u8 as char
    }
}

/// `b` as two upper-case hexadecimal digits.
pub open spec fn hex_pair(b: u8) -> Seq<char> {
    seq![upper_hex_digit((b / 16) as nat), upper_hex_digit((b % 16) as nat)]
}

/// A numeral is made of digits alone.
pub proof fn lemma_numeral_is_digits(n: nat, base: nat, i: int)
    requires
        2 <= base <= 36,
        0 <= i < numeral(n, base).len(),
    ensures
        exists|d: nat| d < base && numeral(n, base)[i] == #[trigger] digit(d),
    decreases n,
{
    if n < base {
        assert(numeral(n, base)[i] == digit(n));
    } else {
        vstd::arithmetic::div_mod::lemma_div_decreases(n as int, base as int);
        if i < numeral(n / base, base).len() {
            lemma_numeral_is_digits(n / base, base, i);
        } else {
            vstd::arithmetic::div_mod::lemma_mod_bound(n as int, base as int);
            assert(numeral(n, base)[i] == digit(n % base));
        }
    }
}

proof fn lemma_numeral_has_digits(n: nat, base: nat)
    ensures
        numeral(n, base).len() >= 1,
    decreases n,
{
    if base >= 2 && n >= base {
        vstd::arithmetic::div_mod::lemma_div_decreases(n as int, base as int);
        lemma_numeral_has_digits(n / base, base);
    }
}

/// Two numbers with one numeral are one number.
pub proof fn lemma_numeral_is_injective(a: nat, b: nat, base: nat)
    requires
        2 <= base <= 36,
        numeral(a, base) == numeral(b, base),
    ensures
        a == b,
    decreases a + b,
{
    lemma_numeral_has_digits(a / base, base);
    lemma_numeral_has_digits(b / base, base);
    if a < base && b < base {
        assert(numeral(a, base)[0] == digit(a));
        assert(numeral(b, base)[0] == digit(b));
    } else if a >= base && b >= base {
        let x = numeral(a / base, base);
        let y = numeral(b / base, base);
        vstd::arithmetic::div_mod::lemma_div_decreases(a as int, base as int);
        vstd::arithmetic::div_mod::lemma_div_decreases(b as int, base as int);
        vstd::arithmetic::div_mod::lemma_mod_bound(a as int, base as int);
        vstd::arithmetic::div_mod::lemma_mod_bound(b as int, base as int);
        assert(numeral(a, base).drop_last() =~= x);
        assert(numeral(b, base).drop_last() =~= y);
        lemma_numeral_is_injective(a / base, b / base, base);
        assert(numeral(a, base).last() == digit(a % base));
        assert(numeral(b, base).last() == digit(b % base));
        vstd::arithmetic::div_mod::lemma_fundamental_div_mod(a as int, base as int);
        vstd::arithmetic::div_mod::lemma_fundamental_div_mod(b as int, base as int);
    } else if a < base {
        assert(numeral(a, base).len() == 1);
        assert(numeral(b, base) == numeral(b / base, base).push(digit(b % base)));
    } else {
        assert(numeral(b, base).len() == 1);
        assert(numeral(a, base) == numeral(a / base, base).push(digit(a % base)));
    }
}

/// Appends `n`, written in `base`, to `out`.
fn push_numeral(out: &mut String, n: u128, base: u128)
    requires
        2 <= base <= 36,
    ensures
        final(out)@ == old(out)@ + numeral(n as nat, base as nat),
    decreases n,
{
    if n >= base {
        assert(n / base < n) by (nonlinear_arith)
            requires
                n >= base,
                base >= 2,
        ;
        push_numeral(out, n / base, base);
    }
    let ghost head = out@;
    let d: u8 = (n % base) as u8;
    let c: char = if d < 10 {
        (48 + d) as char
    } else {
        (87 + d) as char
    };
    out.push(c);
    proof {
        if n < base {
            vstd::arithmetic::div_mod::lemma_small_mod(n as nat, base as nat);
        }
    }
    assert(c == digit((n as nat) % (base as nat)));
    assert(head.push(c) =~= old(out)@ + numeral(n as nat, base as nat));
}

/// `n` in decimal.
pub fn decimal_text(n: u128) -> (r: String)
    ensures
        r@ == decimal(n as nat),
{
    let mut r: String = String::new();
    push_numeral(&mut r, n, 10);
    assert(r@ =~= decimal(n as nat));
    r
}

/// `n` in lower-case hexadecimal.
pub fn hex_text(n: u128) -> (r: String)
    ensures
        r@ == hexadecimal(n as nat),
{
    let mut r: String = String::new();
    push_numeral(&mut r, n, 16);
    assert(r@ =~= hexadecimal(n as nat));
    r
}

/// `n` in decimal with at least two digits.
pub fn two_digit_text(n: u32) -> (r: String)
    ensures
        r@ == two_digits(n as nat),
{
    let mut r: String = String::new();
    if n < 10 {
        r.push('0');
    }
    push_numeral(&mut r, n as u128, 10);
    assert(r@ =~= two_digits(n as nat));
    r
}

/// `b` as two upper-case hexadecimal digits.
pub fn hex_pair_text(b: u8) -> (r: String)
    ensures
        r@ == hex_pair(b),
{
    let hi: u8 = b / 16;
    let lo: u8 = b % 16;
    let mut r: String = String::new();
    r.push(if hi < 10 { (48 + hi) as char } else { (55 + hi) as char });
    r.push(if lo < 10 { (48 + lo) as char } else { (55 + lo) as char });
    assert(r@ =~= hex_pair(b));
    r
}

// ---------------------------------------------------------------------------
// Laws
// ---------------------------------------------------------------------------

/// White space in ASCII is the space and the five control characters from tab
/// to carriage return; letters, digits and punctuation are not.
pub proof fn lemma_white_space(c: char)
    ensures
        c <= '~' ==> (is_space(c) <==> (c == ' ' || c == '\t' || c == '\n' || c == '\u{b}' || c
            == '\u{c}' || c == '\r')),
        c > '~' ==> (is_space(c) <==> (c == '\u{85}' || c == '\u{a0}' || c == '\u{1680}' || (
        '\u{2000}' <= c && c <= '\u{200a}') || c == '\u{2028}' || c == '\u{2029}' || c
            == '\u{202f}' || c == '\u{205f}' || c == '\u{3000}')),
{
}

/// In lower case, a letter from `A` to `Z` is the one 32 places on, and every
/// other character is itself.
pub proof fn lemma_lower_case(c: char)
    ensures
        'A' <= c && c <= 'Z' ==> lower(c) as u32 == c as u32 + 32,
        !('A' <= c && c <= 'Z') ==> lower(c) == c,
{
}

/// Lower case changes a text character by character.
pub proof fn lemma_lowered_is_by_character(s: Seq<char>, i: int)
    requires
        0 <= i < s.len(),
    ensures
        lowered(s).len() == s.len(),
        lowered(s)[i] == lower(s[i]),
{
}

/// A text begins with a prefix exactly where it is the prefix and something
/// behind it.
pub proof fn lemma_what_a_prefix_is(s: Seq<char>, prefix: Seq<char>, rest: Seq<char>)
    ensures
        begins(prefix + rest, prefix),
        begins(s, prefix) ==> s == prefix + s.skip(prefix.len() as int),
{
    assert((prefix + rest).take(prefix.len() as int) =~= prefix);
    if begins(s, prefix) {
        assert(s =~= s.take(prefix.len() as int) + s.skip(prefix.len() as int));
    }
}

proof fn lemma_trimmed_front_of(a: Seq<char>, t: Seq<char>)
    requires
        forall|i: int| 0 <= i < a.len() ==> is_space(#[trigger] a[i]),
    ensures
        trimmed_front(a + t) == trimmed_front(t),
    decreases a.len(),
{
    if a.len() == 0 {
        assert(a + t =~= t);
    } else {
        assert(is_space(a[0]));
        assert((a + t)[0] == a[0]);
        assert((a + t).drop_first() =~= a.drop_first() + t);
        lemma_trimmed_front_of(a.drop_first(), t);
    }
}

proof fn lemma_trimmed_back_of(t: Seq<char>, b: Seq<char>)
    requires
        forall|i: int| 0 <= i < b.len() ==> is_space(#[trigger] b[i]),
    ensures
        trimmed_back(t + b) == trimmed_back(t),
    decreases b.len(),
{
    if b.len() == 0 {
        assert(t + b =~= t);
    } else {
        assert(is_space(b[b.len() - 1]));
        assert((t + b).last() == b.last());
        assert((t + b).drop_last() =~= t + b.drop_last());
        lemma_trimmed_back_of(t, b.drop_last());
    }
}

/// Trimming takes away the white space around a text, all of it, and nothing
/// of the text.
pub proof fn lemma_what_trimming_takes_away(a: Seq<char>, s: Seq<char>, b: Seq<char>)
    requires
        forall|i: int| 0 <= i < a.len() ==> is_space(#[trigger] a[i]),
        forall|i: int| 0 <= i < b.len() ==> is_space(#[trigger] b[i]),
        s.len() > 0 ==> !is_space(s[0]) && !is_space(s.last()),
    ensures
        trimmed(a + s + b) == s,
{
    assert(a + s + b =~= a + (s + b));
    lemma_trimmed_front_of(a, s + b);
    if s.len() > 0 {
        assert((s + b)[0] == s[0]);
        lemma_trimmed_back_of(s, b);
    } else {
        assert(s + b =~= b + s);
        lemma_trimmed_front_of(b, s);
        assert(trimmed_front(s) == s);
        assert(s =~= Seq::<char>::empty());
    }
}

/// A text is cut in front of its first stop character, and is whole where it
/// has none.
pub proof fn lemma_where_a_text_is_cut(
    s: Seq<char>,
    stop: char,
    rest: Seq<char>,
    stops: Seq<char>,
)
    requires
        forall|i: int| 0 <= i < s.len() ==> !stops.contains(#[trigger] s[i]),
        stops.contains(stop),
    ensures
        until(s, stops) == s,
        until(s + seq![stop] + rest, stops) == s,
{
    lemma_until_is_take(s, stops, s.len() as int);
    assert(s.take(s.len() as int) =~= s);
    lemma_until_ignores_the_rest(s, stop, rest, stops);
}

proof fn lemma_without_leading_of(front: Seq<char>, t: Seq<char>, c: char)
    requires
        forall|i: int| 0 <= i < front.len() ==> #[trigger] front[i] == c,
        t.len() == 0 || t[0] != c,
    ensures
        without_leading(front + t, c) == t,
    decreases front.len(),
{
    if front.len() == 0 {
        assert(front + t =~= t);
    } else {
        assert(front[0] == c);
        assert((front + t)[0] == c);
        assert((front + t).drop_first() =~= front.drop_first() + t);
        lemma_without_leading_of(front.drop_first(), t, c);
    }
}

/// Of a list the first part that is not empty counts, whatever separators stand
/// in front of it and whatever comes behind it; a list of separators alone has
/// none.
pub proof fn lemma_what_the_first_part_is(
    front: Seq<char>,
    part: Seq<char>,
    separator: char,
    rest: Seq<char>,
)
    requires
        forall|i: int| 0 <= i < front.len() ==> #[trigger] front[i] == separator,
        forall|i: int| 0 <= i < part.len() ==> #[trigger] part[i] != separator,
        part.len() > 0,
    ensures
        first_part(front + part, separator) == part,
        first_part(front + (part + seq![separator] + rest), separator) == part,
        first_part(front, separator).len() == 0,
{
    lemma_without_leading_of(front, Seq::empty(), separator);
    assert(front + Seq::<char>::empty() =~= front);
    assert(part[0] != separator);
    let stops = seq![separator];
    assert forall|i: int| 0 <= i < part.len() implies !stops.contains(#[trigger] part[i]) by {
        assert(part[i] != separator);
    }
    assert(stops[0] == separator);
    lemma_where_a_text_is_cut(part, separator, rest, stops);
    lemma_without_leading_of(front, part, separator);
    assert((part + seq![separator] + rest)[0] == part[0]);
    lemma_without_leading_of(front, part + seq![separator] + rest, separator);
}

/// The digits are `0` to `9`, then the small letters from `a`, or in upper case
/// the capitals from `A`.
pub proof fn lemma_what_the_digits_are(d: nat)
    requires
        d < 36,
    ensures
        d < 10 ==> digit(d) as u32 == '0' as u32 + d,
        d >= 10 ==> digit(d) as u32 == 'a' as u32 + (d - 10),
        d < 10 ==> upper_hex_digit(d) as u32 == '0' as u32 + d,
        10 <= d < 16 ==> upper_hex_digit(d) as u32 == 'A' as u32 + (d - 10),
{
}

/// A number is written with its highest digit first: a number below the base is
/// one digit, and the last digit of any other is its remainder, behind the
/// numeral of the quotient.
pub proof fn lemma_how_numbers_are_written(n: nat)
    ensures
        n < 10 ==> decimal(n) == seq![digit(n)],
        n >= 10 ==> decimal(n) == decimal(n / 10).push(digit(n % 10)),
        n < 16 ==> hexadecimal(n) == seq![digit(n)],
        n >= 16 ==> hexadecimal(n) == hexadecimal(n / 16).push(digit(n % 16)),
{
}

/// A number below a hundred has exactly two digits, tens first, and a larger
/// one those that it has.
pub proof fn lemma_what_two_digits_are(n: nat)
    ensures
        n < 100 ==> two_digits(n) == seq![digit(n / 10), digit(n % 10)],
        n >= 100 ==> two_digits(n) == decimal(n),
{
    if n < 10 {
        assert(two_digits(n) =~= seq![digit(0), digit(n)]);
    } else if n < 100 {
        assert(decimal(n / 10) == seq![digit(n / 10)]);
        assert(decimal(n) == decimal(n / 10).push(digit(n % 10)));
        assert(two_digits(n) =~= seq![digit(n / 10), digit(n % 10)]);
    }
}

/// A byte in hexadecimal is two digits, sixteens first.
pub proof fn lemma_what_a_hex_pair_is(b: u8, high: nat, low: nat)
    requires
        high < 16,
        low < 16,
        b == 16 * high + low,
    ensures
        hex_pair(b) == seq![upper_hex_digit(high), upper_hex_digit(low)],
{
}

/// A string is its text, a missing one is none, and a list of strings is the
/// list of their texts.
pub proof fn lemma_strings_are_their_texts(s: String, slice: &str, v: Seq<String>, i: int)
    ensures
        opt_text(Some(s)) == Some(s@),
        opt_text(None) is None,
        opt_str(Some(slice)) == Some(slice@),
        opt_str(None) is None,
        texts(v).len() == v.len(),
        0 <= i < v.len() ==> texts(v)[i] == v[i]@,
{
}

} // verus!
