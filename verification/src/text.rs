//! Text primitives: equality, ordering, decimal digits, trimming.

use vstd::prelude::*;
use vstd::string::*;

verus! {

/// `str` equality of the standard library: two slices are equal exactly when
/// they hold the same characters.
pub assume_specification[ <str as PartialEq<str>>::eq ](a: &str, b: &str) -> (r: bool)
    ensures
        r == (a@ == b@),
;

/// `String::push` of the standard library: appends one character.
pub assume_specification[ String::push ](s: &mut String, c: char)
    ensures
        final(s)@ == old(s)@.push(c),
;

/// The order of text columns: character by character, a proper prefix first.
pub open spec fn lex_lt(a: Seq<char>, b: Seq<char>) -> bool
    decreases a.len(),
{
    if b.len() == 0 {
        false
    } else if a.len() == 0 {
        true
    } else if a[0] != b[0] {
        a[0] < b[0]
    } else {
        lex_lt(a.drop_first(), b.drop_first())
    }
}

/// Nothing comes before itself.
pub proof fn lemma_lex_irreflexive(a: Seq<char>)
    ensures
        !lex_lt(a, a),
    decreases a.len(),
{
    if a.len() > 0 {
        lemma_lex_irreflexive(a.drop_first());
    }
}

/// The text order is transitive.
pub proof fn lemma_lex_transitive(a: Seq<char>, b: Seq<char>, c: Seq<char>)
    requires
        lex_lt(a, b),
        lex_lt(b, c),
    ensures
        lex_lt(a, c),
    decreases a.len(),
{
    if a.len() > 0 && b.len() > 0 && c.len() > 0 && a[0] == b[0] && b[0] == c[0] {
        lemma_lex_transitive(a.drop_first(), b.drop_first(), c.drop_first());
    }
}

/// Of two different texts one comes before the other.
pub proof fn lemma_lex_total(a: Seq<char>, b: Seq<char>)
    ensures
        lex_lt(a, b) || lex_lt(b, a) || a == b,
    decreases a.len(),
{
    if a.len() > 0 && b.len() > 0 && a[0] == b[0] {
        lemma_lex_total(a.drop_first(), b.drop_first());
        if a.drop_first() == b.drop_first() {
            assert(a =~= seq![a[0]] + a.drop_first());
            assert(b =~= seq![b[0]] + b.drop_first());
        }
    } else if a.len() == 0 && b.len() == 0 {
        assert(a =~= b);
    }
}

/// Whether `a` comes before `b` in the text order.
pub fn text_lt(a: &str, b: &str) -> (r: bool)
    ensures
        r == lex_lt(a@, b@),
{
    let mut x = a.chars();
    let mut y = b.chars();
    assert(vstd::std_specs::iter::IteratorSpec::remaining(&x) == a@);
    loop
        invariant
            lex_lt(a@, b@) == lex_lt(vstd::std_specs::iter::IteratorSpec::remaining(&x), vstd::std_specs::iter::IteratorSpec::remaining(&y)),
            vstd::std_specs::iter::IteratorSpec::obeys_prophetic_iter_laws(&x),
            vstd::std_specs::iter::IteratorSpec::obeys_prophetic_iter_laws(&y),
            vstd::std_specs::iter::IteratorSpec::decrease(&x) is Some,
        decreases vstd::std_specs::iter::IteratorSpec::decrease(&x)->0,
    {
        let p = x.next();
        let q = y.next();
        match (p, q) {
            (_, None) => {
                return false;
            },
            (None, Some(_)) => {
                return true;
            },
            (Some(c), Some(d)) => {
                if c != d {
                    return c < d;
                }
            },
        }
    }
}

/// The characters of a text, one by one.
pub fn chars_of(s: &str) -> (r: Vec<char>)
    ensures
        r@ == s@,
{
    let mut out: Vec<char> = Vec::new();
    let mut rest = s.chars();
    loop
        invariant
            out@ + vstd::std_specs::iter::IteratorSpec::remaining(&rest) == s@,
            vstd::std_specs::iter::IteratorSpec::obeys_prophetic_iter_laws(&rest),
            vstd::std_specs::iter::IteratorSpec::decrease(&rest) is Some,
        decreases vstd::std_specs::iter::IteratorSpec::decrease(&rest)->0,
    {
        let ghost before = vstd::std_specs::iter::IteratorSpec::remaining(&rest);
        let ghost done = out@;
        match rest.next() {
            Some(c) => {
                out.push(c);
                proof {
                    assert(out@ + before.drop_first() =~= done + before);
                }
            },
            None => {
                proof {
                    assert(done + before =~= done);
                }
                return out;
            },
        }
    }
}

/// The text made of the characters `from..to`.
pub fn text_of(chars: &Vec<char>, from: usize, to: usize) -> (r: String)
    requires
        from <= to <= chars.len(),
    ensures
        r@ == chars@.subrange(from as int, to as int),
{
    let mut out = String::new();
    let mut i: usize = from;
    while i < to
        invariant
            from <= i <= to <= chars.len(),
            out@ == chars@.subrange(from as int, i as int),
        decreases to - i,
    {
        out.push(chars[i]);
        i = i + 1;
        assert(out@ =~= chars@.subrange(from as int, i as int));
    }
    out
}

/// The decimal digit for `d`.
pub open spec fn digit_char(d: int) -> char {
    (48 + d) as char
}

/// The decimal digits of a natural number, without leading zeros.
pub open spec fn digits(n: nat) -> Seq<char>
    decreases n,
{
    if n < 10 {
        seq![digit_char(n as int)]
    } else {
        digits(n / 10).push(digit_char((n % 10) as int))
    }
}

/// An integer in decimal, with a minus sign in front where it is negative.
pub open spec fn decimal(n: int) -> Seq<char> {
    if n < 0 {
        seq!['-'] + digits((-n) as nat)
    } else {
        digits(n as nat)
    }
}

fn push_digits(out: &mut String, n: u64)
    ensures
        final(out)@ == old(out)@ + digits(n as nat),
    decreases n,
{
    if n >= 10 {
        push_digits(out, n / 10);
    }
    let d: u8 = (n % 10) as u8;
    out.push((48u8 + d) as char);
    proof {
        assert(out@ =~= old(out)@ + digits(n as nat));
    }
}

/// Appends a natural number in decimal.
pub fn push_u64(out: &mut String, n: u64)
    ensures
        final(out)@ == old(out)@ + decimal(n as int),
{
    push_digits(out, n);
}

/// Appends an integer in decimal.
pub fn push_i64(out: &mut String, n: i64)
    ensures
        final(out)@ == old(out)@ + decimal(n as int),
{
    if n < 0 {
        out.push('-');
        let magnitude: i128 = -(n as i128);
        push_digits(out, magnitude as u64);
        proof {
            assert(out@ =~= old(out)@ + decimal(n as int));
        }
    } else {
        push_digits(out, n as u64);
    }
}

/// An integer in decimal.
pub fn i64_text(n: i64) -> (r: String)
    ensures
        r@ == decimal(n as int),
{
    let mut out = String::new();
    push_i64(&mut out, n);
    proof {
        assert(out@ =~= decimal(n as int));
    }
    out
}

/// Whether `c` is whitespace, by the `White_Space` property of Unicode.
pub open spec fn whitespace(c: char) -> bool {
    let code = c as int;
    ||| 0x9 <= code <= 0xD
    ||| code == 0x20
    ||| code == 0x85
    ||| code == 0xA0
    ||| code == 0x1680
    ||| 0x2000 <= code <= 0x200A
    ||| code == 0x2028
    ||| code == 0x2029
    ||| code == 0x202F
    ||| code == 0x205F
    ||| code == 0x3000
}

/// Decides whether a character is whitespace.
pub fn is_whitespace(c: char) -> (r: bool)
    ensures
        r == whitespace(c),
{
    let code: u32 = c as u32;
    (0x9 <= code && code <= 0xD) || code == 0x20 || code == 0x85 || code == 0xA0 || code == 0x1680
        || (0x2000 <= code && code <= 0x200A) || code == 0x2028 || code == 0x2029 || code == 0x202F
        || code == 0x205F || code == 0x3000
}

/// A text without its leading whitespace.
pub open spec fn trim_front(s: Seq<char>) -> Seq<char>
    decreases s.len(),
{
    if s.len() > 0 && whitespace(s[0]) {
        trim_front(s.drop_first())
    } else {
        s
    }
}

/// A text without its trailing whitespace.
pub open spec fn trim_back(s: Seq<char>) -> Seq<char>
    decreases s.len(),
{
    if s.len() > 0 && whitespace(s.last()) {
        trim_back(s.drop_last())
    } else {
        s
    }
}

/// A text without the whitespace around it.
pub open spec fn trimmed(s: Seq<char>) -> Seq<char> {
    trim_back(trim_front(s))
}

/// Removes the whitespace around a text.
pub fn trim(s: &str) -> (r: String)
    ensures
        r@ == trimmed(s@),
{
    let chars = chars_of(s);
    let mut from: usize = 0;
    assert(s@.skip(0) =~= s@);
    while from < chars.len() && is_whitespace(chars[from])
        invariant
            from <= chars.len(),
            chars@ == s@,
            trim_front(s@) == trim_front(s@.skip(from as int)),
        ensures
            from <= chars.len(),
            chars@ == s@,
            trim_front(s@) == s@.skip(from as int),
        decreases chars.len() - from,
    {
        assert(s@.skip(from as int).drop_first() =~= s@.skip(from + 1));
        from = from + 1;
    }
    let mut to: usize = chars.len();
    assert(s@.skip(from as int) =~= s@.subrange(from as int, to as int));
    while from < to && is_whitespace(chars[to - 1])
        invariant
            from <= to <= chars.len(),
            chars@ == s@,
            trimmed(s@) == trim_back(s@.subrange(from as int, to as int)),
        ensures
            from <= to <= chars.len(),
            chars@ == s@,
            trimmed(s@) == s@.subrange(from as int, to as int),
        decreases to - from,
    {
        assert(s@.subrange(from as int, to as int).drop_last() =~= s@.subrange(from as int, to - 1));
        to = to - 1;
    }
    text_of(&chars, from, to)
}

/// The lower-case letter for an upper-case ASCII letter; any other character
/// stands for itself.
pub open spec fn ascii_lower(c: char) -> char {
    if 'A' <= c <= 'Z' {
        (c as u32 + 32) as char
    } else {
        c
    }
}

/// Whether two texts differ at most in the case of ASCII letters.
pub open spec fn same_ignoring_case(a: Seq<char>, b: Seq<char>) -> bool {
    a.map_values(|c: char| ascii_lower(c)) == b.map_values(|c: char| ascii_lower(c))
}

fn lower_char(c: char) -> (r: char)
    ensures
        r == ascii_lower(c),
{
    if 'A' <= c && c <= 'Z' {
        let code: u8 = c as u8;
        (code + 32) as char
    } else {
        c
    }
}

/// Compares two texts without regard to the case of ASCII letters.
pub fn eq_ignore_ascii_case(a: &str, b: &str) -> (r: bool)
    ensures
        r == same_ignoring_case(a@, b@),
{
    let x = chars_of(a);
    let y = chars_of(b);
    let ghost la = a@.map_values(|c: char| ascii_lower(c));
    let ghost lb = b@.map_values(|c: char| ascii_lower(c));
    if x.len() != y.len() {
        assert(la.len() != lb.len());
        return false;
    }
    let mut i: usize = 0;
    while i < x.len()
        invariant
            i <= x.len(),
            x.len() == y.len(),
            x@ == a@,
            y@ == b@,
            la == a@.map_values(|c: char| ascii_lower(c)),
            lb == b@.map_values(|c: char| ascii_lower(c)),
            forall|j: int| 0 <= j < i ==> la[j] == lb[j],
        decreases x.len() - i,
    {
        if lower_char(x[i]) != lower_char(y[i]) {
            assert(la[i as int] != lb[i as int]);
            return false;
        }
        i = i + 1;
    }
    assert(la =~= lb);
    true
}

/// The number that a run of decimal digits stands for; none where another
/// character occurs.
pub open spec fn digits_value(s: Seq<char>) -> Option<int>
    decreases s.len(),
{
    if s.len() == 0 {
        Some(0)
    } else {
        match digits_value(s.drop_last()) {
            Some(v) if '0' <= s.last() <= '9' => Some(v * 10 + (s.last() as int - 48)),
            _ => None,
        }
    }
}

/// The integer that a text stands for: an optional sign, then at least one
/// decimal digit and nothing else.
pub open spec fn integer_value(s: Seq<char>) -> Option<int> {
    if s.len() > 1 && s[0] == '-' {
        match digits_value(s.drop_first()) {
            Some(v) => Some(-v),
            None => None,
        }
    } else if s.len() > 1 && s[0] == '+' {
        digits_value(s.drop_first())
    } else if s.len() > 0 {
        digits_value(s)
    } else {
        None
    }
}

/// The reading of a text as an `i64`: none where it is no integer or does not fit.
pub open spec fn i64_value(s: Seq<char>) -> Option<i64> {
    match integer_value(s) {
        Some(v) if i64::MIN <= v <= i64::MAX => Some(v as i64),
        _ => None,
    }
}

/// The reading of a text as a `u32`: a minus sign is not accepted.
pub open spec fn u32_value(s: Seq<char>) -> Option<u32> {
    if s.len() > 0 && s[0] == '-' {
        None
    } else {
        match integer_value(s) {
            Some(v) if v <= u32::MAX => Some(v as u32),
            _ => None,
        }
    }
}

proof fn lemma_digits_value_grows(s: Seq<char>, n: int)
    requires
        0 <= n <= s.len(),
        digits_value(s) is Some,
    ensures
        digits_value(s.take(n)) is Some,
        0 <= digits_value(s.take(n))->0 <= digits_value(s)->0,
    decreases s.len() - n,
{
    if n == s.len() {
        assert(s.take(n) =~= s);
        lemma_digits_value_natural(s);
    } else {
        lemma_digits_value_grows(s, n + 1);
        assert(s.take(n + 1).drop_last() =~= s.take(n));
        lemma_digits_value_natural(s.take(n));
    }
}

proof fn lemma_digits_value_natural(s: Seq<char>)
    ensures
        digits_value(s) is Some ==> digits_value(s)->0 >= 0,
    decreases s.len(),
{
    if s.len() > 0 {
        lemma_digits_value_natural(s.drop_last());
    }
}

/// Reads the digits from position `from` on; none where a character is no
/// digit or the number is above `2^63`.
fn read_digits(chars: &Vec<char>, from: usize) -> (r: Option<i128>)
    requires
        from <= chars.len(),
    ensures
        match r {
            Some(v) => digits_value(chars@.skip(from as int)) == Some(v as int) && 0 <= v
                <= 0x8000_0000_0000_0000,
            None => digits_value(chars@.skip(from as int)) is None || digits_value(
                chars@.skip(from as int),
            )->0 > 0x8000_0000_0000_0000,
        },
{
    let ghost tail = chars@.skip(from as int);
    let mut acc: i128 = 0;
    let mut i: usize = from;
    while i < chars.len()
        invariant
            from <= i <= chars.len(),
            tail == chars@.skip(from as int),
            digits_value(tail.take(i - from)) == Some(acc as int),
            0 <= acc <= 0x8000_0000_0000_0000,
        decreases chars.len() - i,
    {
        let c: char = chars[i];
        proof {
            assert(tail.take(i - from + 1).drop_last() =~= tail.take(i - from));
            assert(tail.take(i - from + 1).last() == c);
        }
        if !('0' <= c && c <= '9') {
            proof {
                if digits_value(tail) is Some {
                    lemma_digits_value_grows(tail, i - from + 1);
                }
            }
            return None;
        }
        let d: u8 = c as u8 - 48u8;
        acc = acc * 10 + d as i128;
        if acc > 0x8000_0000_0000_0000 {
            proof {
                if digits_value(tail) is Some {
                    lemma_digits_value_grows(tail, i - from + 1);
                }
            }
            return None;
        }
        i = i + 1;
    }
    assert(tail.take(i - from) =~= tail);
    Some(acc)
}

fn read_integer(s: &str) -> (r: Option<i128>)
    ensures
        match r {
            Some(v) => integer_value(s@) == Some(v as int) && -0x8000_0000_0000_0000 <= v
                <= 0x8000_0000_0000_0000,
            None => integer_value(s@) is None || integer_value(s@)->0 > 0x8000_0000_0000_0000
                || integer_value(s@)->0 < -0x8000_0000_0000_0000,
        },
{
    let chars = chars_of(s);
    if chars.len() == 0 {
        return None;
    }
    proof {
        assert(chars@.skip(1) =~= s@.drop_first());
        assert(chars@.skip(0) =~= s@);
    }
    if chars.len() > 1 && chars[0] == '-' {
        match read_digits(&chars, 1) {
            Some(v) => Some(-v),
            None => None,
        }
    } else if chars.len() > 1 && chars[0] == '+' {
        read_digits(&chars, 1)
    } else {
        read_digits(&chars, 0)
    }
}

/// Reads a text as an `i64`.
pub fn parse_i64(s: &str) -> (r: Option<i64>)
    ensures
        r == i64_value(s@),
{
    match read_integer(s) {
        Some(v) => if v <= i64::MAX as i128 {
            Some(v as i64)
        } else {
            None
        },
        None => None,
    }
}

/// Reads a text as a `u32`.
pub fn parse_u32(s: &str) -> (r: Option<u32>)
    ensures
        r == u32_value(s@),
{
    let chars = chars_of(s);
    if chars.len() > 0 && chars[0] == '-' {
        return None;
    }
    proof {
        lemma_digits_value_natural(s@);
        lemma_digits_value_natural(s@.drop_first());
    }
    match read_integer(s) {
        Some(v) => if v <= u32::MAX as i128 {
            Some(v as u32)
        } else {
            None
        },
        None => None,
    }
}

/// An owned copy of an optional text.
pub fn own(o: Option<&str>) -> (r: Option<String>)
    ensures
        r.deep_view() == o.deep_view(),
{
    match o {
        Some(s) => Some(s.to_owned()),
        None => None,
    }
}

/// A copy of an optional text.
pub fn copy_text(o: &Option<String>) -> (r: Option<String>)
    ensures
        r == *o,
{
    match o {
        Some(s) => Some(s.clone()),
        None => None,
    }
}

/// A copy of a list of texts.
pub fn copy_list(list: &Vec<String>) -> (r: Vec<String>)
    ensures
        r.deep_view() == list.deep_view(),
{
    let mut out: Vec<String> = Vec::new();
    let mut i: usize = 0;
    while i < list.len()
        invariant
            i <= list.len(),
            out@ == list@.take(i as int),
        decreases list.len() - i,
    {
        out.push(list[i].clone());
        i = i + 1;
        assert(out@ =~= list@.take(i as int));
    }
    assert(out@ =~= list@);
    out
}

/// Whether an optional text is the given one.
pub fn is_text(o: &Option<String>, s: &str) -> (r: bool)
    ensures
        r == (o.deep_view() == Some(s@)),
{
    match o {
        Some(t) => *t.as_str() == *s,
        None => false,
    }
}

/// Three texts in a row.
pub fn join3(a: &str, b: &str, c: &str) -> (r: String)
    ensures
        r@ == a@ + b@ + c@,
{
    let mut out = a.to_owned();
    out.append(b);
    out.append(c);
    out
}

/// Five texts in a row.
pub fn join5(a: &str, b: &str, c: &str, d: &str, e: &str) -> (r: String)
    ensures
        r@ == a@ + b@ + c@ + d@ + e@,
{
    let mut out = join3(a, b, c);
    out.append(d);
    out.append(e);
    out
}

/// Seven texts in a row.
pub fn join7(a: &str, b: &str, c: &str, d: &str, e: &str, f: &str, g: &str) -> (r: String)
    ensures
        r@ == a@ + b@ + c@ + d@ + e@ + f@ + g@,
{
    let mut out = join5(a, b, c, d, e);
    out.append(f);
    out.append(g);
    out
}

/// A character repeated.
pub open spec fn repeated(c: char, n: int) -> Seq<char> {
    Seq::new(n as nat, |i: int| c)
}

/// Appends a character a number of times.
pub fn push_repeated(out: &mut String, c: char, n: usize)
    ensures
        final(out)@ == old(out)@ + repeated(c, n as int),
{
    let ghost start = out@;
    let mut i: usize = 0;
    assert(out@ =~= start + repeated(c, 0));
    while i < n
        invariant
            i <= n,
            out@ == start + repeated(c, i as int),
        decreases n - i,
    {
        out.push(c);
        i = i + 1;
        assert(out@ =~= start + repeated(c, i as int));
    }
}

/// A text filled up with spaces to a width; a longer one as it is.
pub open spec fn padded(s: Seq<char>, width: int) -> Seq<char> {
    if s.len() < width {
        s + repeated(' ', width - s.len())
    } else {
        s
    }
}

/// Appends a text filled up with spaces to a width.
pub fn push_padded(out: &mut String, s: &str, width: usize)
    ensures
        final(out)@ == old(out)@ + padded(s@, width as int),
{
    let ghost start = out@;
    let chars = chars_of(s);
    out.append(s);
    if chars.len() < width {
        push_repeated(out, ' ', width - chars.len());
        assert(out@ =~= start + padded(s@, width as int));
    }
}

// --- What holds of texts ---

/// An integer in decimal begins with a digit, or with a minus sign where it is
/// negative, and has digits behind it.
pub(crate) proof fn lemma_decimal_shape(n: int)
    ensures
        decimal(n).len() > 0,
        n >= 0 ==> '0' <= decimal(n)[0] <= '9',
        n < 0 ==> decimal(n)[0] == '-' && decimal(n).len() > 1,
{
    if n < 0 {
        lemma_digits_shape((-n) as nat);
    } else {
        lemma_digits_shape(n as nat);
    }
}

proof fn lemma_digits_shape(n: nat)
    ensures
        digits(n).len() > 0,
        forall|i: int| 0 <= i < digits(n).len() ==> '0' <= #[trigger] digits(n)[i] <= '9',
        digits_value(digits(n)) == Some(n as int),
        n > 0 ==> digits(n)[0] != '0',
    decreases n,
{
    if n < 10 {
        let s = digits(n);
        assert(s =~= seq![digit_char(n as int)]);
        assert(s.drop_last() =~= Seq::empty());
        assert(digits_value(Seq::<char>::empty()) == Some(0int));
        assert(s.last() == digit_char(n as int));
    } else {
        lemma_digits_shape(n / 10);
        let s = digits(n);
        let front = digits(n / 10);
        let d = digit_char((n % 10) as int);
        assert(s == front.push(d));
        assert(s.drop_last() =~= front);
        assert(s.last() == d);
        assert forall|i: int| 0 <= i < s.len() implies '0' <= #[trigger] s[i] <= '9' by {
            if i < front.len() {
                assert(s[i] == front[i]);
            }
        }
        assert(s[0] == front[0]);
    }
}

proof fn lemma_lex_at(a: Seq<char>, b: Seq<char>)
    ensures
        lex_lt(a, b) <==> exists|k: int| #[trigger] parts_at(a, b, k),
    decreases a.len(),
{
    if b.len() > 0 && a.len() > 0 && a[0] == b[0] {
        let x = a.drop_first();
        let y = b.drop_first();
        lemma_lex_at(x, y);
        if lex_lt(x, y) {
            let k = choose|k: int| #[trigger] parts_at(x, y, k);
            assert(parts_at(a, b, k + 1)) by {
                assert forall|i: int| 0 <= i < k + 1 implies #[trigger] a[i] == b[i] by {
                    if i > 0 {
                        assert(x[i - 1] == y[i - 1]);
                    }
                }
            }
        }
        if exists|k: int| #[trigger] parts_at(a, b, k) {
            let k = choose|k: int| #[trigger] parts_at(a, b, k);
            assert(k > 0);
            assert(parts_at(x, y, k - 1)) by {
                assert forall|i: int| 0 <= i < k - 1 implies #[trigger] x[i] == y[i] by {
                    assert(a[i + 1] == b[i + 1]);
                }
            }
        }
    } else if b.len() > 0 {
        assert(lex_lt(a, b) ==> parts_at(a, b, 0));
        if exists|k: int| #[trigger] parts_at(a, b, k) {
            let k = choose|k: int| #[trigger] parts_at(a, b, k);
            if a.len() > 0 && k > 0 {
                assert(a[0] == b[0]);
            }
        }
    }
}

/// Whether two texts are the same up to a position, and there the first one ends
/// or has the lower character.
pub open spec fn parts_at(a: Seq<char>, b: Seq<char>, k: int) -> bool {
    &&& 0 <= k <= a.len()
    &&& k < b.len()
    &&& forall|i: int| 0 <= i < k ==> #[trigger] a[i] == b[i]
    &&& k == a.len() || a[k] < b[k]
}

proof fn lemma_trimmed(s: Seq<char>)
    ensures
        exists|i: int, j: int|
            0 <= i <= j <= s.len() && trimmed(s) == #[trigger] s.subrange(i, j) && (forall|k: int|
                0 <= k < i || j <= k < s.len() ==> whitespace(#[trigger] s[k])),
        trimmed(s).len() > 0 ==> !whitespace(trimmed(s)[0]) && !whitespace(trimmed(s).last()),
{
    lemma_trim_front(s);
    let i = choose|i: int|
        0 <= i <= s.len() && trim_front(s) == #[trigger] s.skip(i) && forall|k: int|
            0 <= k < i ==> whitespace(#[trigger] s[k]);
    let t = s.skip(i);
    lemma_trim_back(t);
    let n = choose|n: int|
        0 <= n <= t.len() && trim_back(t) == #[trigger] t.take(n) && forall|k: int|
            n <= k < t.len() ==> whitespace(#[trigger] t[k]);
    assert(trimmed(s) =~= s.subrange(i, i + n));
    assert forall|k: int| 0 <= k < i || i + n <= k < s.len() implies whitespace(
        #[trigger] s[k],
    ) by {
        if k >= i {
            assert(t[k - i] == s[k]);
        }
    }
    if trimmed(s).len() > 0 {
        assert(trimmed(s)[0] == t[0]);
    }
}

proof fn lemma_trim_front(s: Seq<char>)
    ensures
        exists|i: int|
            0 <= i <= s.len() && trim_front(s) == #[trigger] s.skip(i) && forall|k: int|
                0 <= k < i ==> whitespace(#[trigger] s[k]),
        trim_front(s).len() > 0 ==> !whitespace(trim_front(s)[0]),
    decreases s.len(),
{
    if s.len() > 0 && whitespace(s[0]) {
        let rest = s.drop_first();
        lemma_trim_front(rest);
        let i = choose|i: int|
            0 <= i <= rest.len() && trim_front(rest) == #[trigger] rest.skip(i) && forall|k: int|
                0 <= k < i ==> whitespace(#[trigger] rest[k]);
        assert(rest.skip(i) =~= s.skip(i + 1));
        assert forall|k: int| 0 <= k < i + 1 implies whitespace(#[trigger] s[k]) by {
            if k > 0 {
                assert(rest[k - 1] == s[k]);
            }
        }
    } else {
        assert(s.skip(0) =~= s);
    }
}

proof fn lemma_trim_back(s: Seq<char>)
    ensures
        exists|n: int|
            0 <= n <= s.len() && trim_back(s) == #[trigger] s.take(n) && forall|k: int|
                n <= k < s.len() ==> whitespace(#[trigger] s[k]),
        trim_back(s).len() > 0 ==> !whitespace(trim_back(s).last()),
    decreases s.len(),
{
    if s.len() > 0 && whitespace(s.last()) {
        let rest = s.drop_last();
        lemma_trim_back(rest);
        let n = choose|n: int|
            0 <= n <= rest.len() && trim_back(rest) == #[trigger] rest.take(n) && forall|k: int|
                n <= k < rest.len() ==> whitespace(#[trigger] rest[k]);
        assert(rest.take(n) =~= s.take(n));
        assert forall|k: int| n <= k < s.len() implies whitespace(#[trigger] s[k]) by {
            if k < rest.len() {
                assert(rest[k] == s[k]);
            }
        }
    } else {
        assert(s.take(s.len() as int) =~= s);
    }
}

/// A text comes before another exactly where they part at some position, up to which they
/// are the same, and there the first one ends or has the lower character.
pub proof fn texts_are_in_the_order_of_their_characters(
    a: &str,
    b: &str,
    r: bool,
)
    requires
        call_ensures(text_lt, (a, b), r),
    ensures
        r <==> exists|k: int| #[trigger] parts_at(a@, b@, k),
        r == lex_lt(a@, b@),
{
    lemma_lex_at(a@, b@);
}

/// What is written of an integer is read back as that integer.
pub proof fn integers_are_read_back(
    n: i64,
)
    ensures
        i64_value(decimal(n as int)) == Some(n),
        0 <= n <= u32::MAX ==> u32_value(decimal(n as int)) == Some(n as u32),
        integer_value(decimal(n as int)) == Some(n as int),
{
    let s = decimal(n as int);
    lemma_decimal_shape(n as int);
    if n < 0 {
        lemma_digits_shape((-n) as nat);
        assert(s.drop_first() =~= digits((-n) as nat));
    } else {
        lemma_digits_shape(n as nat);
    }
}

/// An integer is written in decimal digits, the highest first and without a leading zero,
/// behind a minus sign where it is negative; and it is appended, what was there stays.
pub proof fn integers_are_written_in_digits(
    out: &mut String,
    n: i64,
    text: String,
)
    requires
        call_ensures(push_i64, (out, n), ()),
        call_ensures(i64_text, (n,), text),
    ensures
        final(out)@ == old(out)@ + text@,
        i64_value(text@) == Some(n),
        n < 0 ==> text@[0] == '-' && text@[1] != '0',
        n > 0 ==> text@[0] != '0',
        forall|i: int|
            0 <= i < text@.len() && (n >= 0 || i > 0) ==> '0' <= #[trigger] text@[i] <= '9',
{
    integers_are_read_back(n);
    if n < 0 {
        lemma_digits_shape((-n) as nat);
        assert forall|i: int| 0 < i < text@.len() implies '0' <= #[trigger] text@[i] <= '9' by {
            assert(text@[i] == digits((-n) as nat)[i - 1]);
        }
    } else {
        lemma_digits_shape(n as nat);
    }
}

/// A natural number is written as an integer of the same value is.
pub proof fn naturals_are_written_as_integers(
    out: &mut String,
    n: u64,
)
    requires
        call_ensures(push_u64, (out, n), ()),
    ensures
        final(out)@ == old(out)@ + decimal(n as int),
        integer_value(decimal(n as int)) == Some(n as int),
{
    lemma_digits_shape(n as nat);
    lemma_decimal_shape(n as int);
}

/// An integer is read from a text exactly where the text names one that fits.
pub proof fn integers_are_read_where_they_fit(
    s: &str,
    i: Option<i64>,
    u: Option<u32>,
)
    requires
        call_ensures(parse_i64, (s,), i),
        call_ensures(parse_u32, (s,), u),
    ensures
        i matches Some(n) ==> integer_value(s@) == Some(n as int),
        i is None ==> (integer_value(s@) matches Some(v) ==> v < i64::MIN || v > i64::MAX),
        u matches Some(n) ==> integer_value(s@) == Some(n as int) && s@[0] != '-',
        u is None && s@.len() > 0 && s@[0] != '-' ==> (integer_value(s@) matches Some(v) ==> v
            > u32::MAX),
        s@.len() > 0 && s@[0] == '-' ==> u is None,
{
    lemma_digits_value_natural(s@);
    lemma_digits_value_natural(s@.drop_first());
}

/// A digit behind others counts ten times those, and only digits count; a sign in front
/// decides whether the value is negative.
pub proof fn digits_count_by_tens(
    s: Seq<char>,
    c: char,
)
    ensures
        digits_value(s.push(c)) is Some <==> digits_value(s) is Some && '0' <= c <= '9',
        digits_value(s.push(c)) matches Some(v) ==> v == 10 * digits_value(s)->0 + (c as int
            - '0' as int),
        digits_value(Seq::empty()) == Some(0int),
        s.len() > 0 && s[0] != '-' && s[0] != '+' ==> integer_value(s) == digits_value(s),
        digits_value(s) is Some && s.len() > 0 ==> integer_value(seq!['-'] + s) == Some(
            -digits_value(s)->0,
        ) && integer_value(seq!['+'] + s) == digits_value(s),
        integer_value(Seq::empty()) is None,
        integer_value(seq!['-']) is None,
        integer_value(seq!['+']) is None,
{
    assert(s.push(c).drop_last() =~= s);
    assert((seq!['-'] + s).drop_first() =~= s);
    assert((seq!['+'] + s).drop_first() =~= s);
    assert(digits_value(Seq::<char>::empty()) == Some(0int));
    assert(seq!['-'].drop_last() =~= Seq::<char>::empty());
    assert(seq!['+'].drop_last() =~= Seq::<char>::empty());
    assert(digits_value(seq!['-']) is None);
    assert(digits_value(seq!['+']) is None);
}

/// Trimming a text takes whitespace from both ends and nothing else: what is left begins
/// and ends with another character, and what was taken is whitespace.
pub proof fn trimming_takes_whitespace_from_the_ends(
    s: &str,
    r: String,
)
    requires
        call_ensures(trim, (s,), r),
    ensures
        exists|i: int, j: int|
            0 <= i <= j <= s@.len() && r@ == #[trigger] s@.subrange(i, j) && (forall|k: int|
                0 <= k < i || j <= k < s@.len() ==> whitespace(#[trigger] s@[k])),
        r@.len() > 0 ==> !whitespace(r@[0]) && !whitespace(r@.last()),
{
    lemma_trimmed(s@);
}

/// Two texts are the same but for case where they are of one length and each pair of
/// characters is, at most, the upper and the lower case of one letter from A to Z.
pub proof fn case_is_ignored_letter_by_letter(
    a: &str,
    b: &str,
    r: bool,
)
    requires
        call_ensures(eq_ignore_ascii_case, (a, b), r),
    ensures
        r == same_ignoring_case(a@, b@),
        r <==> a@.len() == b@.len() && forall|i: int|
            0 <= i < a@.len() ==> #[trigger] a@[i] == b@[i] || ('A' <= a@[i] <= 'Z' && b@[i] as int
                == a@[i] as int + 32) || ('A' <= b@[i] <= 'Z' && a@[i] as int == b@[i] as int + 32),
{
    let x = a@.map_values(|c: char| ascii_lower(c));
    let y = b@.map_values(|c: char| ascii_lower(c));
    if r {
        assert(x.len() == y.len());
        assert forall|i: int| 0 <= i < a@.len() implies #[trigger] a@[i] == b@[i] || ('A' <= a@[i]
            <= 'Z' && b@[i] as int == a@[i] as int + 32) || ('A' <= b@[i] <= 'Z' && a@[i] as int
            == b@[i] as int + 32) by {
            assert(x[i] == y[i]);
        }
    }
    if a@.len() == b@.len() && (forall|i: int|
        0 <= i < a@.len() ==> #[trigger] a@[i] == b@[i] || ('A' <= a@[i] <= 'Z' && b@[i] as int
            == a@[i] as int + 32) || ('A' <= b@[i] <= 'Z' && a@[i] as int == b@[i] as int + 32)) {
        assert forall|i: int| 0 <= i < x.len() implies x[i] == y[i] by {
            assert(a@[i] == a@[i]);
        }
        assert(x =~= y);
    }
}

/// A text is filled up with spaces to a width, and a longer one is left as it is.
pub proof fn padding_adds_only_spaces(
    out: &mut String,
    s: &str,
    width: usize,
)
    requires
        call_ensures(push_padded, (out, s, width), ()),
    ensures
        final(out)@.len() == old(out)@.len() + (if s@.len() < width {
            width as int
        } else {
            s@.len() as int
        }),
        final(out)@.take(old(out)@.len() as int) == old(out)@,
        final(out)@.subrange(old(out)@.len() as int, (old(out)@.len() + s@.len()) as int) == s@,
        forall|i: int|
            old(out)@.len() + s@.len() <= i < final(out)@.len()
                ==> #[trigger] final(out)@[i] == ' ',
{
    assert(final(out)@.take(old(out)@.len() as int) =~= old(out)@);
    assert(final(out)@.subrange(old(out)@.len() as int, (old(out)@.len() + s@.len()) as int)
        =~= s@);
}

/// Whitespace are the characters that Unicode counts as such: tab to carriage return, the
/// space, the next line, the no-break space, the spaces of several widths, the separators
/// of lines and paragraphs, and the ideographic space.
pub proof fn whitespace_is_that_of_unicode(
    c: char,
    r: bool,
)
    requires
        call_ensures(is_whitespace, (c,), r),
    ensures
        r == whitespace(c),
        r <==> 0x9 <= c as int <= 0xD || c as int == 0x20 || c as int == 0x85 || c as int == 0xA0
            || c as int == 0x1680 || 0x2000 <= c as int <= 0x200A || c as int == 0x2028 || c as int
            == 0x2029 || c as int == 0x202F || c as int == 0x205F || c as int == 0x3000,
{
}

/// Copies are what they are copies of.
pub proof fn copies_are_the_same(
    o: Option<&str>,
    owned: Option<String>,
    t: &Option<String>,
    copied: Option<String>,
    list: &Vec<String>,
    listed: Vec<String>,
)
    requires
        call_ensures(own, (o,), owned),
        call_ensures(copy_text, (t,), copied),
        call_ensures(copy_list, (list,), listed),
    ensures
        o is None <==> owned is None,
        o matches Some(a) ==> (owned matches Some(b) && a@ == b@),
        t is None <==> copied is None,
        t matches Some(a) ==> (copied matches Some(b) && a@ == b@),
        listed@.len() == list@.len(),
        forall|i: int| 0 <= i < list@.len() ==> (#[trigger] listed@[i])@ == list@[i]@,
{
    assert(listed.deep_view().len() == listed@.len());
    assert(list.deep_view().len() == list@.len());
    assert forall|i: int| 0 <= i < list@.len() implies (#[trigger] listed@[i])@ == list@[i]@ by {
        assert(listed.deep_view()[i] == list.deep_view()[i]);
    }
}

/// A text is its characters, and a part of it those from one position up to another.
pub proof fn a_text_is_its_characters(
    s: &str,
    chars: Vec<char>,
    from: usize,
    to: usize,
    part: String,
)
    requires
        call_ensures(chars_of, (s,), chars),
        call_ensures(text_of, (&chars, from, to), part),
        from <= to <= chars@.len(),
    ensures
        chars@ == s@,
        part@.len() == to - from,
        forall|i: int| 0 <= i < part@.len() ==> #[trigger] part@[i] == s@[from + i],
{
}

/// Texts are joined in their order.
pub proof fn texts_are_joined_in_order(
    a: &str,
    b: &str,
    c: &str,
    d: &str,
    e: &str,
    f: &str,
    g: &str,
    three: String,
    five: String,
    seven: String,
)
    requires
        call_ensures(join3, (a, b, c), three),
        call_ensures(join5, (a, b, c, d, e), five),
        call_ensures(join7, (a, b, c, d, e, f, g), seven),
    ensures
        three@ == a@ + b@ + c@,
        five@ == three@ + d@ + e@,
        seven@ == five@ + f@ + g@,
{
}

/// An optional text is a given one exactly where it is there and the same; a character is
/// repeated as often as asked for.
pub proof fn texts_are_told_and_repeated(
    o: &Option<String>,
    s: &str,
    same: bool,
    out: &mut String,
    c: char,
    n: usize,
)
    requires
        call_ensures(is_text, (o, s), same),
        call_ensures(push_repeated, (out, c, n), ()),
    ensures
        same <==> (o matches Some(t) && t@ == s@),
        final(out)@.len() == old(out)@.len() + n,
        forall|i: int|
            0 <= i < old(out)@.len() ==> #[trigger] final(out)@[i] == old(out)@[i],
        forall|i: int| old(out)@.len() <= i < final(out)@.len() ==> #[trigger] final(out)@[i] == c,
{
}

} // verus!
