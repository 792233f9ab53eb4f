//! Text helpers: decimal numbers, searching, trimming, splitting and sorting,
//! stated over the characters of a string.

use vstd::prelude::*;
use vstd::string::StringExecFns;

use crate::list::{first, first_is_at};

verus! {

/// `String::push` appends the given character to the end of the string.
pub assume_specification[ String::push ](s: &mut String, c: char)
    ensures
        final(s)@ == old(s)@.push(c),
;

// ---- Decimal numbers --------------------------------------------------------

/// The character of a decimal digit.
pub open spec fn digit(d: nat) -> char {
    (48 + d) as char
}

/// The decimal digits of a number, most significant first.
pub open spec fn dec(n: nat) -> Seq<char>
    decreases n,
{
    if n < 10 {
        seq![digit(n)]
    } else {
        dec(n / 10).push(digit(n % 10))
    }
}

/// Append a number in decimal.
pub fn push_decimal(s: &mut String, n: u64)
    ensures
        final(s)@ == old(s)@ + dec(n as nat),
    decreases n,
{
    if n >= 10 {
        push_decimal(s, n / 10);
    }
    let d: u8 = (n % 10) as u8;
    s.push((48 + d) as char);
}

/// Whether two texts are the same characters.
pub fn same(a: &str, b: &str) -> (r: bool)
    ensures
        r == (a@ == b@),
{
    let x = a.as_bytes();
    let y = b.as_bytes();
    proof {
        vstd::utf8::encode_utf8_decode_utf8(a@);
        vstd::utf8::encode_utf8_decode_utf8(b@);
    }
    if x.len() != y.len() {
        return false;
    }
    let mut i: usize = 0;
    while i < x.len()
        invariant
            i <= x@.len(),
            x@.len() == y@.len(),
            forall|j: int| 0 <= j < i ==> x@[j] == y@[j],
            x@ == vstd::utf8::encode_utf8(a@),
            y@ == vstd::utf8::encode_utf8(b@),
        decreases x@.len() - i,
    {
        if x[i] != y[i] {
            return false;
        }
        i = i + 1;
    }
    assert(x@ =~= y@);
    true
}

/// The characters of a text.
pub fn chars_of(s: &str) -> (r: Vec<char>)
    ensures
        r@ == s@,
{
    let mut v: Vec<char> = Vec::new();
    for c in it: s.chars()
        invariant
            v@ =~= s@.take(it.index() as int),
            it.seq() == s@,
    {
        v.push(c);
    }
    assert(s@.take(s@.len() as int) =~= s@);
    v
}

/// The text made of a run of characters.
pub fn text_of(v: &Vec<char>, from: usize, to: usize) -> (r: String)
    requires
        from <= to <= v@.len(),
    ensures
        r@ == v@.subrange(from as int, to as int),
{
    let mut s = String::new();
    let mut i: usize = from;
    while i < to
        invariant
            from <= i <= to <= v@.len(),
            s@ =~= v@.subrange(from as int, i as int),
        decreases to - i,
    {
        s.push(v[i]);
        i = i + 1;
    }
    s
}

/// An owned copy of a text.
pub fn copy(s: &str) -> (r: String)
    ensures
        r@ == s@,
{
    s.to_owned()
}

/// A number in decimal.
pub fn decimal(n: u64) -> (r: String)
    ensures
        r@ == dec(n as nat),
{
    let mut s = String::new();
    push_decimal(&mut s, n);
    assert(Seq::<char>::empty() + dec(n as nat) =~= dec(n as nat));
    s
}

/// One text after another.
pub fn join(a: &str, b: &str) -> (r: String)
    ensures
        r@ == a@ + b@,
{
    let mut s = a.to_owned();
    s.append(b);
    s
}

/// A text followed by a number in decimal.
pub fn numbered(a: &str, n: u64) -> (r: String)
    ensures
        r@ == a@ + dec(n as nat),
{
    let mut s = a.to_owned();
    push_decimal(&mut s, n);
    s
}

// ---- Searching --------------------------------------------------------------

/// Whether `n` stands in `s` at position `i`.
pub open spec fn stands_at(s: Seq<char>, n: Seq<char>, i: int) -> bool {
    0 <= i && i + n.len() <= s.len() && s.subrange(i, i + n.len()) == n
}

/// Whether `n` stands somewhere in `s`.
pub open spec fn occurs(s: Seq<char>, n: Seq<char>) -> bool {
    exists|i: int| stands_at(s, n, i)
}

/// Whether `s` begins with `n`.
pub open spec fn begins(s: Seq<char>, n: Seq<char>) -> bool {
    stands_at(s, n, 0)
}

/// Whether `s` ends in `n`.
pub open spec fn ends(s: Seq<char>, n: Seq<char>) -> bool {
    stands_at(s, n, s.len() - n.len())
}

/// Whether the second run of characters stands in the first at a position.
pub fn matches_at(v: &Vec<char>, w: &Vec<char>, at: usize) -> (r: bool)
    requires
        at <= v@.len(),
    ensures
        r == stands_at(v@, w@, at as int),
{
    let n: usize = v.len();
    if w.len() > n - at {
        return false;
    }
    let mut j: usize = 0;
    while j < w.len()
        invariant
            j <= w@.len(),
            n == v@.len(),
            at + w@.len() <= n,
            forall|k: int| 0 <= k < j ==> v@[at + k] == w@[k],
        decreases w@.len() - j,
    {
        if v[at + j] != w[j] {
            assert(v@.subrange(at as int, at + w@.len())[j as int] != w@[j as int]);
            return false;
        }
        j = j + 1;
    }
    assert(v@.subrange(at as int, at + w@.len()) =~= w@);
    true
}

/// The first position at which the second run stands in the first.
pub fn find(v: &Vec<char>, w: &Vec<char>) -> (r: Option<usize>)
    ensures
        match r {
            Some(i) => stands_at(v@, w@, i as int) && forall|j: int|
                0 <= j < i ==> !stands_at(v@, w@, j),
            None => !occurs(v@, w@),
        },
{
    if w.len() > v.len() {
        return None;
    }
    let mut i: usize = 0;
    while i <= v.len() - w.len()
        invariant
            w@.len() <= v@.len(),
            i <= v@.len() - w@.len() + 1,
            forall|j: int| 0 <= j < i ==> !stands_at(v@, w@, j),
        decreases v@.len() - i + 1,
    {
        if matches_at(v, w, i) {
            return Some(i);
        }
        if i == v.len() - w.len() {
            return None;
        }
        i = i + 1;
    }
    None
}

/// Whether the second text stands somewhere in the first.
pub fn contains(s: &str, n: &str) -> (r: bool)
    ensures
        r == occurs(s@, n@),
{
    match find(&chars_of(s), &chars_of(n)) {
        Some(_) => true,
        None => false,
    }
}

/// Whether the first text begins with the second.
pub fn starts_with(s: &str, n: &str) -> (r: bool)
    ensures
        r == begins(s@, n@),
{
    matches_at(&chars_of(s), &chars_of(n), 0)
}

/// Whether the first text ends in the second.
pub fn ends_with(s: &str, n: &str) -> (r: bool)
    ensures
        r == ends(s@, n@),
{
    let v = chars_of(s);
    let w = chars_of(n);
    if w.len() > v.len() {
        return false;
    }
    matches_at(&v, &w, v.len() - w.len())
}

/// What follows the prefix, where the text begins with it.
pub fn after_prefix(s: &str, prefix: &str) -> (r: Option<String>)
    ensures
        r is Some <==> begins(s@, prefix@),
        r is Some ==> r->0@ == s@.skip(prefix@.len() as int),
{
    let v = chars_of(s);
    let w = chars_of(prefix);
    if matches_at(&v, &w, 0) {
        let t = text_of(&v, w.len(), v.len());
        assert(t@ =~= s@.skip(prefix@.len() as int));
        Some(t)
    } else {
        None
    }
}

// ---- White space ------------------------------------------------------------

/// Whether a character has the Unicode property `White_Space`.
pub open spec fn is_white(c: char) -> bool {
    let n = c as u32;
    ||| 0x9 <= n <= 0xd
    ||| n == 0x20
    ||| n == 0x85
    ||| n == 0xa0
    ||| n == 0x1680
    ||| 0x2000 <= n <= 0x200a
    ||| n == 0x2028
    ||| n == 0x2029
    ||| n == 0x202f
    ||| n == 0x205f
    ||| n == 0x3000
}

/// Whether a text is nothing but white space.
pub open spec fn blank(s: Seq<char>) -> bool {
    forall|i: int| 0 <= i < s.len() ==> is_white(#[trigger] s[i])
}

/// A text without the white space it begins with.
pub open spec fn trim_start(s: Seq<char>) -> Seq<char>
    decreases s.len(),
{
    if s.len() > 0 && is_white(s[0]) {
        trim_start(s.skip(1))
    } else {
        s
    }
}

/// A text without the white space it ends in.
pub open spec fn trim_end(s: Seq<char>) -> Seq<char>
    decreases s.len(),
{
    if s.len() > 0 && is_white(s.last()) {
        trim_end(s.drop_last())
    } else {
        s
    }
}

/// A text without the white space around it.
pub open spec fn trim(s: Seq<char>) -> Seq<char> {
    trim_end(trim_start(s))
}

/// Whether a character is white space.
pub fn white(c: char) -> (r: bool)
    ensures
        r == is_white(c),
{
    let n: u32 = c as u32;
    (n >= 0x9 && n <= 0xd) || n == 0x20 || n == 0x85 || n == 0xa0 || n == 0x1680 || (n >= 0x2000 && n
        <= 0x200a) || n == 0x2028 || n == 0x2029 || n == 0x202f || n == 0x205f || n == 0x3000
}

/// Whether a text is nothing but white space.
pub fn is_blank(s: &str) -> (r: bool)
    ensures
        r == blank(s@),
{
    let v = chars_of(s);
    let mut i: usize = 0;
    while i < v.len()
        invariant
            v@ == s@,
            i <= v@.len(),
            forall|j: int| 0 <= j < i ==> is_white(#[trigger] v@[j]),
        decreases v@.len() - i,
    {
        if !white(v[i]) {
            return false;
        }
        i = i + 1;
    }
    true
}

/// The text without the white space around it.
pub fn trimmed(s: &str) -> (r: String)
    ensures
        r@ == trim(s@),
{
    let v = chars_of(s);
    let mut i: usize = 0;
    assert(s@.skip(0) =~= s@);
    while i < v.len() && white(v[i])
        invariant
            v@ == s@,
            i <= v@.len(),
            trim_start(s@) == trim_start(s@.skip(i as int)),
        decreases v@.len() - i,
    {
        assert(s@.skip(i as int).skip(1) =~= s@.skip(i + 1));
        i = i + 1;
    }
    let mut j: usize = v.len();
    assert(s@.subrange(i as int, j as int) =~= s@.skip(i as int));
    while j > i && white(v[j - 1])
        invariant
            v@ == s@,
            i <= j <= v@.len(),
            trim_end(s@.skip(i as int)) == trim_end(s@.subrange(i as int, j as int)),
        decreases j,
    {
        assert(s@.subrange(i as int, j as int).drop_last() =~= s@.subrange(i as int, j - 1));
        j = j - 1;
    }
    text_of(&v, i, j)
}

/// Trimming leaves nothing exactly of a blank text.
pub proof fn trim_is_empty_when_blank(s: Seq<char>)
    ensures
        trim(s).len() == 0 <==> blank(s),
{
    start_keeps_rest(s);
    let t = trim_start(s);
    if t.len() == 0 {
    } else {
        end_keeps_first(t);
    }
}

proof fn start_keeps_rest(s: Seq<char>)
    ensures
        trim_start(s).len() <= s.len(),
        trim_start(s) == s.skip(s.len() - trim_start(s).len()),
        forall|i: int| 0 <= i < s.len() - trim_start(s).len() ==> is_white(#[trigger] s[i]),
        trim_start(s).len() > 0 ==> !is_white(trim_start(s)[0]),
    decreases s.len(),
{
    if s.len() > 0 && is_white(s[0]) {
        let r = s.skip(1);
        start_keeps_rest(r);
        let k = trim_start(r).len();
        assert(s.skip(s.len() - k) =~= r.skip(r.len() - k));
        assert forall|i: int| 0 <= i < s.len() - k implies is_white(#[trigger] s[i]) by {
            if i > 0 {
                assert(r[i - 1] == s[i]);
            }
        }
    } else {
        assert(s.skip(0) =~= s);
    }
}

proof fn end_keeps_first(s: Seq<char>)
    requires
        s.len() > 0,
        !is_white(s[0]),
    ensures
        trim_end(s).len() > 0,
    decreases s.len(),
{
    if is_white(s.last()) {
        end_keeps_first(s.drop_last());
    }
}

// ---- Hexadecimal ------------------------------------------------------------

/// The value of a hexadecimal digit.
pub open spec fn hex(c: char) -> Option<u8> {
    let n = c as u32;
    if 48 <= n <= 57 {
        Some((n - 48) as u8)
    } else if 65 <= n <= 70 {
        Some((n - 55) as u8)
    } else if 97 <= n <= 102 {
        Some((n - 87) as u8)
    } else {
        None
    }
}

/// The value of a hexadecimal digit.
pub fn hex_value(c: char) -> (r: Option<u8>)
    ensures
        r == hex(c),
        r is Some ==> r->0 < 16,
{
    let n: u32 = c as u32;
    if n >= 48 && n <= 57 {
        Some((n - 48) as u8)
    } else if n >= 65 && n <= 70 {
        Some((n - 55) as u8)
    } else if n >= 97 && n <= 102 {
        Some((n - 87) as u8)
    } else {
        None
    }
}

// ---- Numbers in text determine the number -----------------------------------

/// Different numbers have different decimal digits.
pub proof fn decimal_is_injective(a: nat, b: nat)
    ensures
        dec(a) == dec(b) ==> a == b,
    decreases a,
{
    decimal_is_not_empty(a / 10);
    decimal_is_not_empty(b / 10);
    if dec(a) == dec(b) {
        assert(dec(a).last() == dec(b).last());
        assert((48 + a % 10) as char as u32 == 48 + a % 10);
        assert((48 + b % 10) as char as u32 == 48 + b % 10);
        if a >= 10 && b >= 10 {
            assert(dec(a).drop_last() =~= dec(a / 10));
            assert(dec(b).drop_last() =~= dec(b / 10));
            decimal_is_injective(a / 10, b / 10);
        }
    }
}

/// A number has at least one digit.
pub proof fn decimal_is_not_empty(n: nat)
    ensures
        dec(n).len() > 0,
    decreases n,
{
    if n >= 10 {
        decimal_is_not_empty(n / 10);
    }
}

/// The decimal form of a number consists of digits.
pub proof fn decimal_is_digits(n: nat)
    ensures
        forall|i: int| 0 <= i < dec(n).len() ==> 48 <= (#[trigger] dec(n)[i]) as u32 <= 57,
    decreases n,
{
    if n >= 10 {
        decimal_is_digits(n / 10);
    }
    assert forall|i: int| 0 <= i < dec(n).len() implies 48 <= (#[trigger] dec(n)[i]) as u32 <= 57 by {
        if n >= 10 && i < dec(n / 10).len() {
            assert(dec(n)[i] == dec(n / 10)[i]);
        } else {
            assert(dec(n)[i] == digit(n % 10));
        }
    }
}

/// Signed numbers with the same decimal form are the same.
pub proof fn signed_decimal_is_injective(a: int, b: int)
    ensures
        dec_signed(a) == dec_signed(b) ==> a == b,
{
    reveal_strlit("-");
    let m = if a < 0 {
        (-a) as nat
    } else {
        a as nat
    };
    let n = if b < 0 {
        (-b) as nat
    } else {
        b as nat
    };
    decimal_is_digits(m);
    decimal_is_digits(n);
    decimal_is_not_empty(m);
    decimal_is_not_empty(n);
    decimal_is_injective(m, n);
    if dec_signed(a) == dec_signed(b) {
        if a < 0 && b < 0 {
            assert(dec_signed(a).skip(1) =~= dec(m));
            assert(dec_signed(b).skip(1) =~= dec(n));
        } else {
            assert(dec_signed(a)[0] == dec_signed(b)[0]);
        }
    }
}

/// Texts with the same beginning and the same end agree in the middle.
pub proof fn middle_is_determined(a: Seq<char>, m: Seq<char>, n: Seq<char>, z: Seq<char>)
    ensures
        a + m + z == a + n + z ==> m == n,
{
    if a + m + z == a + n + z {
        assert((a + m + z).len() == (a + n + z).len());
        assert forall|i: int| 0 <= i < m.len() implies m[i] == n[i] by {
            assert((a + m + z)[a.len() + i] == m[i]);
            assert((a + n + z)[a.len() + i] == n[i]);
        }
        assert(m =~= n);
    }
}

// ---- Case, filtering, order -------------------------------------------------

/// A character with an ASCII capital letter made small.
pub open spec fn ascii_lower(c: char) -> char {
    if 65 <= c as u32 <= 90 {
        ((c as u32 + 32) as u8) as char
    } else {
        c
    }
}

/// A text with its ASCII capital letters made small.
pub open spec fn lower(s: Seq<char>) -> Seq<char> {
    Seq::new(s.len(), |i: int| ascii_lower(s[i]))
}

/// The text with its ASCII capital letters made small.
pub fn lowered(s: &str) -> (r: String)
    ensures
        r@ == lower(s@),
{
    let v = chars_of(s);
    let mut out = String::new();
    let mut i: usize = 0;
    while i < v.len()
        invariant
            v@ == s@,
            i <= v@.len(),
            out@ =~= lower(s@).take(i as int),
        decreases v@.len() - i,
    {
        let c = v[i];
        let n: u32 = c as u32;
        if n >= 65 && n <= 90 {
            out.push(((n + 32) as u8) as char);
        } else {
            out.push(c);
        }
        i = i + 1;
    }
    assert(out@ =~= lower(s@));
    out
}

/// The characters of a text that satisfy a predicate.
pub(crate) fn keep_chars<F: Fn(char) -> bool>(s: &str, keep: F, Ghost(p): Ghost<spec_fn(char) -> bool>) -> (r:
    String)
    requires
        forall|c: char| keep.requires((c,)),
        forall|c: char, b: bool| keep.ensures((c,), b) ==> b == p(c),
    ensures
        r@ == s@.filter(p),
{
    let v = chars_of(s);
    let mut out = String::new();
    let mut i: usize = 0;
    proof {
        reveal(Seq::filter);
        assert(s@.take(0).filter(p) =~= Seq::<char>::empty());
    }
    while i < v.len()
        invariant
            v@ == s@,
            i <= v@.len(),
            out@ == s@.take(i as int).filter(p),
            forall|c: char| keep.requires((c,)),
            forall|c: char, b: bool| keep.ensures((c,), b) ==> b == p(c),
        decreases v@.len() - i,
    {
        proof {
            crate::list::filter_step(s@, i as int, p);
        }
        let c = v[i];
        if keep(c) {
            out.push(c);
        }
        i = i + 1;
    }
    assert(s@.take(s@.len() as int) =~= s@);
    out
}

/// Whether a text comes before another in the order of code points.
pub open spec fn precedes(a: Seq<char>, b: Seq<char>) -> bool
    decreases a.len(),
{
    if b.len() == 0 {
        false
    } else if a.len() == 0 {
        true
    } else if a[0] != b[0] {
        (a[0] as u32) < (b[0] as u32)
    } else {
        precedes(a.skip(1), b.skip(1))
    }
}

/// Whether the first text comes before the second.
pub fn less(a: &str, b: &str) -> (r: bool)
    ensures
        r == precedes(a@, b@),
{
    let v = chars_of(a);
    let w = chars_of(b);
    let mut i: usize = 0;
    assert(v@.skip(0) =~= v@);
    assert(w@.skip(0) =~= w@);
    while i < v.len() && i < w.len() && v[i] == w[i]
        invariant
            v@ == a@,
            w@ == b@,
            i <= v@.len(),
            i <= w@.len(),
            precedes(a@, b@) == precedes(v@.skip(i as int), w@.skip(i as int)),
        decreases v@.len() - i,
    {
        assert(v@.skip(i as int).skip(1) =~= v@.skip(i + 1));
        assert(w@.skip(i as int).skip(1) =~= w@.skip(i + 1));
        i = i + 1;
    }
    if i >= w.len() {
        false
    } else if i >= v.len() {
        true
    } else {
        (v[i] as u32) < (w[i] as u32)
    }
}

/// The order is strict and total.
pub proof fn order_is_total(a: Seq<char>, b: Seq<char>)
    ensures
        !(precedes(a, b) && precedes(b, a)),
        a != b ==> precedes(a, b) || precedes(b, a),
        a == b ==> !precedes(a, b),
    decreases a.len(),
{
    if a.len() > 0 && b.len() > 0 {
        if a[0] == b[0] {
            order_is_total(a.skip(1), b.skip(1));
            if a.skip(1) == b.skip(1) {
                assert(a =~= seq![a[0]] + a.skip(1));
                assert(b =~= seq![b[0]] + b.skip(1));
            }
        } else {
            vstd::utf8::char_u32_cast(a[0], a[0] as u32);
            vstd::utf8::char_u32_cast(b[0], b[0] as u32);
        }
    } else if a.len() == 0 && b.len() == 0 {
        assert(a =~= b);
    }
}

/// The order is transitive.
pub proof fn order_is_transitive(a: Seq<char>, b: Seq<char>, c: Seq<char>)
    requires
        precedes(a, b),
        precedes(b, c),
    ensures
        precedes(a, c),
    decreases a.len(),
{
    if a.len() > 0 && a[0] == b[0] && b[0] == c[0] {
        order_is_transitive(a.skip(1), b.skip(1), c.skip(1));
    }
}

/// Whether a list of texts is in order, without repetitions.
pub open spec fn increasing(v: Seq<String>) -> bool {
    forall|i: int, j: int| 0 <= i < j < v.len() ==> precedes((#[trigger] v[i])@, (#[trigger] v[j])@)
}

/// Whether a text is in a list.
pub open spec fn listed(v: Seq<String>, x: Seq<char>) -> bool {
    exists|i: int| 0 <= i < v.len() && (#[trigger] v[i])@ == x
}

/// Put a text into an ordered list, unless it is there.
pub fn insert_ordered(v: &mut Vec<String>, x: String)
    requires
        increasing(old(v)@),
    ensures
        increasing(final(v)@),
        forall|y: Seq<char>| #[trigger] listed(final(v)@, y) <==> listed(old(v)@, y) || y == x@,
{
    let ghost before = v@;
    let mut i: usize = 0;
    while i < v.len() && less(v[i].as_str(), x.as_str())
        invariant
            v@ == before,
            i <= v@.len(),
            forall|j: int| 0 <= j < i ==> precedes((#[trigger] v@[j])@, x@),
        decreases v@.len() - i,
    {
        i = i + 1;
    }
    if i < v.len() && same(v[i].as_str(), x.as_str()) {
        assert(before[i as int]@ == x@);
        return;
    }
    proof {
        if i < v@.len() {
            order_is_total(v@[i as int]@, x@);
        }
        assert forall|j: int| i <= j < before.len() implies precedes(x@, (#[trigger] before[j])@) by {
            if j > i {
                order_is_transitive(x@, before[i as int]@, before[j]@);
            }
        }
    }
    let ghost t = x;
    v.insert(i, x);
    proof {
        let after = v@;
        assert(after =~= before.insert(i as int, t));
        assert forall|a: int, b: int| 0 <= a < b < after.len() implies precedes(
            (#[trigger] after[a])@,
            (#[trigger] after[b])@,
        ) by {
            let p = if a < i {
                a
            } else {
                a - 1
            };
            let q = if b < i {
                b
            } else {
                b - 1
            };
            if a == i {
                assert(after[b] == before[q]);
            } else if b == i {
                assert(after[a] == before[p]);
            } else {
                assert(after[a] == before[p] && after[b] == before[q]);
            }
        }
        assert forall|y: Seq<char>| #[trigger] listed(after, y) <==> listed(before, y) || y == t@ by {
            if listed(before, y) {
                let k = choose|k: int| 0 <= k < before.len() && (#[trigger] before[k])@ == y;
                assert(after[if k < i {
                    k
                } else {
                    k + 1
                }]@ == y);
            }
            if y == t@ {
                assert(after[i as int]@ == y);
            }
            if listed(after, y) {
                let k = choose|k: int| 0 <= k < after.len() && (#[trigger] after[k])@ == y;
                if k < i {
                    assert(before[k]@ == y);
                } else if k > i {
                    assert(before[k - 1]@ == y);
                }
            }
        }
    }
}

/// A number in decimal, with a sign where it is negative.
pub open spec fn dec_signed(n: int) -> Seq<char> {
    if n < 0 {
        "-"@ + dec((-n) as nat)
    } else {
        dec(n as nat)
    }
}

/// Append a signed number in decimal.
pub fn push_signed(s: &mut String, n: i64)
    ensures
        final(s)@ == old(s)@ + dec_signed(n as int),
{
    if n < 0 {
        s.append("-");
        let m: i128 = -(n as i128);
        push_decimal(s, m as u64);
        assert(old(s)@ + "-"@ + dec((-n) as nat) =~= old(s)@ + ("-"@ + dec((-n) as nat)));
    } else {
        push_decimal(s, n as u64);
    }
}

/// `String::from_utf8`: the text that bytes encode, exactly where they are
/// well-formed UTF-8.
#[verifier::external_body]
pub(crate) fn utf8_text(bytes: Vec<u8>) -> (r: Option<String>)
    ensures
        match r {
            Some(s) => vstd::utf8::valid_utf8(bytes@) && s@ == vstd::utf8::decode_utf8(bytes@),
            None => !vstd::utf8::valid_utf8(bytes@),
        },
{
    String::from_utf8(bytes).ok()
}

/// Texts as plain values.
pub open spec fn views(s: Seq<String>) -> Seq<Seq<char>> {
    Seq::new(s.len(), |i: int| s[i]@)
}

// ---- Splitting --------------------------------------------------------------

/// A character.
pub open spec fn char_is(c: char) -> spec_fn(char) -> bool {
    |x: char| x == c
}

/// The pieces of a text between the places where a character stands.
pub open spec fn split(s: Seq<char>, c: char) -> Seq<Seq<char>>
    decreases s.len(),
{
    let i = first(s, char_is(c));
    if 0 <= i < s.len() {
        seq![s.take(i)] + split(s.skip(i + 1), c)
    } else {
        seq![s]
    }
}

/// The pieces of a text between the places where a character stands.
pub fn split_at(s: &str, c: char) -> (r: Vec<String>)
    ensures
        views(r@) == split(s@, c),
{
    let v = chars_of(s);
    let mut out: Vec<String> = Vec::new();
    let mut from: usize = 0;
    assert(s@.skip(0) =~= s@);
    assert(views(out@) + split(s@, c) =~= split(s@, c));
    loop
        invariant_except_break
            v@ == s@,
            from <= v@.len(),
            views(out@) + split(s@.skip(from as int), c) == split(s@, c),
        ensures
            views(out@) == split(s@, c),
        decreases v@.len() - from,
    {
        let ghost rest = s@.skip(from as int);
        let ghost seen = views(out@);
        let mut to: usize = from;
        while to < v.len() && v[to] != c
            invariant
                v@ == s@,
                from <= to <= v@.len(),
                rest == s@.skip(from as int),
                forall|j: int| 0 <= j < to - from ==> !char_is(c)(#[trigger] rest[j]),
            decreases v@.len() - to,
        {
            assert(rest[to - from] == v@[to as int]);
            to = to + 1;
        }
        proof {
            if to < v@.len() {
                assert(rest[to - from] == v@[to as int]);
            }
            first_is_at(rest, char_is(c), to - from);
        }
        let piece = text_of(&v, from, to);
        let ghost p = piece@;
        assert(p =~= rest.take(to - from));
        out.push(piece);
        assert(views(out@) =~= seen.push(p));
        if to >= v.len() {
            assert(p =~= rest);
            assert(seen.push(p) =~= seen + seq![rest]);
            break;
        }
        from = to + 1;
        proof {
            let k = first(rest, char_is(c));
            assert(rest.skip(k + 1) =~= s@.skip(from as int));
            assert(seen.push(p) + split(s@.skip(from as int), c) =~= seen + (seq![p] + split(
                s@.skip(from as int),
                c,
            )));
        }
    }
    out
}

/// The position of a text in another: the first one, or -1.
pub open spec fn index_of(s: Seq<char>, n: Seq<char>) -> int {
    if occurs(s, n) {
        choose|i: int| stands_at(s, n, i) && forall|j: int| 0 <= j < i ==> !stands_at(s, n, j)
    } else {
        -1
    }
}

/// What stands before and after the first place where a text stands in another.
pub fn split_once(s: &str, n: &str) -> (r: Option<(String, String)>)
    ensures
        r is Some <==> occurs(s@, n@),
        r is Some ==> {
            let i = index_of(s@, n@);
            &&& 0 <= i <= s@.len() - n@.len()
            &&& (r->0).0@ == s@.take(i)
            &&& (r->0).1@ == s@.skip(i + n@.len())
        },
{
    let v = chars_of(s);
    let w = chars_of(n);
    match find(&v, &w) {
        Some(i) => {
            let a = text_of(&v, 0, i);
            let n_all: usize = v.len();
            let b = text_of(&v, i + w.len(), n_all);
            proof {
                assert(stands_at(s@, n@, i as int));
                let k = index_of(s@, n@);
                assert(stands_at(s@, n@, k) && forall|j: int| 0 <= j < k ==> !stands_at(s@, n@, j));
                assert(k == i);
                assert(a@ =~= s@.take(k));
                assert(b@ =~= s@.skip(k + n@.len()));
            }
            Some((a, b))
        },
        None => None,
    }
}

// ---- Reading numbers --------------------------------------------------------

/// Whether a character is a decimal digit.
pub open spec fn is_digit(c: char) -> bool {
    48 <= c as u32 <= 57
}

/// Whether a text is one or more decimal digits.
pub open spec fn all_digits(s: Seq<char>) -> bool {
    s.len() > 0 && forall|i: int| 0 <= i < s.len() ==> is_digit(#[trigger] s[i])
}

/// The number that decimal digits write.
pub open spec fn number(s: Seq<char>) -> nat
    decreases s.len(),
{
    if s.len() == 0 {
        0
    } else {
        (number(s.drop_last()) * 10 + (s.last() as u32 - 48)) as nat
    }
}

/// A text without a plus sign in front.
pub open spec fn unsigned_part(s: Seq<char>) -> Seq<char> {
    if s.len() > 0 && s[0] == '+' {
        s.skip(1)
    } else {
        s
    }
}

/// The number a text writes, with or without a plus sign, where it is at most
/// `max`.
pub open spec fn parsed_unsigned(s: Seq<char>, max: nat) -> Option<nat> {
    let d = unsigned_part(s);
    if all_digits(d) && number(d) <= max {
        Some(number(d))
    } else {
        None
    }
}

/// The number a text writes, with or without a sign, where it fits in 64 bits.
pub open spec fn parsed_signed(s: Seq<char>) -> Option<int> {
    if s.len() > 0 && s[0] == '-' {
        let d = s.skip(1);
        if all_digits(d) && number(d) <= 0x8000_0000_0000_0000 {
            Some(-(number(d) as int))
        } else {
            None
        }
    } else {
        match parsed_unsigned(s, 0x7fff_ffff_ffff_ffff) {
            Some(n) => Some(n as int),
            None => None,
        }
    }
}

/// The number that the digits from a position on write, where they are digits
/// and the number is at most `max`.
fn read_digits(v: &Vec<char>, from: usize, max: u64) -> (r: Option<u64>)
    requires
        from <= v@.len(),
    ensures
        ({
            let d = v@.skip(from as int);
            match r {
                Some(n) => all_digits(d) && number(d) == n && n <= max,
                None => !all_digits(d) || number(d) > max,
            }
        }),
{
    let ghost d = v@.skip(from as int);
    if from >= v.len() {
        return None;
    }
    let mut n: u64 = 0;
    let mut fits = true;
    let mut i: usize = from;
    assert(d.take(0) =~= Seq::<char>::empty());
    while i < v.len()
        invariant
            from <= i <= v@.len(),
            d == v@.skip(from as int),
            forall|j: int| 0 <= j < i - from ==> is_digit(#[trigger] d[j]),
            fits ==> n == number(d.take(i - from)) && n <= max,
            !fits ==> number(d.take(i - from)) > max,
        decreases v@.len() - i,
    {
        let c: u32 = v[i] as u32;
        assert(d[i - from] == v@[i as int]);
        if c < 48 || c > 57 {
            assert(!is_digit(d[i - from]));
            return None;
        }
        assert(d.take(i - from + 1).drop_last() =~= d.take(i - from));
        assert(d.take(i - from + 1).last() == v@[i as int]);
        if fits {
            let wide: u128 = (n as u128) * 10 + (c - 48) as u128;
            if wide > max as u128 {
                fits = false;
            } else {
                n = wide as u64;
            }
        }
        i = i + 1;
    }
    assert(d.take(i - from) =~= d);
    if fits {
        Some(n)
    } else {
        None
    }
}

/// Read an unsigned number of 32 bits.
pub fn parse_u32(s: &str) -> (r: Option<u32>)
    ensures
        match r {
            Some(n) => parsed_unsigned(s@, 0xffff_ffff) == Some(n as nat),
            None => parsed_unsigned(s@, 0xffff_ffff) is None,
        },
{
    let v = chars_of(s);
    let from: usize = if v.len() > 0 && v[0] == '+' {
        1
    } else {
        0
    };
    assert(v@.skip(0) =~= v@);
    match read_digits(&v, from, 0xffff_ffff) {
        Some(n) => Some(n as u32),
        None => None,
    }
}

/// Read a signed number of 64 bits.
pub fn parse_i64(s: &str) -> (r: Option<i64>)
    ensures
        match r {
            Some(n) => parsed_signed(s@) == Some(n as int),
            None => parsed_signed(s@) is None,
        },
{
    let v = chars_of(s);
    assert(v@.skip(0) =~= v@);
    if v.len() > 0 && v[0] == '-' {
        match read_digits(&v, 1, 0x8000_0000_0000_0000) {
            Some(n) => {
                let m: i128 = -(n as i128);
                Some(m as i64)
            },
            None => None,
        }
    } else {
        let from: usize = if v.len() > 0 && v[0] == '+' {
            1
        } else {
            0
        };
        match read_digits(&v, from, 0x7fff_ffff_ffff_ffff) {
            Some(n) => Some(n as i64),
            None => None,
        }
    }
}

// ---- Reading back -----------------------------------------------------------

/// A number is read back from how it is written.
pub proof fn numbers_are_read_back(n: nat, max: nat)
    requires
        n <= max,
    ensures
        parsed_unsigned(dec(n), max) == Some(n),
{
    decimal_is_digits(n);
    decimal_is_not_empty(n);
    decimal_means_its_number(n);
    let s = dec(n);
    assert(48 <= s[0] as u32 <= 57);
    assert(unsigned_part(s) == s);
}

/// The digits of a number mean that number.
proof fn decimal_means_its_number(n: nat)
    ensures
        all_digits(dec(n)),
        number(dec(n)) == n,
    decreases n,
{
    decimal_is_digits(n);
    decimal_is_not_empty(n);
    assert((48 + n % 10) as char as u32 == 48 + n % 10);
    let s = dec(n);
    if n >= 10 {
        decimal_means_its_number(n / 10);
        assert(s.drop_last() =~= dec(n / 10));
    } else {
        assert(s.drop_last() =~= Seq::<char>::empty());
    }
    assert(s.last() == digit(n % 10));
    assert(s.last() as u32 == 48 + n % 10);
    assert(number(s.drop_last()) == n / 10);
    assert(number(s) == (n / 10) * 10 + n % 10);
}

/// Trimming takes the white space at both ends and nothing else: what is left
/// stands in the text, neither begins nor ends with white space, and is not
/// trimmed further.
pub proof fn trimming_takes_the_ends(s: Seq<char>)
    ensures
        occurs(s, trim(s)),
        trim(s).len() > 0 ==> !is_white(trim(s)[0]) && !is_white(trim(s).last()),
        trim(trim(s)) == trim(s),
        s.len() > 0 && !is_white(s[0]) && !is_white(s.last()) ==> trim(s) == s,
{
    let t = trim_start(s);
    let a = start_is_cut(s);
    let b = end_is_cut(t);
    let r = trim(s);
    assert(s.subrange(a, a + r.len()) =~= r) by {
        assert(t =~= s.skip(a));
        assert(r =~= t.take(b));
    }
    assert(stands_at(s, r, a));
    if r.len() > 0 {
        assert(r[0] == t[0]);
    }
}

/// Where the text begins after its leading white space.
proof fn start_is_cut(s: Seq<char>) -> (a: int)
    ensures
        0 <= a <= s.len(),
        trim_start(s) == s.skip(a),
        trim_start(s).len() > 0 ==> !is_white(trim_start(s)[0]),
    decreases s.len(),
{
    if s.len() > 0 && is_white(s[0]) {
        let b = start_is_cut(s.skip(1));
        assert(s.skip(1).skip(b) =~= s.skip(b + 1));
        b + 1
    } else {
        assert(s.skip(0) =~= s);
        0
    }
}

/// Where the text ends before its trailing white space.
proof fn end_is_cut(s: Seq<char>) -> (b: int)
    ensures
        0 <= b <= s.len(),
        trim_end(s) == s.take(b),
        trim_end(s).len() > 0 ==> !is_white(trim_end(s).last()),
    decreases s.len(),
{
    if s.len() > 0 && is_white(s.last()) {
        let b = end_is_cut(s.drop_last());
        assert(s.drop_last().take(b) =~= s.take(b));
        b
    } else {
        assert(s.take(s.len() as int) =~= s);
        s.len() as int
    }
}

/// Splitting cuts at every place where the character stands: a text that begins
/// with a piece without it and then the character gives that piece, then the
/// pieces of the rest; a text without it is one piece.
pub proof fn splitting_cuts_everywhere(piece: Seq<char>, rest: Seq<char>, c: char)
    requires
        !piece.contains(c),
    ensures
        split(piece, c) == seq![piece],
        split(piece + seq![c] + rest, c) == seq![piece] + split(rest, c),
{
    let p = char_is(c);
    let s = piece + seq![c] + rest;
    let n = piece.len() as int;
    assert forall|j: int| 0 <= j < n implies !p(#[trigger] piece[j]) by {
        assert(piece.contains(piece[j]));
    }
    first_is_at(piece, p, n);
    assert forall|j: int| 0 <= j < n implies !p(#[trigger] s[j]) by {
        assert(s[j] == piece[j]);
    }
    assert(s[n] == c);
    first_is_at(s, p, n);
    assert(s.take(n) =~= piece);
    assert(s.skip(n + 1) =~= rest);
}

/// Small letters stay, capitals become small, and nothing else changes.
pub proof fn lowering_changes_capitals(c: char)
    ensures
        !('A' <= c <= 'Z') ==> ascii_lower(c) == c,
        'A' <= c <= 'Z' ==> 'a' <= ascii_lower(c) <= 'z' && ascii_lower(c) as u32 == c as u32 + 32,
        ascii_lower(ascii_lower(c)) == ascii_lower(c),
{
}

/// A text comes before its own continuations, and texts compare by their first
/// difference.
pub proof fn texts_compare_by_their_first_difference(a: Seq<char>, x: char, y: char, b: Seq<char>, c: Seq<char>)
    requires
        (x as u32) < (y as u32),
    ensures
        precedes(a, a + seq![x]),
        precedes(a + seq![x] + b, a + seq![y] + c),
        !precedes(a + seq![y] + c, a + seq![x] + b),
    decreases a.len(),
{
    let p = a + seq![x] + b;
    let q = a + seq![y] + c;
    let r = a + seq![x];
    if a.len() > 0 {
        let t = a.skip(1);
        texts_compare_by_their_first_difference(t, x, y, b, c);
        assert(p.skip(1) =~= t + seq![x] + b);
        assert(q.skip(1) =~= t + seq![y] + c);
        assert(r.skip(1) =~= t + seq![x]);
        assert(p[0] == a[0] && q[0] == a[0] && r[0] == a[0]);
    } else {
        assert(p[0] == x && q[0] == y && r[0] == x);
    }
}

/// A text is found where it stands: between what comes before and what comes
/// after, and nowhere else.
pub proof fn texts_are_found_where_they_stand(a: Seq<char>, n: Seq<char>, b: Seq<char>)
    ensures
        occurs(a + n + b, n),
        begins(n + b, n),
        ends(a + n, n),
        occurs(a, n) <==> exists|i: int|
            0 <= i <= a.len() - n.len() && #[trigger] a.subrange(i, i + n.len()) == n,
        begins(a, n) <==> n.len() <= a.len() && a.take(n.len() as int) == n,
        ends(a, n) <==> n.len() <= a.len() && a.skip(a.len() - n.len()) == n,
{
    let s = a + n + b;
    assert(s.subrange(a.len() as int, (a.len() + n.len()) as int) =~= n);
    assert(stands_at(s, n, a.len() as int));
    assert((n + b).subrange(0, n.len() as int) =~= n);
    assert((a + n).subrange(a.len() as int, (a.len() + n.len()) as int) =~= n);
    if occurs(a, n) {
        let i = choose|i: int| stands_at(a, n, i);
        assert(a.subrange(i, i + n.len()) == n);
    }
    if exists|i: int| 0 <= i <= a.len() - n.len() && #[trigger] a.subrange(i, i + n.len()) == n {
        let i = choose|i: int| 0 <= i <= a.len() - n.len() && #[trigger] a.subrange(i, i + n.len()) == n;
        assert(stands_at(a, n, i));
    }
    if n.len() <= a.len() {
        assert(a.take(n.len() as int) =~= a.subrange(0, n.len() as int));
        assert(a.skip(a.len() - n.len()) =~= a.subrange(a.len() - n.len(), a.len() as int));
    }
}

/// A number with a sign is read back from how it is written.
pub proof fn signed_numbers_are_read_back(n: int)
    requires
        -0x8000_0000_0000_0000 <= n <= 0x7fff_ffff_ffff_ffff,
    ensures
        parsed_signed(dec_signed(n)) == Some(n),
{
    reveal_strlit("-");
    if n < 0 {
        let s = dec_signed(n);
        assert(s[0] == '-');
        assert(s.skip(1) =~= dec((-n) as nat));
        decimal_means_its_number((-n) as nat);
    } else {
        decimal_is_digits(n as nat);
        decimal_is_not_empty(n as nat);
        assert(48 <= dec(n as nat)[0] as u32 <= 57);
        numbers_are_read_back(n as nat, 0x7fff_ffff_ffff_ffff);
    }
}

/// A text is read as a number only where it has digits and nothing but digits,
/// behind a sign at most, and what it writes is in range.
pub proof fn other_texts_are_no_numbers(s: Seq<char>, max: nat, i: int)
    requires
        0 <= i < s.len(),
        !(48 <= s[i] as u32 <= 57),
    ensures
        i > 0 ==> parsed_unsigned(s, max) is None,
        s[i] != '+' ==> parsed_unsigned(s, max) is None,
        i > 0 ==> parsed_signed(s) is None,
        s[i] != '+' && s[i] != '-' ==> parsed_signed(s) is None,
        parsed_unsigned(Seq::empty(), max) is None,
        parsed_unsigned(s, max) is Some ==> parsed_unsigned(s, max)->0 <= max,
{
    if i > 0 {
        assert(s.skip(1)[i - 1] == s[i]);
    }
    assert(!is_digit(s[i]));
}

/// A text is split at a separator as its two sides are.
pub proof fn splitting_joins_up(a: Seq<char>, b: Seq<char>, c: char)
    ensures
        split(a + seq![c] + b, c) == split(a, c) + split(b, c),
    decreases a.len(),
{
    let p = char_is(c);
    let i = first(a, p);
    crate::list::first_is_least(a, p);
    if i < a.len() {
        let x = a.take(i);
        let y = a.skip(i + 1);
        assert(!x.contains(c)) by {
            if x.contains(c) {
                let j = choose|j: int| 0 <= j < x.len() && x[j] == c;
                assert(!p(a[j]));
            }
        }
        assert(p(a[i]));
        assert(a =~= x + seq![c] + y);
        assert(a + seq![c] + b =~= x + seq![c] + (y + seq![c] + b));
        splitting_cuts_everywhere(x, y, c);
        splitting_cuts_everywhere(x, y + seq![c] + b, c);
        splitting_joins_up(y, b, c);
        assert(seq![x] + (split(y, c) + split(b, c)) =~= seq![x] + split(y, c) + split(b, c));
    } else {
        assert(!a.contains(c)) by {
            if a.contains(c) {
                let j = choose|j: int| 0 <= j < a.len() && a[j] == c;
                assert(!p(a[j]));
            }
        }
        splitting_cuts_everywhere(a, b, c);
    }
}

/// There is always a piece.
pub proof fn splits_into_something(s: Seq<char>, c: char)
    ensures
        split(s, c).len() > 0,
{
}

} // verus!
