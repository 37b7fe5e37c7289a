//! Text building blocks: decimal numerals and JSON string literals, in the
//! exact form that the serializer of the wire format writes them.

use vstd::prelude::*;

verus! {

/// The character of a decimal digit.
pub open spec fn digit_char(d: int) -> char {
    (48 + d) as char
}

/// The decimal numeral of a natural number, without sign or leading zeros.
pub open spec fn decimal(n: nat) -> Seq<char>
    decreases n,
{
    if n < 10 {
        seq![digit_char(n as int)]
    } else {
        decimal(n / 10).push(digit_char((n % 10) as int))
    }
}

/// The decimal numeral of an integer, with a leading `-` for negative values.
pub open spec fn signed_decimal(n: int) -> Seq<char> {
    if n < 0 {
        seq!['-'] + decimal((-n) as nat)
    } else {
        decimal(n as nat)
    }
}

/// Appends one character to a `String` (`String::push`).
///
/// Trusted: the string afterwards is the string before with `c` at its end,
/// as `String::push` is documented to do.
#[verifier::external_body]
pub(crate) fn push_char(s: &mut String, c: char)
    ensures
        final(s)@ == old(s)@.push(c),
{
    s.push(c);
}

fn digit(d: u64) -> (c: char)
    requires
        d < 10,
    ensures
        c == digit_char(d as int),
{
    let b: u8 = 48u8 + (d as u8);
    b as char
}

/// Appends the decimal numeral of `n` to `out`.
pub fn push_decimal(out: &mut String, n: u64)
    ensures
        final(out)@ == old(out)@ + decimal(n as nat),
    decreases n,
{
    if n >= 10 {
        push_decimal(out, n / 10);
    }
    push_char(out, digit(n % 10));
}

/// Appends the decimal numeral of `n`, with a `-` when negative.
pub fn push_signed_decimal(out: &mut String, n: i64)
    ensures
        final(out)@ == old(out)@ + signed_decimal(n as int),
{
    if n < 0 {
        push_char(out, '-');
        let magnitude: u64 = (0i128 - (n as i128)) as u64;
        push_decimal(out, magnitude);
        assert(old(out)@ + signed_decimal(n as int) =~= old(out)@.push('-') + decimal(magnitude as nat));
    } else {
        push_decimal(out, n as u64);
    }
}


/// The character of a lowercase hexadecimal digit.
pub open spec fn hex_char(d: int) -> char {
    if d < 10 {
        (48 + d) as char
    } else {
        (87 + d) as char
    }
}

/// How the serializer writes one character inside a JSON string literal:
/// quote, backslash and the control characters are escaped, all else is kept.
pub open spec fn json_char(c: char) -> Seq<char> {
    if c == '"' {
        seq!['\\', '"']
    } else if c == '\\' {
        seq!['\\', '\\']
    } else if c == '\u{8}' {
        seq!['\\', 'b']
    } else if c == '\u{c}' {
        seq!['\\', 'f']
    } else if c == '\n' {
        seq!['\\', 'n']
    } else if c == '\r' {
        seq!['\\', 'r']
    } else if c == '\t' {
        seq!['\\', 't']
    } else if (c as u32) < 0x20 {
        seq!['\\', 'u', '0', '0', hex_char(((c as u32) / 16) as int), hex_char(((c as u32) % 16) as int)]
    } else {
        seq![c]
    }
}

/// The escaped contents of a JSON string literal.
pub open spec fn json_escape(s: Seq<char>) -> Seq<char>
    decreases s.len(),
{
    if s.len() == 0 {
        seq![]
    } else {
        json_escape(s.drop_last()) + json_char(s.last())
    }
}

/// A complete JSON string literal, quotes included.
pub open spec fn json_string(s: Seq<char>) -> Seq<char> {
    seq!['"'] + json_escape(s) + seq!['"']
}

/// One member of a compact JSON object: the name as a string literal, a colon,
/// and the value's JSON text.
pub open spec fn json_member(name: Seq<char>, value: Seq<char>) -> Seq<char> {
    json_string(name) + seq![':'] + value
}

/// Members separated by commas, in order.
pub open spec fn json_members(members: Seq<(Seq<char>, Seq<char>)>) -> Seq<char>
    decreases members.len(),
{
    if members.len() == 0 {
        Seq::empty()
    } else if members.len() == 1 {
        json_member(members[0].0, members[0].1)
    } else {
        json_member(members[0].0, members[0].1) + seq![','] + json_members(members.drop_first())
    }
}

/// The compact JSON object with these members (name, value text), in order.
pub open spec fn json_object(members: Seq<(Seq<char>, Seq<char>)>) -> Seq<char> {
    seq!['{'] + json_members(members) + seq!['}']
}

/// Members read from the front: the first member, a comma, then the rest.
pub proof fn lemma_json_members_cons(m: (Seq<char>, Seq<char>), rest: Seq<(Seq<char>, Seq<char>)>)
    requires
        rest.len() > 0,
    ensures
        json_members(seq![m] + rest) == json_member(m.0, m.1) + seq![','] + json_members(rest),
{
    assert((seq![m] + rest).drop_first() =~= rest);
    assert((seq![m] + rest)[0] == m);
}

/// A text that needs no escaping is its own escaped form.
pub proof fn lemma_json_escape_plain(s: Seq<char>)
    requires
        forall|i: int| 0 <= i < s.len() ==> json_char(#[trigger] s[i]) == seq![s[i]],
    ensures
        json_escape(s) == s,
    decreases s.len(),
{
    if s.len() > 0 {
        lemma_json_escape_plain(s.drop_last());
        assert(json_char(s[s.len() - 1]) == seq![s[s.len() - 1]]);
        assert(json_escape(s) =~= s);
    }
}

/// A name of printable characters other than quote and backslash (all from
/// `0` upwards) is written between quotes as it is.
pub proof fn lemma_json_string_plain(s: Seq<char>)
    requires
        forall|i: int| 0 <= i < s.len() ==> (#[trigger] s[i] as u32) >= 0x30 && s[i] != '\\',
    ensures
        json_string(s) == seq!['"'] + s + seq!['"'],
{
    assert forall|i: int| 0 <= i < s.len() implies json_char(#[trigger] s[i]) == seq![s[i]] by {
        assert((s[i] as u32) >= 0x30);
    }
    lemma_json_escape_plain(s);
}

fn push_json_char(out: &mut String, c: char)
    ensures
        final(out)@ == old(out)@ + json_char(c),
{
    let code: u32 = c as u32;
    if c == '"' {
        push_char(out, '\\');
        push_char(out, '"');
    } else if c == '\\' {
        push_char(out, '\\');
        push_char(out, '\\');
    } else if c == '\u{8}' {
        push_char(out, '\\');
        push_char(out, 'b');
    } else if c == '\u{c}' {
        push_char(out, '\\');
        push_char(out, 'f');
    } else if c == '\n' {
        push_char(out, '\\');
        push_char(out, 'n');
    } else if c == '\r' {
        push_char(out, '\\');
        push_char(out, 'r');
    } else if c == '\t' {
        push_char(out, '\\');
        push_char(out, 't');
    } else if code < 0x20 {
        push_char(out, '\\');
        push_char(out, 'u');
        push_char(out, '0');
        push_char(out, '0');
        let hi: u8 = (code / 16) as u8;
        let lo: u8 = (code % 16) as u8;
        let hi_c: char = (48u8 + hi) as char;
        let lo_c: char = if lo < 10 { (48u8 + lo) as char } else { (87u8 + lo) as char };
        push_char(out, hi_c);
        push_char(out, lo_c);
    } else {
        push_char(out, c);
    }
    assert(final(out)@ =~= old(out)@ + json_char(c));
}

/// Appends `s` as a JSON string literal, quotes included.
pub fn push_json_string(out: &mut String, s: &str)
    ensures
        final(out)@ == old(out)@ + json_string(s@),
{
    let ghost start = out@;
    push_char(out, '"');
    for c in it: s.chars()
        invariant
            it.seq() == s@,
            out@ == start.push('"') + json_escape(s@.take(it.index())),
    {
        proof {
            assert(s@.take(it.index() + 1).drop_last() =~= s@.take(it.index()));
        }
        push_json_char(out, c);
    }
    assert(s@.take(s@.len() as int) =~= s@);
    push_char(out, '"');
    assert(final(out)@ =~= old(out)@ + json_string(s@));
}


// ── Unambiguous reading ────────────────────────────────────────────────

/// A common prefix can be taken off both sides of an equation.
pub proof fn lemma_strip_prefix(p: Seq<char>, x: Seq<char>, y: Seq<char>)
    requires
        p + x == p + y,
    ensures
        x == y,
{
    assert(x =~= (p + x).skip(p.len() as int));
    assert(y =~= (p + y).skip(p.len() as int));
}

/// Escaping distributes over concatenation.
pub proof fn lemma_json_escape_concat(a: Seq<char>, b: Seq<char>)
    ensures
        json_escape(a + b) == json_escape(a) + json_escape(b),
    decreases b.len(),
{
    if b.len() == 0 {
        assert(a + b =~= a);
        assert(json_escape(a) + json_escape(b) =~= json_escape(a));
    } else {
        lemma_json_escape_concat(a, b.drop_last());
        assert((a + b).drop_last() =~= a + b.drop_last());
        assert((a + b).last() == b.last());
        assert(json_escape(a + b) =~= json_escape(a) + json_escape(b));
    }
}

/// Escaping read from the front: the first character's escape, then the rest.
pub proof fn lemma_json_escape_first(s: Seq<char>)
    requires
        s.len() > 0,
    ensures
        json_escape(s) == json_char(s[0]) + json_escape(s.drop_first()),
{
    let head = seq![s[0]];
    lemma_json_escape_concat(head, s.drop_first());
    assert(head + s.drop_first() =~= s);
    assert(head.drop_last() =~= Seq::<char>::empty());
    assert(json_escape(head.drop_last()) =~= Seq::<char>::empty());
    assert(head.last() == s[0]);
    assert(json_escape(head) =~= json_char(s[0]));
}

proof fn lemma_hex_char_injective(a: int, b: int)
    requires
        0 <= a < 16,
        0 <= b < 16,
        hex_char(a) == hex_char(b),
    ensures
        a == b,
{
}

/// No escape begins with a quote, and an escape that does not begin with a
/// backslash is the character itself.
pub proof fn lemma_json_char_shape(c: char)
    ensures
        json_char(c).len() >= 1,
        json_char(c)[0] != '"',
        json_char(c)[0] != '\\' ==> json_char(c) == seq![c],
        json_char(c)[0] == '\\' ==> json_char(c).len() >= 2,
{
}

/// The escape of a character determines it, and no escape is a proper prefix
/// of another: `json_char(x) + t1 == json_char(y) + t2` forces `x == y`, `t1 == t2`.
pub proof fn lemma_json_char_unique(x: char, y: char, t1: Seq<char>, t2: Seq<char>)
    requires
        json_char(x) + t1 == json_char(y) + t2,
    ensures
        x == y,
        t1 == t2,
{
    let jx = json_char(x);
    let jy = json_char(y);
    let s = jx + t1;
    lemma_json_char_shape(x);
    lemma_json_char_shape(y);
    assert(s[0] == jx[0]);
    assert(s[0] == jy[0]);
    if jx[0] != '\\' {
        assert(jx == seq![x]);
        assert(jy == seq![y]);
    } else {
        assert(s[1] == jx[1]);
        assert(s[1] == jy[1]);
        if jx[1] == 'u' {
            assert(jx.len() == 6 && jy.len() == 6);
            assert(s[4] == jx[4] && s[4] == jy[4]);
            assert(s[5] == jx[5] && s[5] == jy[5]);
            let cx = x as u32;
            let cy = y as u32;
            lemma_hex_char_injective((cx / 16) as int, (cy / 16) as int);
            lemma_hex_char_injective((cx % 16) as int, (cy % 16) as int);
            assert(cx == cy);
            vstd::utf8::char_u32_cast(x, cx);
            vstd::utf8::char_u32_cast(y, cy);
        } else {
            assert(jx.len() == 2 && jy.len() == 2);
        }
    }
    assert(jx == jy);
    assert(t1 =~= s.skip(jx.len() as int));
    assert(t2 =~= (jy + t2).skip(jy.len() as int));
}

/// Escaped contents followed by the closing quote can be read only one way:
/// the contents and what follows the quote are both determined.
pub proof fn lemma_json_escape_unique(a: Seq<char>, b: Seq<char>, r1: Seq<char>, r2: Seq<char>)
    requires
        json_escape(a) + seq!['"'] + r1 == json_escape(b) + seq!['"'] + r2,
    ensures
        a == b,
        r1 == r2,
    decreases a.len(),
{
    let q = seq!['"'];
    if a.len() == 0 {
        assert(json_escape(a) =~= Seq::<char>::empty());
        if b.len() > 0 {
            lemma_json_escape_first(b);
            lemma_json_char_shape(b[0]);
            assert((json_escape(a) + q + r1)[0] == '"');
            assert((json_escape(b) + q + r2)[0] == json_char(b[0])[0]);
        }
        assert(b.len() == 0);
        assert(json_escape(b) =~= Seq::<char>::empty());
        assert(r1 =~= (json_escape(a) + q + r1).skip(1));
        assert(r2 =~= (json_escape(b) + q + r2).skip(1));
    } else if b.len() == 0 {
        lemma_json_escape_first(a);
        lemma_json_char_shape(a[0]);
        assert(json_escape(b) =~= Seq::<char>::empty());
        assert((json_escape(a) + q + r1)[0] == json_char(a[0])[0]);
        assert((json_escape(b) + q + r2)[0] == '"');
    } else {
        lemma_json_escape_first(a);
        lemma_json_escape_first(b);
        let ta = json_escape(a.drop_first()) + q + r1;
        let tb = json_escape(b.drop_first()) + q + r2;
        assert(json_char(a[0]) + ta =~= json_escape(a) + q + r1);
        assert(json_char(b[0]) + tb =~= json_escape(b) + q + r2);
        lemma_json_char_unique(a[0], b[0], ta, tb);
        lemma_json_escape_unique(a.drop_first(), b.drop_first(), r1, r2);
        assert(a =~= seq![a[0]] + a.drop_first());
        assert(b =~= seq![b[0]] + b.drop_first());
    }
}

/// A JSON string literal followed by anything can be read only one way.
pub proof fn lemma_json_string_unique(a: Seq<char>, b: Seq<char>, r1: Seq<char>, r2: Seq<char>)
    requires
        json_string(a) + r1 == json_string(b) + r2,
    ensures
        a == b,
        r1 == r2,
{
    let q = seq!['"'];
    let x = json_escape(a) + q + r1;
    let y = json_escape(b) + q + r2;
    assert(json_string(a) + r1 =~= q + x);
    assert(json_string(b) + r2 =~= q + y);
    assert(x =~= (q + x).skip(1));
    assert(y =~= (q + y).skip(1));
    lemma_json_escape_unique(a, b, r1, r2);
}

/// A decimal digit character.
pub open spec fn is_digit(c: char) -> bool {
    '0' <= c && c <= '9'
}

/// The number a string of decimal digits denotes.
pub open spec fn digits_value(s: Seq<char>) -> int
    decreases s.len(),
{
    if s.len() == 0 {
        0
    } else {
        digits_value(s.drop_last()) * 10 + (s.last() as int - 48)
    }
}

/// A numeral consists of digits and denotes its number.
pub proof fn lemma_decimal_digits(n: nat)
    ensures
        decimal(n).len() >= 1,
        forall|i: int| 0 <= i < decimal(n).len() ==> is_digit(#[trigger] decimal(n)[i]),
        digits_value(decimal(n)) == n,
    decreases n,
{
    let k = (n % 10) as int;
    assert(digit_char(k) as int == 48 + k);
    if n >= 10 {
        lemma_decimal_digits(n / 10);
        let d = decimal(n);
        assert(d.drop_last() =~= decimal(n / 10));
        assert(d.last() == digit_char(k));
        assert(digits_value(d) == digits_value(decimal(n / 10)) * 10 + k);
        assert((n / 10) * 10 + k == n);
    } else {
        let d = decimal(n);
        assert(d.drop_last() =~= Seq::<char>::empty());
        assert(digits_value(d.drop_last()) == 0);
        assert(d.last() == digit_char(n as int));
        assert(k == n);
    }
}

/// A numeral followed by a non-digit can be read only one way.
pub proof fn lemma_decimal_unique(n: nat, m: nat, r1: Seq<char>, r2: Seq<char>)
    requires
        decimal(n) + r1 == decimal(m) + r2,
        r1.len() > 0 && !is_digit(r1[0]),
        r2.len() > 0 && !is_digit(r2[0]),
    ensures
        n == m,
        r1 == r2,
{
    lemma_decimal_digits(n);
    lemma_decimal_digits(m);
    let dn = decimal(n);
    let dm = decimal(m);
    let s = dn + r1;
    if dn.len() < dm.len() {
        assert(s[dn.len() as int] == r1[0]);
        assert(s[dn.len() as int] == dm[dn.len() as int]);
    } else if dm.len() < dn.len() {
        assert(s[dm.len() as int] == dn[dm.len() as int]);
        assert((dm + r2)[dm.len() as int] == r2[0]);
    }
    assert(dn.len() == dm.len());
    assert(dn =~= s.take(dn.len() as int));
    assert(dm =~= (dm + r2).take(dm.len() as int));
    assert(r1 =~= s.skip(dn.len() as int));
    assert(r2 =~= (dm + r2).skip(dm.len() as int));
}

/// A signed numeral followed by a non-digit can be read only one way.
pub proof fn lemma_signed_decimal_unique(n: int, m: int, r1: Seq<char>, r2: Seq<char>)
    requires
        signed_decimal(n) + r1 == signed_decimal(m) + r2,
        r1.len() > 0 && !is_digit(r1[0]),
        r2.len() > 0 && !is_digit(r2[0]),
    ensures
        n == m,
        r1 == r2,
{
    let minus = seq!['-'];
    let s = signed_decimal(n) + r1;
    if n < 0 {
        lemma_decimal_digits((-n) as nat);
    } else {
        lemma_decimal_digits(n as nat);
    }
    if m < 0 {
        lemma_decimal_digits((-m) as nat);
    } else {
        lemma_decimal_digits(m as nat);
    }
    assert(s[0] == signed_decimal(n)[0]);
    assert(s[0] == signed_decimal(m)[0]);
    if n < 0 {
        assert(signed_decimal(n)[0] == '-');
    } else {
        assert(is_digit(decimal(n as nat)[0]));
    }
    if m < 0 {
        assert(signed_decimal(m)[0] == '-');
    } else {
        assert(is_digit(decimal(m as nat)[0]));
    }
    if n < 0 {
        assert(m < 0);
        let x = decimal((-n) as nat) + r1;
        let y = decimal((-m) as nat) + r2;
        assert(signed_decimal(n) + r1 =~= minus + x);
        assert(signed_decimal(m) + r2 =~= minus + y);
        assert(x =~= (minus + x).skip(1));
        assert(y =~= (minus + y).skip(1));
        lemma_decimal_unique((-n) as nat, (-m) as nat, r1, r2);
    } else {
        assert(m >= 0);
        lemma_decimal_unique(n as nat, m as nat, r1, r2);
    }
}

} // verus!
