//! Rendering of numbers, strings and lists as text, in the notation that
//! compiler messages and generated names use.
use vstd::prelude::*;

verus! {

/// The decimal digit `d` (for `d < 10`) as a character.
pub open spec fn digit_char(d: nat) -> char {
    if d == 0 { '0' }
    else if d == 1 { '1' }
    else if d == 2 { '2' }
    else if d == 3 { '3' }
    else if d == 4 { '4' }
    else if d == 5 { '5' }
    else if d == 6 { '6' }
    else if d == 7 { '7' }
    else if d == 8 { '8' }
    else { '9' }
}

/// The decimal notation of `n`, without leading zeros.
pub open spec fn decimal(n: nat) -> Seq<char>
    decreases n,
{
    if n < 10 {
        seq![digit_char(n)]
    } else {
        decimal(n / 10).push(digit_char(n % 10))
    }
}

proof fn lemma_decimal_len(n: nat)
    ensures
        decimal(n).len() >= 1,
        n >= 10 ==> decimal(n).len() >= 2,
    decreases n,
{
    if n >= 10 {
        lemma_decimal_len(n / 10);
    }
}

/// Different numbers have different decimal notations.
pub proof fn lemma_decimal_injective(n: nat, m: nat)
    requires
        decimal(n) == decimal(m),
    ensures
        n == m,
    decreases n,
{
    lemma_decimal_len(n);
    lemma_decimal_len(m);
    if n >= 10 && m >= 10 {
        let dn = decimal(n);
        assert(dn.drop_last() == decimal(n / 10));
        assert(decimal(m).drop_last() == decimal(m / 10));
        assert(dn.last() == digit_char(n % 10));
        assert(decimal(m).last() == digit_char(m % 10));
        lemma_decimal_injective(n / 10, m / 10);
        lemma_digit_char_injective(n % 10, m % 10);
        assert(n == (n / 10) * 10 + n % 10);
        assert(m == (m / 10) * 10 + m % 10);
    } else if n < 10 && m < 10 {
        assert(decimal(n)[0] == digit_char(n));
        assert(decimal(m)[0] == digit_char(m));
        lemma_digit_char_injective(n, m);
    }
}

proof fn lemma_digit_char_injective(a: nat, b: nat)
    requires
        a < 10,
        b < 10,
        digit_char(a) == digit_char(b),
    ensures
        a == b,
{
}

/// Different numbers behind the same prefix and before the same suffix
/// give different names.
pub proof fn lemma_numbered_names_differ(prefix: Seq<char>, suffix: Seq<char>, n: nat, m: nat)
    requires
        n != m,
    ensures
        prefix + decimal(n) + suffix != prefix + decimal(m) + suffix,
{
    if prefix + decimal(n) + suffix == prefix + decimal(m) + suffix {
        let a = prefix + decimal(n) + suffix;
        let b = prefix + decimal(m) + suffix;
        assert(a.len() == prefix.len() + decimal(n).len() + suffix.len());
        assert(b.len() == prefix.len() + decimal(m).len() + suffix.len());
        assert(a.subrange(prefix.len() as int, (prefix.len() + decimal(n).len()) as int) =~= decimal(n));
        assert(b.subrange(prefix.len() as int, (prefix.len() + decimal(m).len()) as int) =~= decimal(m));
        lemma_decimal_injective(n, m);
    }
}

fn digit_str(d: usize) -> (s: &'static str)
    requires
        d < 10,
    ensures
        s@ == seq![digit_char(d as nat)],
{
    proof {
        reveal_strlit("0");
        reveal_strlit("1");
        reveal_strlit("2");
        reveal_strlit("3");
        reveal_strlit("4");
        reveal_strlit("5");
        reveal_strlit("6");
        reveal_strlit("7");
        reveal_strlit("8");
        reveal_strlit("9");
    }
    if d == 0 { "0" }
    else if d == 1 { "1" }
    else if d == 2 { "2" }
    else if d == 3 { "3" }
    else if d == 4 { "4" }
    else if d == 5 { "5" }
    else if d == 6 { "6" }
    else if d == 7 { "7" }
    else if d == 8 { "8" }
    else { "9" }
}

/// Appends the decimal notation of `n` to `out`.
pub fn push_decimal(out: &mut String, n: usize)
    ensures
        final(out)@ == old(out)@ + decimal(n as nat),
    decreases n,
{
    if n < 10 {
        out.append(digit_str(n));
    } else {
        push_decimal(out, n / 10);
        out.append(digit_str(n % 10));
    }
}


/// The hexadecimal digit `d` (for `d < 16`), in lower case.
pub open spec fn hex_digit_char(d: nat) -> char {
    if d < 10 { digit_char(d) }
    else if d == 10 { 'a' }
    else if d == 11 { 'b' }
    else if d == 12 { 'c' }
    else if d == 13 { 'd' }
    else if d == 14 { 'e' }
    else { 'f' }
}

/// The lower-case hexadecimal notation of `n`, without leading zeros.
pub open spec fn hexadecimal(n: nat) -> Seq<char>
    decreases n,
{
    if n < 16 {
        seq![hex_digit_char(n)]
    } else {
        hexadecimal(n / 16).push(hex_digit_char(n % 16))
    }
}

fn hex_digit_str(d: u32) -> (s: &'static str)
    requires
        d < 16,
    ensures
        s@ == seq![hex_digit_char(d as nat)],
{
    proof {
        reveal_strlit("a");
        reveal_strlit("b");
        reveal_strlit("c");
        reveal_strlit("d");
        reveal_strlit("e");
        reveal_strlit("f");
    }
    if d < 10 {
        digit_str(d as usize)
    } else if d == 10 { "a" }
    else if d == 11 { "b" }
    else if d == 12 { "c" }
    else if d == 13 { "d" }
    else if d == 14 { "e" }
    else { "f" }
}

fn push_hexadecimal(out: &mut String, n: u32)
    ensures
        final(out)@ == old(out)@ + hexadecimal(n as nat),
    decreases n,
{
    if n < 16 {
        out.append(hex_digit_str(n));
    } else {
        push_hexadecimal(out, n / 16);
        out.append(hex_digit_str(n % 16));
    }
}

/// How one character is written inside a double-quoted string literal:
/// the backslash escapes for NUL, tab, carriage return, line feed, backslash
/// and double quote, `\u{..}` for the other ASCII control characters, what
/// `char::escape_debug` writes for a character beyond ASCII, and the
/// character itself otherwise.
pub open spec fn escaped_char(c: char) -> Seq<char> {
    if c == '\0' {
        seq!['\\', '0']
    } else if c == '\t' {
        seq!['\\', 't']
    } else if c == '\r' {
        seq!['\\', 'r']
    } else if c == '\n' {
        seq!['\\', 'n']
    } else if c == '\\' {
        seq!['\\', '\\']
    } else if c == '"' {
        seq!['\\', '"']
    } else if (c as u32) < 0x20 || (c as u32) == 0x7f {
        seq!['\\', 'u', '{'] + hexadecimal(c as nat) + seq!['}']
    } else if (c as u32) >= 0x80 {
        char_escape_debug(c)
    } else {
        seq![c]
    }
}

/// What `char::escape_debug` writes for `c`: the character itself when it
/// is printable, else an escape such as `\u{85}`. Beyond ASCII this rests
/// on the Unicode tables of the standard library, so it is named here, not
/// written out.
pub uninterp spec fn char_escape_debug(c: char) -> Seq<char>;

/// Calls `char::escape_debug` and collects what it writes. The contract
/// claims only that the text is `char_escape_debug(c)`: a function of `c`.
#[verifier::external_body]
fn escape_debug_of(c: char) -> (r: String)
    ensures
        r@ == char_escape_debug(c),
{
    c.escape_debug().to_string()
}

pub open spec fn escaped(s: Seq<char>) -> Seq<char>
    decreases s.len(),
{
    if s.len() == 0 {
        Seq::empty()
    } else {
        escaped(s.drop_last()) + escaped_char(s.last())
    }
}

/// `s` as a double-quoted string literal.
pub open spec fn quoted(s: Seq<char>) -> Seq<char> {
    seq!['"'] + escaped(s) + seq!['"']
}

fn push_escaped_char(out: &mut String, s: &str, i: usize)
    requires
        i < s@.len() <= usize::MAX,
    ensures
        final(out)@ == old(out)@ + escaped_char(s@[i as int]),
{
    let c = s.get_char(i);
    proof {
        reveal_strlit("\\0");
        reveal_strlit("\\t");
        reveal_strlit("\\r");
        reveal_strlit("\\n");
        reveal_strlit("\\\\");
        reveal_strlit("\\\"");
        reveal_strlit("\\u{");
        reveal_strlit("}");
    }
    if c == '\0' {
        out.append("\\0");
    } else if c == '\t' {
        out.append("\\t");
    } else if c == '\r' {
        out.append("\\r");
    } else if c == '\n' {
        out.append("\\n");
    } else if c == '\\' {
        out.append("\\\\");
    } else if c == '"' {
        out.append("\\\"");
    } else if (c as u32) < 0x20 || (c as u32) == 0x7f {
        out.append("\\u{");
        push_hexadecimal(out, c as u32);
        out.append("}");
    } else if (c as u32) >= 0x80 {
        let e = escape_debug_of(c);
        out.append(e.as_str());
    } else {
        let one = s.substring_char(i, i + 1);
        assert(one@ =~= seq![c]);
        out.append(one);
    }
}

/// Appends `s` as a double-quoted string literal to `out`.
pub fn push_quoted(out: &mut String, s: &str)
    ensures
        final(out)@ == old(out)@ + quoted(s@),
{
    proof {
        reveal_strlit("\"");
    }
    let ghost start = out@;
    out.append("\"");
    let n = s.unicode_len();
    let mut i: usize = 0;
    while i < n
        invariant
            n == s@.len(),
            i <= n,
            out@ == start + seq!['"'] + escaped(s@.subrange(0, i as int)),
        decreases n - i,
    {
        push_escaped_char(out, s, i);
        proof {
            let t = s@.subrange(0, i + 1);
            assert(t.drop_last() =~= s@.subrange(0, i as int));
        }
        i = i + 1;
    }
    assert(s@.subrange(0, n as int) =~= s@);
    out.append("\"");
    assert(out@ =~= start + quoted(s@));
}

} // verus!
