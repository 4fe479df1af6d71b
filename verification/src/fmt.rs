//! Text formatting: numbers in decimal and hexadecimal, and bytes escaped
//! the way `core::ascii::escape_default` prints them.
use vstd::prelude::*;

verus! {

/// The lowercase hexadecimal digit for `v < 16`.
pub open spec fn spec_hex_digit(v: nat) -> char {
    if v < 10 {
        ((v + 48) as u8) as char
    } else {
        ((v - 10 + 97) as u8) as char
    }
}

/// The decimal digits of `v`, without leading zeros (`"0"` for zero).
pub open spec fn dec_digits(v: nat) -> Seq<char>
    decreases v,
{
    if v < 10 {
        seq![((v + 48) as u8) as char]
    } else {
        dec_digits(v / 10).push(((v % 10 + 48) as u8) as char)
    }
}

/// The lowercase hexadecimal digits of `v`, without leading zeros (`"0"`
/// for zero).
pub open spec fn hex_digits(v: nat) -> Seq<char>
    decreases v,
{
    if v < 16 {
        seq![spec_hex_digit(v)]
    } else {
        hex_digits(v / 16).push(spec_hex_digit(v % 16))
    }
}

/// `s` with zeros in front up to `width` characters.
pub open spec fn zero_padded(s: Seq<char>, width: nat) -> Seq<char> {
    if s.len() >= width {
        s
    } else {
        Seq::new((width - s.len()) as nat, |i: int| '0') + s
    }
}

/// How `core::ascii::escape_default` prints byte `b`.
pub open spec fn escaped(b: u8) -> Seq<char> {
    if b == 0x09 {
        seq!['\\', 't']
    } else if b == 0x0d {
        seq!['\\', 'r']
    } else if b == 0x0a {
        seq!['\\', 'n']
    } else if b == 0x5c {
        seq!['\\', '\\']
    } else if b == 0x27 {
        seq!['\\', '\'']
    } else if b == 0x22 {
        seq!['\\', '"']
    } else if 0x20 <= b <= 0x7e {
        seq![b as char]
    } else {
        seq!['\\', 'x', spec_hex_digit((b / 16) as nat), spec_hex_digit((b % 16) as nat)]
    }
}

/// The bytes of `s`, each escaped.
pub open spec fn escaped_all(s: Seq<u8>) -> Seq<char>
    decreases s.len(),
{
    if s.len() == 0 {
        Seq::empty()
    } else {
        escaped_all(s.drop_last()) + escaped(s.last())
    }
}

/// The lowercase hexadecimal digit for `v < 16`.
pub fn hex_digit(v: u8) -> (r: char)
    requires
        v < 16,
    ensures
        r == spec_hex_digit(v as nat),
{
    if v < 10 {
        (v + 48) as char
    } else {
        (v - 10 + 97) as char
    }
}

/// Appends the decimal digits of `v`.
pub fn push_dec(out: &mut Vec<char>, v: u64)
    ensures
        final(out)@ == old(out)@ + dec_digits(v as nat),
    decreases v,
{
    if v >= 10 {
        push_dec(out, v / 10);
    }
    out.push(((v % 10) as u8 + 48) as char);
}

/// Number of hexadecimal digits of `v`.
fn hex_len(v: u64) -> (r: usize)
    ensures
        r == hex_digits(v as nat).len(),
        r <= 16,
    decreases v,
{
    if v >= 16 {
        proof {
            assert(v / 16 < 0x1000_0000_0000_0000);
        }
        let n = hex_len(v / 16);
        if n >= 16 {
            proof {
                lemma_hex_len_bound(v as nat);
            }
        }
        n + 1
    } else {
        1
    }
}

/// A number below `16^k` has at most `k` hexadecimal digits.
proof fn lemma_hex_len_bound(v: nat)
    requires
        v <= u64::MAX,
    ensures
        hex_digits(v).len() <= 16,
{
    reveal_with_fuel(pow16, 17);
    assert(pow16(16) == 0x1_0000_0000_0000_0000);
    lemma_hex_len_le(v, 16, 0x1_0000_0000_0000_0000);
}

proof fn lemma_hex_len_le(v: nat, k: nat, p: nat)
    requires
        v < p,
        k >= 1,
        p == pow16(k),
    ensures
        hex_digits(v).len() <= k,
    decreases k,
{
    if v >= 16 {
        if k == 1 {
            assert(pow16(1) == 16 * pow16(0));
        } else {
            assert(pow16(k) == 16 * pow16((k - 1) as nat));
            assert(v / 16 < pow16((k - 1) as nat)) by (nonlinear_arith)
                requires
                    v < 16 * pow16((k - 1) as nat),
            ;
            lemma_hex_len_le(v / 16, (k - 1) as nat, pow16((k - 1) as nat));
        }
    }
}

/// `16^k`.
pub open spec fn pow16(k: nat) -> nat
    decreases k,
{
    if k == 0 {
        1
    } else {
        16 * pow16((k - 1) as nat)
    }
}

fn push_hex_digits(out: &mut Vec<char>, v: u64)
    ensures
        final(out)@ == old(out)@ + hex_digits(v as nat),
    decreases v,
{
    if v >= 16 {
        push_hex_digits(out, v / 16);
    }
    out.push(hex_digit((v % 16) as u8));
}

/// Appends the lowercase hexadecimal digits of `v`, zero-padded to `width`.
pub fn push_hex(out: &mut Vec<char>, v: u64, width: usize)
    ensures
        final(out)@ == old(out)@ + zero_padded(hex_digits(v as nat), width as nat),
{
    let ghost start = out@;
    let n = hex_len(v);
    if n < width {
        let mut i: usize = 0;
        while i < width - n
            invariant
                i <= width - n,
                n < width,
                out@ == start + Seq::new(i as nat, |j: int| '0'),
            decreases width - n - i,
        {
            out.push('0');
            i = i + 1;
            assert(out@ =~= start + Seq::new(i as nat, |j: int| '0'));
        }
    }
    let ghost mid = out@;
    push_hex_digits(out, v);
    assert(out@ =~= start + zero_padded(hex_digits(v as nat), width as nat));
}

/// Appends the characters of `s`.
pub fn push_str(out: &mut Vec<char>, s: &str)
    ensures
        final(out)@ == old(out)@ + s@,
{
    let ghost start = out@;
    for ch in it: s.chars()
        invariant
            out@ == start + it.seq().take(it.index() as int),
    {
        out.push(ch);
        assert(out@ =~= start + it.seq().take(it.index() as int + 1));
    }
    assert(out@ =~= start + s@);
}

/// Appends the characters of `s`.
pub fn push_chars(out: &mut Vec<char>, s: &Vec<char>)
    ensures
        final(out)@ == old(out)@ + s@,
{
    let ghost start = out@;
    let mut i: usize = 0;
    while i < s.len()
        invariant
            i <= s@.len(),
            out@ == start + s@.subrange(0, i as int),
        decreases s@.len() - i,
    {
        out.push(s[i]);
        i = i + 1;
        assert(out@ =~= start + s@.subrange(0, i as int));
    }
    assert(s@.subrange(0, s@.len() as int) == s@);
}

/// Appends byte `b` as `core::ascii::escape_default` prints it.
pub fn push_escaped(out: &mut Vec<char>, b: u8)
    ensures
        final(out)@ == old(out)@ + escaped(b),
{
    let ghost start = out@;
    if b == 0x09 {
        out.push('\\');
        out.push('t');
    } else if b == 0x0d {
        out.push('\\');
        out.push('r');
    } else if b == 0x0a {
        out.push('\\');
        out.push('n');
    } else if b == 0x5c {
        out.push('\\');
        out.push('\\');
    } else if b == 0x27 {
        out.push('\\');
        out.push('\'');
    } else if b == 0x22 {
        out.push('\\');
        out.push('"');
    } else if 0x20 <= b && b <= 0x7e {
        out.push(b as char);
    } else {
        out.push('\\');
        out.push('x');
        out.push(hex_digit(b / 16));
        out.push(hex_digit(b % 16));
    }
    assert(out@ =~= start + escaped(b));
}

/// Appends the bytes of `s`, each as `core::ascii::escape_default` prints
/// it.
pub fn push_escaped_bytes(out: &mut Vec<char>, s: &[u8])
    ensures
        final(out)@ == old(out)@ + escaped_all(s@),
{
    let ghost start = out@;
    let mut i: usize = 0;
    while i < s.len()
        invariant
            i <= s@.len(),
            out@ == start + escaped_all(s@.subrange(0, i as int)),
        decreases s@.len() - i,
    {
        let ghost t = s@.subrange(0, i as int + 1);
        assert(t.drop_last() == s@.subrange(0, i as int));
        push_escaped(out, s[i]);
        i = i + 1;
        assert(out@ =~= start + escaped_all(s@.subrange(0, i as int)));
    }
    assert(s@.subrange(0, s@.len() as int) == s@);
}


/// A number below `2^64` has at most 20 decimal digits.
pub proof fn lemma_dec_len_bound(v: nat)
    requires
        v <= u64::MAX,
    ensures
        dec_digits(v).len() <= 20,
{
    reveal_with_fuel(pow10, 21);
    assert(pow10(20) == 100_000_000_000_000_000_000);
    lemma_dec_len_le(v, 20, 100_000_000_000_000_000_000);
}

proof fn lemma_dec_len_le(v: nat, k: nat, p: nat)
    requires
        v < p,
        k >= 1,
        p == pow10(k),
    ensures
        dec_digits(v).len() <= k,
    decreases k,
{
    if v >= 10 {
        if k == 1 {
            assert(pow10(1) == 10 * pow10(0));
        } else {
            assert(pow10(k) == 10 * pow10((k - 1) as nat));
            assert(v / 10 < pow10((k - 1) as nat)) by (nonlinear_arith)
                requires
                    v < 10 * pow10((k - 1) as nat),
            ;
            lemma_dec_len_le(v / 10, (k - 1) as nat, pow10((k - 1) as nat));
        }
    }
}

/// `10^k`.
pub open spec fn pow10(k: nat) -> nat
    decreases k,
{
    if k == 0 {
        1
    } else {
        10 * pow10((k - 1) as nat)
    }
}

/// What a digit character stands for: `0`-`9` their value, `a`-`f` ten to
/// fifteen, anything else -1.
pub open spec fn digit_value(c: char) -> int {
    if 0x30 <= (c as u32) <= 0x39 {
        (c as u32) - 0x30
    } else if 0x61 <= (c as u32) <= 0x66 {
        (c as u32) - 0x61 + 10
    } else {
        -1
    }
}

/// The number that digits `s`, most significant first, stand for in base
/// `base`.
pub open spec fn read_number(s: Seq<char>, base: int) -> int
    decreases s.len(),
{
    if s.len() == 0 {
        0
    } else {
        read_number(s.drop_last(), base) * base + digit_value(s.last())
    }
}

/// The decimal digits of `v` read back as `v`: each is one of `0`-`9`, and
/// the first is `0` only for zero itself.
pub proof fn law_dec_digits_read_back(v: nat)
    ensures
        read_number(dec_digits(v), 10) == v,
        dec_digits(v).len() >= 1,
        forall|i: int| 0 <= i < dec_digits(v).len() ==> 0 <= #[trigger] digit_value(dec_digits(v)[i]) < 10,
        digit_value(dec_digits(v)[0]) == 0 ==> v == 0,
    decreases v,
{
    if v >= 10 {
        law_dec_digits_read_back(v / 10);
        let s = dec_digits(v / 10);
        let c = ((v % 10 + 48) as u8) as char;
        assert(dec_digits(v) == s.push(c));
        assert(s.push(c).drop_last() =~= s);
        assert(digit_value(c) == v % 10);
        assert(s.push(c).last() == c);
        assert(read_number(s.push(c), 10) == read_number(s, 10) * 10 + digit_value(c));
        assert((v / 10) * 10 + v % 10 == v);
        assert(dec_digits(v)[0] == s[0]);
        assert forall|i: int| 0 <= i < dec_digits(v).len() implies 0 <= #[trigger] digit_value(dec_digits(v)[i]) < 10 by {
            if i < s.len() {
                assert(dec_digits(v)[i] == s[i]);
            }
        }
    } else {
        let c = ((v + 48) as u8) as char;
        assert(digit_value(c) == v);
        assert(seq![c].drop_last() =~= Seq::<char>::empty());
        assert(read_number(seq![c], 10) == read_number(Seq::<char>::empty(), 10) * 10 + digit_value(c));
    }
}

/// The hexadecimal digits of `v` read back as `v`: each is one of `0`-`9`
/// or `a`-`f`, and the first is `0` only for zero itself.
pub proof fn law_hex_digits_read_back(v: nat)
    ensures
        read_number(hex_digits(v), 16) == v,
        hex_digits(v).len() >= 1,
        forall|i: int| 0 <= i < hex_digits(v).len() ==> 0 <= #[trigger] digit_value(hex_digits(v)[i]) < 16,
        digit_value(hex_digits(v)[0]) == 0 ==> v == 0,
    decreases v,
{
    if v >= 16 {
        law_hex_digits_read_back(v / 16);
        let s = hex_digits(v / 16);
        let c = spec_hex_digit(v % 16);
        assert(hex_digits(v) == s.push(c));
        assert(s.push(c).drop_last() =~= s);
        assert(digit_value(c) == v % 16);
        assert(s.push(c).last() == c);
        assert(read_number(s.push(c), 16) == read_number(s, 16) * 16 + digit_value(c));
        assert((v / 16) * 16 + v % 16 == v);
        assert(hex_digits(v)[0] == s[0]);
        assert forall|i: int| 0 <= i < hex_digits(v).len() implies 0 <= #[trigger] digit_value(hex_digits(v)[i]) < 16 by {
            if i < s.len() {
                assert(hex_digits(v)[i] == s[i]);
            }
        }
    } else {
        let c = spec_hex_digit(v);
        assert(digit_value(c) == v);
        assert(seq![c].drop_last() =~= Seq::<char>::empty());
        assert(read_number(seq![c], 16) == read_number(Seq::<char>::empty(), 16) * 16 + digit_value(c));
    }
}

} // verus!
