//! Numbers and names as text.

#[allow(unused_imports)]
use vstd::arithmetic::power::pow;
use vstd::prelude::*;
use vstd::string::{StrSliceExecFns, StringExecFns};
#[allow(unused_imports)]
use vstd::utf8::{char_is_scalar, char_u32_cast};

verus! {

/// The character of a digit below sixteen, in lower case.
pub open spec fn digit(d: nat) -> char {
    if d < 10 {
        (0x30 + d) as char
    } else {
        (0x57 + d) as char
    }
}

/// `n` in decimal, without leading zeros.
pub open spec fn decimal(n: nat) -> Seq<char>
    decreases n,
{
    if n < 10 {
        seq![digit(n)]
    } else {
        decimal(n / 10).push(digit(n % 10))
    }
}

/// The lowest `width` digits of `n` in base sixteen, leading zeros and all.
pub open spec fn hex(n: nat, width: nat) -> Seq<char>
    decreases width,
{
    if width == 0 {
        Seq::empty()
    } else {
        hex(n / 16, (width - 1) as nat).push(digit(n % 16))
    }
}

/// Appends one digit.
fn append_digit(out: &mut String, d: u8)
    requires
        d < 16,
    ensures
        final(out)@ == old(out)@.push(digit(d as nat)),
{
    proof {
        reveal_strlit("0");
        reveal_strlit("1");
        reveal_strlit("2");
        reveal_strlit("3");
        reveal_strlit("4");
        reveal_strlit("5");
        reveal_strlit("6");
        reveal_strlit("7");
        reveal_strlit("8");
        reveal_strlit("9");
        reveal_strlit("a");
        reveal_strlit("b");
        reveal_strlit("c");
        reveal_strlit("d");
        reveal_strlit("e");
        reveal_strlit("f");
    }
    let text = match d {
        0 => "0",
        1 => "1",
        2 => "2",
        3 => "3",
        4 => "4",
        5 => "5",
        6 => "6",
        7 => "7",
        8 => "8",
        9 => "9",
        10 => "a",
        11 => "b",
        12 => "c",
        13 => "d",
        14 => "e",
        _ => "f",
    };
    assert(text@ =~= seq![digit(d as nat)]);
    let ghost before = out@;
    out.append(text);
    assert(out@ =~= before.push(digit(d as nat)));
}

/// Appends `n` in decimal.
pub fn append_decimal(out: &mut String, n: u64)
    ensures
        final(out)@ == old(out)@ + decimal(n as nat),
    decreases n,
{
    let ghost before = out@;
    if n >= 10 {
        append_decimal(out, n / 10);
    }
    append_digit(out, (n % 10) as u8);
    assert(out@ =~= before + decimal(n as nat));
}

/// Appends the lowest `width` hexadecimal digits of `n`.
pub fn append_hex(out: &mut String, n: u64, width: u32)
    ensures
        final(out)@ == old(out)@ + hex(n as nat, width as nat),
    decreases width,
{
    let ghost before = out@;
    if width > 0 {
        append_hex(out, n / 16, width - 1);
        append_digit(out, (n % 16) as u8);
    }
    assert(out@ =~= before + hex(n as nat, width as nat));
}

/// A decimal digit is its own: different digits are different characters.
proof fn lemma_digit_injective(a: nat, b: nat)
    requires
        a < 16,
        b < 16,
        digit(a) == digit(b),
    ensures
        a == b,
{
}

/// Different numbers have different decimal texts.
pub proof fn lemma_decimal_injective(a: nat, b: nat)
    requires
        decimal(a) == decimal(b),
    ensures
        a == b,
    decreases a,
{
    lemma_decimal_nonempty(a / 10);
    lemma_decimal_nonempty(b / 10);
    if a < 10 && b < 10 {
        assert(decimal(a)[0] == digit(a));
        assert(decimal(b)[0] == digit(b));
        lemma_digit_injective(a, b);
    } else if a >= 10 && b >= 10 {
        let x = decimal(a);
        let y = decimal(b);
        assert(x.last() == digit(a % 10));
        assert(y.last() == digit(b % 10));
        lemma_digit_injective(a % 10, b % 10);
        assert(x.drop_last() =~= decimal(a / 10));
        assert(y.drop_last() =~= decimal(b / 10));
        lemma_decimal_injective(a / 10, b / 10);
    } else if a < 10 {
        assert(decimal(a).len() == 1);
        assert(decimal(b).len() == decimal(b / 10).len() + 1);
    } else {
        assert(decimal(b).len() == 1);
        assert(decimal(a).len() == decimal(a / 10).len() + 1);
    }
}

proof fn lemma_decimal_nonempty(n: nat)
    ensures
        decimal(n).len() >= 1,
    decreases n,
{
    if n >= 10 {
        lemma_decimal_nonempty(n / 10);
    }
}

/// Different numbers have different hexadecimal texts of the same width, as long as the
/// width is enough for them.
pub proof fn lemma_hex_injective(a: nat, b: nat, width: nat)
    requires
        hex(a, width) == hex(b, width),
        a < pow(16, width),
        b < pow(16, width),
    ensures
        a == b,
    decreases width,
{
    reveal(pow);
    if width > 0 {
        let rest = (width - 1) as nat;
        let x = hex(a, width);
        let y = hex(b, width);
        assert(x.last() == digit(a % 16));
        assert(y.last() == digit(b % 16));
        lemma_digit_injective(a % 16, b % 16);
        assert(x.drop_last() =~= hex(a / 16, rest));
        assert(y.drop_last() =~= hex(b / 16, rest));
        assert(pow(16, width) == 16 * pow(16, rest));
        lemma_hex_injective(a / 16, b / 16, rest);
    }
}

pub proof fn lemma_hex_len(n: nat, width: nat)
    ensures
        hex(n, width).len() == width,
    decreases width,
{
    if width > 0 {
        lemma_hex_len(n / 16, (width - 1) as nat);
    }
}

/// The UTF-16 code units of one character: itself where it fits 16 bits, otherwise a
/// surrogate pair.
pub open spec fn utf16_units(c: char) -> Seq<u16> {
    let n = c as int;
    if n < 0x1_0000 {
        seq![n as u16]
    } else {
        seq![
            (0xD800 + (n - 0x1_0000) / 0x400) as u16,
            (0xDC00 + (n - 0x1_0000) % 0x400) as u16,
        ]
    }
}

/// A text in UTF-16.
pub open spec fn utf16(text: Seq<char>) -> Seq<u16>
    decreases text.len(),
{
    if text.len() == 0 {
        Seq::empty()
    } else {
        utf16(text.drop_last()) + utf16_units(text.last())
    }
}

/// A text in UTF-16, closed by a zero.
pub fn wide(text: &str) -> (r: Vec<u16>)
    ensures
        r@ == utf16(text@).push(0),
{
    let mut out: Vec<u16> = Vec::new();
    let len: usize = text.unicode_len();
    let mut i: usize = 0;
    proof {
        assert(text@.take(0) =~= Seq::<char>::empty());
    }
    while i < len
        invariant
            i <= len,
            len == text@.len(),
            out@ == utf16(text@.take(i as int)),
        decreases len - i,
    {
        let c: char = text.get_char(i);
        let ghost before = out@;
        let n: u32 = c as u32;
        proof {
            char_is_scalar(c);
            char_u32_cast(c, n);
        }
        if n < 0x1_0000 {
            out.push(n as u16);
        } else {
            out.push((0xD800 + (n - 0x1_0000) / 0x400) as u16);
            out.push((0xDC00 + (n - 0x1_0000) % 0x400) as u16);
        }
        proof {
            let front = text@.take(i + 1);
            assert(front.drop_last() =~= text@.take(i as int));
            assert(front.last() == c);
            assert(out@ =~= before + utf16_units(c));
        }
        i += 1;
    }
    proof {
        assert(text@.take(len as int) =~= text@);
    }
    out.push(0);
    out
}

/// What the last unit of a character says of it.
proof fn lemma_utf16_units(c: char)
    ensures
        utf16_units(c).len() == (if (c as int) < 0x1_0000 {
            1int
        } else {
            2int
        }),
        c as int >= 0x1_0000 <==> 0xDC00 <= utf16_units(c).last() <= 0xDFFF,
        (c as int) < 0x1_0000 ==> utf16_units(c)[0] == c as int,
        c as int >= 0x1_0000 ==> c as int == 0x1_0000 + 0x400 * (utf16_units(c)[0] - 0xD800) + (
        utf16_units(c)[1] - 0xDC00),
{
    let n = c as int;
    assert(0 <= n <= 0x10_FFFF && !(0xD800 <= n <= 0xDFFF)) by {
        char_is_scalar(c);
        assert(c as u32 == n);
    }
    let k = n - 0x1_0000;
    if n >= 0x1_0000 {
        assert(0 <= k / 0x400 < 0x400);
        assert(k == 0x400 * (k / 0x400) + k % 0x400);
    }
}

/// Different texts differ in UTF-16.
pub proof fn lemma_utf16_injective(a: Seq<char>, b: Seq<char>)
    requires
        utf16(a) == utf16(b),
    ensures
        a == b,
    decreases a.len(),
{
    if a.len() == 0 || b.len() == 0 {
        if a.len() > 0 {
            assert(utf16(a).len() >= 1);
        }
        if b.len() > 0 {
            assert(utf16(b).len() >= 1);
        }
        assert(a =~= b);
    } else {
        let x = utf16(a);
        let y = utf16(b);
        let c = a.last();
        let d = b.last();
        lemma_utf16_units(c);
        lemma_utf16_units(d);
        assert(x.last() == utf16_units(c).last());
        assert(y.last() == utf16_units(d).last());
        if c as int >= 0x1_0000 {
            assert(x[x.len() - 2] == utf16_units(c)[0]);
            assert(y[y.len() - 2] == utf16_units(d)[0]);
        }
        assert(c as int == d as int);
        assert(utf16(a.drop_last()) =~= x.take(x.len() - utf16_units(c).len()));
        assert(utf16(b.drop_last()) =~= y.take(y.len() - utf16_units(d).len()));
        lemma_utf16_injective(a.drop_last(), b.drop_last());
        assert(a =~= a.drop_last().push(c));
        assert(b =~= b.drop_last().push(d));
    }
}

/// The value of a digit.
pub open spec fn digit_value(c: char) -> int {
    let n = c as int;
    if 0x30 <= n <= 0x39 {
        n - 0x30
    } else {
        n - 0x61 + 10
    }
}

/// The number that a text of digits stands for in a base.
pub open spec fn read_number(text: Seq<char>, base: int) -> int
    decreases text.len(),
{
    if text.len() == 0 {
        0
    } else {
        base * read_number(text.drop_last(), base) + digit_value(text.last())
    }
}

proof fn lemma_digit_value(d: nat)
    requires
        d < 16,
    ensures
        digit_value(digit(d)) == d,
        0x30 <= digit(d) as int <= 0x39 || 0x61 <= digit(d) as int <= 0x66,
        d < 10 ==> 0x30 <= digit(d) as int <= 0x39,
{
}

proof fn lemma_decimal_reads_back(n: nat)
    ensures
        read_number(decimal(n), 10) == n,
        decimal(n).len() > 0,
        n > 0 ==> digit_value(decimal(n)[0]) > 0,
        forall|i: int| 0 <= i < decimal(n).len() ==> 0x30 <= (#[trigger] decimal(n)[i]) as int
            <= 0x39,
    decreases n,
{
    if n < 10 {
        lemma_digit_value(n);
        assert(decimal(n).drop_last() =~= Seq::<char>::empty());
        assert(read_number(decimal(n).drop_last(), 10) == 0);
        assert(decimal(n).last() == digit(n));
    } else {
        lemma_decimal_reads_back(n / 10);
        lemma_digit_value(n % 10);
        let text = decimal(n);
        assert(text.drop_last() =~= decimal(n / 10));
        assert(text.last() == digit(n % 10));
        assert(text[0] == decimal(n / 10)[0]);
        assert forall|i: int| 0 <= i < text.len() implies 0x30 <= (#[trigger] text[i]) as int
            <= 0x39 by {
            if i < text.len() - 1 {
                assert(text[i] == decimal(n / 10)[i]);
            }
        }
    }
}

proof fn lemma_hex_reads_back(n: nat, width: nat)
    requires
        n < pow(16, width),
    ensures
        read_number(hex(n, width), 16) == n,
        hex(n, width).len() == width,
    decreases width,
{
    reveal(pow);
    if width > 0 {
        let rest = (width - 1) as nat;
        assert(pow(16, width) == 16 * pow(16, rest));
        lemma_hex_reads_back(n / 16, rest);
        lemma_digit_value(n % 16);
        let text = hex(n, width);
        assert(text.drop_last() =~= hex(n / 16, rest));
        assert(text.last() == digit(n % 16));
    }
}

/// A number that is written down can be read back: in decimal without leading zeros, and in
/// hexadecimal with as many digits as asked for. It is written behind what was there.
pub proof fn law_number_reads_as_written(n: u64)
    ensures
        forall|out: &mut String| #[trigger]
            call_ensures(append_decimal, (out, n), ()) ==> {
                let before = (*out)@;
                let after = (*final(out))@;
                let text = after.skip(before.len() as int);
                &&& after.len() > before.len()
                &&& after.take(before.len() as int) == before
                &&& read_number(text, 10) == n
                &&& n > 0 ==> digit_value(text[0]) > 0
                &&& n == 0 ==> text.len() == 1
                &&& forall|i: int|
                    0 <= i < text.len() ==> 0x30 <= (#[trigger] text[i]) as int <= 0x39
            },
        forall|out: &mut String| #[trigger]
            call_ensures(append_hex, (out, n, 16u32), ()) ==> {
                let before = (*out)@;
                let after = (*final(out))@;
                &&& after.len() == before.len() + 16
                &&& after.take(before.len() as int) == before
                &&& read_number(after.skip(before.len() as int), 16) == n
            },
{
    lemma_decimal_reads_back(n as nat);
    assert(pow(16, 16) == 0x1_0000_0000_0000_0000) by {
        reveal_with_fuel(pow, 17);
    }
    lemma_hex_reads_back(n as nat, 16);
    assert forall|out: &mut String| #[trigger] call_ensures(append_decimal, (out, n), ()) implies {
        let before = (*out)@;
        let after = (*final(out))@;
        &&& after.take(before.len() as int) == before
        &&& after.skip(before.len() as int) == decimal(n as nat)
    } by {
        let before = (*out)@;
        let after = (*final(out))@;
        assert(after.take(before.len() as int) =~= before);
        assert(after.skip(before.len() as int) =~= decimal(n as nat));
    }
    assert forall|out: &mut String| #[trigger]
        call_ensures(append_hex, (out, n, 16u32), ()) implies {
        let before = (*out)@;
        let after = (*final(out))@;
        &&& after.take(before.len() as int) == before
        &&& after.skip(before.len() as int) == hex(n as nat, 16)
    } by {
        let before = (*out)@;
        let after = (*final(out))@;
        assert(after.take(before.len() as int) =~= before);
        assert(after.skip(before.len() as int) =~= hex(n as nat, 16));
    }
}

/// A text in UTF-16 is its characters one after the other, each as one unit that is its number or
/// as the pair of surrogates that stands for it; it is closed by a zero.
pub proof fn law_wide_text_is_its_characters(text: &str, more: Seq<char>, c: char, r: Vec<u16>)
    requires
        call_ensures(wide, (text,), r),
    ensures
        r@.len() > 0 && r@.last() == 0,
        r@.drop_last() == utf16(text@),
        utf16(more.push(c)) == utf16(more) + utf16_units(c),
        utf16(Seq::empty()) == Seq::<u16>::empty(),
        (c as int) < 0x1_0000 ==> utf16_units(c).len() == 1 && utf16_units(c)[0] == c as int,
        c as int >= 0x1_0000 ==> {
            &&& utf16_units(c).len() == 2
            &&& 0xD800 <= utf16_units(c)[0] < 0xDC00
            &&& 0xDC00 <= utf16_units(c)[1] < 0xE000
            &&& c as int == 0x1_0000 + 0x400 * (utf16_units(c)[0] - 0xD800) + (utf16_units(c)[1]
                - 0xDC00)
        },
{
    lemma_utf16_units(c);
    assert(more.push(c).drop_last() =~= more);
    assert(r@.drop_last() =~= utf16(text@));
    if c as int >= 0x1_0000 {
        char_is_scalar(c);
        assert(c as u32 == c as int);
    }
}

} // verus!
