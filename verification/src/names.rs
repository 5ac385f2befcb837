use vstd::prelude::*;
use vstd::string::StringExecFns;
use vstd::utf8::is_ascii_chars;
use vstd::arithmetic::div_mod::{lemma_fundamental_div_mod, lemma_mod_bound};

verus! {

/// The character for one decimal digit.
pub open spec fn digit_char(d: nat) -> char
    recommends
        d < 10,
{
    if d == 0 {
        '0'
    } else if d == 1 {
        '1'
    } else if d == 2 {
        '2'
    } else if d == 3 {
        '3'
    } else if d == 4 {
        '4'
    } else if d == 5 {
        '5'
    } else if d == 6 {
        '6'
    } else if d == 7 {
        '7'
    } else if d == 8 {
        '8'
    } else {
        '9'
    }
}

pub open spec fn is_digit_char(c: char) -> bool {
    c == '0' || c == '1' || c == '2' || c == '3' || c == '4' || c == '5' || c == '6' || c == '7'
        || c == '8' || c == '9'
}

/// The decimal digits of `n`, most significant first, without leading zeros
/// (zero itself is a single `'0'`).
pub open spec fn dec_seq(n: nat) -> Seq<char>
    decreases n,
{
    if n < 10 {
        seq![digit_char(n)]
    } else {
        dec_seq(n / 10).push(digit_char(n % 10))
    }
}

pub proof fn lemma_dec_seq_digits(n: nat)
    ensures
        dec_seq(n).len() >= 1,
        forall|i: int| 0 <= i < dec_seq(n).len() ==> is_digit_char(#[trigger] dec_seq(n)[i]),
    decreases n,
{
    if n >= 10 {
        lemma_dec_seq_digits(n / 10);
    }
}

pub proof fn lemma_dec_seq_len(n: nat)
    ensures
        n < 10 <==> dec_seq(n).len() == 1,
    decreases n,
{
    if n >= 10 {
        lemma_dec_seq_digits(n / 10);
    }
}

/// `digit_char` never collides on single digits.
pub proof fn lemma_digit_char_injective(x: nat, y: nat)
    requires
        x < 10,
        y < 10,
        digit_char(x) == digit_char(y),
    ensures
        x == y,
{
}

/// Two numbers with the same decimal digits are the same number.
pub proof fn lemma_dec_seq_injective(a: nat, b: nat)
    requires
        dec_seq(a) == dec_seq(b),
    ensures
        a == b,
    decreases a + b,
{
    lemma_dec_seq_len(a);
    lemma_dec_seq_len(b);
    if a < 10 && b < 10 {
        assert(dec_seq(a) == seq![digit_char(a)]);
        assert(dec_seq(b) == seq![digit_char(b)]);
        assert(seq![digit_char(a)][0] == digit_char(a));
        assert(seq![digit_char(b)][0] == digit_char(b));
        lemma_digit_char_injective(a, b);
    } else if a >= 10 && b >= 10 {
        lemma_dec_seq_digits(a / 10);
        lemma_dec_seq_digits(b / 10);
        assert(dec_seq(a) == dec_seq(a / 10).push(digit_char(a % 10)));
        assert(dec_seq(b) == dec_seq(b / 10).push(digit_char(b % 10)));
        assert(dec_seq(a).last() == digit_char(a % 10));
        assert(dec_seq(b).last() == digit_char(b % 10));
        lemma_digit_char_injective(a % 10, b % 10);
        lemma_fundamental_div_mod(a as int, 10);
        lemma_fundamental_div_mod(b as int, 10);
        assert(dec_seq(a).drop_last() =~= dec_seq(a / 10));
        assert(dec_seq(b).drop_last() =~= dec_seq(b / 10));
        lemma_dec_seq_injective(a / 10, b / 10);
    } else {
        lemma_dec_seq_digits(a / 10);
        lemma_dec_seq_digits(b / 10);
        assert(dec_seq(a).len() == dec_seq(b).len());
        assert(false);
    }
}

/// Powers of ten, for bounding the length of a decimal rendering.
pub open spec fn pow10(k: nat) -> nat
    decreases k,
{
    if k == 0 {
        1
    } else {
        10 * pow10((k - 1) as nat)
    }
}

/// A number below `10^k` has at most `k` decimal digits.
pub proof fn lemma_dec_seq_len_bounded(n: nat, k: nat)
    requires
        n < pow10(k),
        k >= 1,
    ensures
        dec_seq(n).len() <= k,
    decreases n,
{
    if n >= 10 {
        if k < 2 {
            assert(pow10(0) == 1);
            assert(pow10(1) == 10);
            assert(false);
        }
        lemma_fundamental_div_mod(n as int, 10);
        lemma_mod_bound(n as int, 10);
        assert(pow10(k) == 10 * pow10((k - 1) as nat));
        assert(n / 10 < pow10((k - 1) as nat));
        lemma_dec_seq_len_bounded(n / 10, (k - 1) as nat);
    }
}

/// The archive entry name of the tile at grid cell `(r, c)`:
/// `tile_{r}_{c}.png`, both indices zero-based decimal.
pub open spec fn tile_name_seq(r: nat, c: nat) -> Seq<char> {
    "tile_"@ + dec_seq(r) + "_"@ + dec_seq(c) + ".png"@
}

/// Distinct grid cells get distinct entry names, so no archive entry is ever
/// overwritten or duplicated.
pub proof fn lemma_tile_name_injective(r1: nat, c1: nat, r2: nat, c2: nat)
    requires
        tile_name_seq(r1, c1) == tile_name_seq(r2, c2),
    ensures
        r1 == r2,
        c1 == c2,
{
    reveal_strlit("tile_");
    reveal_strlit("_");
    reveal_strlit(".png");
    let a1 = dec_seq(r1);
    let b1 = dec_seq(c1);
    let a2 = dec_seq(r2);
    let b2 = dec_seq(c2);
    let n1 = tile_name_seq(r1, c1);
    let n2 = tile_name_seq(r2, c2);
    lemma_dec_seq_digits(r1);
    lemma_dec_seq_digits(c1);
    lemma_dec_seq_digits(r2);
    lemma_dec_seq_digits(c2);
    assert(n1.len() == 5 + a1.len() + 1 + b1.len() + 4);
    assert(n2.len() == 5 + a2.len() + 1 + b2.len() + 4);
    // The digit runs contain no '_', so the separator pins their lengths.
    if a1.len() < a2.len() {
        let i = 5 + a1.len() as int;
        assert(n1[i] == '_');
        assert(n2[i] == a2[a1.len() as int]);
        assert(is_digit_char(a2[a1.len() as int]));
        assert(false);
    }
    if a2.len() < a1.len() {
        let i = 5 + a2.len() as int;
        assert(n2[i] == '_');
        assert(n1[i] == a1[a2.len() as int]);
        assert(is_digit_char(a1[a2.len() as int]));
        assert(false);
    }
    assert(a1.len() == a2.len());
    assert(b1.len() == b2.len());
    assert forall|i: int| 0 <= i < a1.len() implies a1[i] == a2[i] by {
        assert(n1[5 + i] == a1[i]);
        assert(n2[5 + i] == a2[i]);
    }
    assert(a1 =~= a2);
    assert forall|i: int| 0 <= i < b1.len() implies b1[i] == b2[i] by {
        assert(n1[5 + a1.len() + 1 + i] == b1[i]);
        assert(n2[5 + a2.len() + 1 + i] == b2[i]);
    }
    assert(b1 =~= b2);
    lemma_dec_seq_injective(r1, r2);
    lemma_dec_seq_injective(c1, c2);
}

/// Entry names are short ASCII strings: at most 50 characters for grid
/// indices below `10^20`, which covers every machine-sized index.
pub proof fn lemma_tile_name_ascii_len(r: nat, c: nat)
    requires
        r < pow10(20),
        c < pow10(20),
    ensures
        is_ascii_chars(tile_name_seq(r, c)),
        tile_name_seq(r, c).len() <= 50,
{
    reveal_strlit("tile_");
    reveal_strlit("_");
    reveal_strlit(".png");
    lemma_dec_seq_digits(r);
    lemma_dec_seq_digits(c);
    lemma_dec_seq_len_bounded(r, 20);
    lemma_dec_seq_len_bounded(c, 20);
    let name = tile_name_seq(r, c);
    let a = dec_seq(r);
    let b = dec_seq(c);
    assert forall|i: int| 0 <= i < name.len() implies '\0' <= #[trigger] name[i] <= '\u{7f}' by {
        if i < 5 {
            assert(name[i] == "tile_"@[i]);
        } else if i < 5 + a.len() {
            assert(name[i] == a[i - 5]);
            assert(is_digit_char(a[i - 5]));
        } else if i < 6 + a.len() {
            assert(name[i] == '_');
        } else if i < 6 + a.len() + b.len() {
            assert(name[i] == b[i - 6 - a.len()]);
            assert(is_digit_char(b[i - 6 - a.len()]));
        } else {
            assert(name[i] == ".png"@[i - 6 - a.len() - b.len()]);
        }
    }
    assert(is_ascii_chars(name));
}

/// One decimal digit as a string slice.
fn digit_str(d: u64) -> (r: &'static str)
    requires
        d < 10,
    ensures
        r@ == seq![digit_char(d as nat)],
{
    let r: &'static str = match d {
        0 => "0",
        1 => "1",
        2 => "2",
        3 => "3",
        4 => "4",
        5 => "5",
        6 => "6",
        7 => "7",
        8 => "8",
        _ => "9",
    };
    proof {
        reveal_strlit("0");
        reveal_strlit("1");
        reveal_strlit("2");
        reveal_strlit("3");
        reveal_strlit("4");
        reveal_strlit("5");
        reveal_strlit("6");
        reveal_strlit("7");
        reveal_strlit("8");
        reveal_strlit("9");
        assert(r@ =~= seq![digit_char(d as nat)]);
    }
    r
}

/// Render `n` in decimal.
pub fn u64_decimal(n: u64) -> (r: String)
    ensures
        r@ == dec_seq(n as nat),
    decreases n,
{
    if n < 10 {
        let s = String::from_str(digit_str(n));
        proof {
            assert(s@ =~= dec_seq(n as nat));
        }
        s
    } else {
        let mut s = u64_decimal(n / 10);
        s.append(digit_str(n % 10));
        proof {
            assert(s@ =~= dec_seq(n as nat));
        }
        s
    }
}

/// The archive entry name of the tile at grid cell `(row, col)`.
pub fn tile_name(row: usize, col: usize) -> (r: String)
    ensures
        r@ == tile_name_seq(row as nat, col as nat),
{
    let mut s = String::from_str("tile_");
    let rs = u64_decimal(row as u64);
    s.append(rs.as_str());
    s.append("_");
    let cs = u64_decimal(col as u64);
    s.append(cs.as_str());
    s.append(".png");
    proof {
        assert(s@ =~= tile_name_seq(row as nat, col as nat));
    }
    s
}

} // verus!
