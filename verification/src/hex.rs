//! Hexadecimal digits as the remote serial protocol writes and reads them.
use vstd::prelude::*;

verus! {

/// The lower-case ASCII character that the debugger stub writes for the value `n`
/// (`0..=9` as `'0'..='9'`, from ten on counting up from `'a'`).
pub open spec fn hex_char(n: int) -> u8 {
    if n < 10 {
        (48 + n) as u8
    } else {
        (97 + n - 10) as u8
    }
}

/// The value of one hexadecimal digit in either case, or `None` for any other byte.
pub open spec fn hex_digit_value(h: u8) -> Option<u8> {
    if 48 <= h <= 57 {
        Some((h - 48) as u8)
    } else if 97 <= h <= 102 {
        Some((h - 97 + 10) as u8)
    } else if 65 <= h <= 70 {
        Some((h - 65 + 10) as u8)
    } else {
        None
    }
}

pub open spec fn is_hex_digit(h: u8) -> bool {
    hex_digit_value(h) is Some
}

/// The numeric value of a digit byte, zero for a byte that is no digit.
pub open spec fn digit_of(h: u8) -> nat {
    match hex_digit_value(h) {
        Some(d) => d as nat,
        None => 0,
    }
}

/// The value of a string of hexadecimal digits, most significant first.
pub open spec fn hex_value(s: Seq<u8>) -> nat
    decreases s.len(),
{
    if s.len() == 0 {
        0
    } else {
        hex_value(s.drop_last()) * 16 + digit_of(s.last())
    }
}

/// The digits of `v` without leading zeros; zero is the single digit `'0'`.
pub open spec fn hex_digits(v: nat) -> Seq<u8>
    decreases v,
{
    if v < 16 {
        seq![hex_char(v as int)]
    } else {
        hex_digits(v / 16).push(hex_char((v % 16) as int))
    }
}

/// `hex_char(n)` for `n` below ten, `'a' + (n - 10)` above it.
pub fn hex4(n: u8) -> (r: u8)
    requires
        n <= 158,
    ensures
        r == hex_char(n as int),
{
    if n < 10 {
        48u8 + n
    } else {
        97u8 + (n - 10)
    }
}

/// The value of a hexadecimal digit of either case.
pub fn from_hex(h: u8) -> (r: Option<u8>)
    ensures
        r == hex_digit_value(h),
{
    if 48u8 <= h && h <= 57u8 {
        Some(h - 48u8)
    } else if 97u8 <= h && h <= 102u8 {
        Some(10 + h - 97u8)
    } else if 65u8 <= h && h <= 70u8 {
        Some(10 + h - 65u8)
    } else {
        None
    }
}

/// Every digit that `hex4` writes reads back as its value.
pub proof fn lemma_hex_char_roundtrip(n: int)
    requires
        0 <= n < 16,
    ensures
        hex_digit_value(hex_char(n)) == Some(n as u8),
        digit_of(hex_char(n)) == n,
{
}

/// The digits of a value read back as that value, and all of them are digits.
pub proof fn lemma_hex_digits_roundtrip(v: nat)
    ensures
        hex_value(hex_digits(v)) == v,
        forall|i: int| 0 <= i < hex_digits(v).len() ==> #[trigger] is_hex_digit(hex_digits(v)[i]),
        hex_digits(v).len() >= 1,
    decreases v,
{
    if v < 16 {
        lemma_hex_char_roundtrip(v as int);
        let s = hex_digits(v);
        assert(s.drop_last() =~= Seq::<u8>::empty());
        assert(hex_value(s.drop_last()) == 0);
        assert(hex_value(s) == digit_of(s.last()));
    } else {
        lemma_hex_digits_roundtrip(v / 16);
        lemma_hex_char_roundtrip((v % 16) as int);
        let s = hex_digits(v);
        assert(s.drop_last() =~= hex_digits(v / 16));
        assert(s.last() == hex_char((v % 16) as int));
        vstd::arithmetic::div_mod::lemma_fundamental_div_mod(v as int, 16);
        assert(hex_value(s) == hex_value(hex_digits(v / 16)) * 16 + v % 16);
        assert forall|i: int| 0 <= i < s.len() implies #[trigger] is_hex_digit(s[i]) by {
            if i < s.len() - 1 {
                assert(s[i] == hex_digits(v / 16)[i]);
            }
        }
    }
}

/// A value below `16^k` has at most `k` digits.
pub proof fn lemma_hex_digits_len(v: nat, k: nat)
    requires
        k >= 1,
        v < vstd::arithmetic::power::pow(16, k),
    ensures
        hex_digits(v).len() <= k,
    decreases v,
{
    if v >= 16 {
        vstd::arithmetic::power::lemma_pow_adds(16, 1, (k - 1) as nat);
        vstd::arithmetic::power::lemma_pow1(16);
        if k == 1 {
            assert(false);
        } else {
            assert(v / 16 < vstd::arithmetic::power::pow(16, (k - 1) as nat)) by {
                vstd::arithmetic::div_mod::lemma_div_by_multiple_is_strongly_ordered(
                    v as int,
                    (16 * vstd::arithmetic::power::pow(16, (k - 1) as nat)) as int,
                    vstd::arithmetic::power::pow(16, (k - 1) as nat) as int,
                    16,
                );
            }
            lemma_hex_digits_len(v / 16, (k - 1) as nat);
        }
    }
}

/// The digits of `v` without leading zeros (`"0"` for zero), as the stub
/// writes thread ids and addresses into a stop reply.
pub fn write_hex_u64(v: u64) -> (out: Vec<u8>)
    ensures
        out@ == hex_digits(v as nat),
{
    if v == 0 {
        let mut z: Vec<u8> = Vec::new();
        z.push(48u8);
        assert(z@ =~= hex_digits(0));
        return z;
    }
    let mut tmp: Vec<u8> = Vec::new();
    let mut cur: u64 = v;
    while cur != 0
        invariant
            hex_digits(v as nat) =~= (if cur == 0 { Seq::<u8>::empty() } else { hex_digits(
                cur as nat,
            ) }) + tmp@.reverse(),
        decreases cur,
    {
        let d = (cur & 0xF) as u8;
        assert(cur & 0xF == cur % 16) by (bit_vector);
        let ghost old_tmp = tmp@;
        let old_c = cur;
        let ghost old_cur = cur as nat;
        tmp.push(hex4(d));
        cur = cur >> 4;
        assert(old_c >> 4u64 == old_c / 16) by (bit_vector);
        proof {
            assert(tmp@.reverse() =~= seq![hex_char(d as int)] + old_tmp.reverse());
            if cur == 0 {
                assert(hex_digits(old_cur) =~= seq![hex_char(old_cur as int)]);
            } else {
                assert(hex_digits(old_cur) =~= hex_digits(cur as nat).push(hex_char(d as int)));
            }
        }
    }
    let mut out: Vec<u8> = Vec::new();
    let n = tmp.len();
    let mut i: usize = n;
    while i > 0
        invariant
            i <= n,
            n == tmp.len(),
            out@ =~= tmp@.reverse().subrange(0, (n - i) as int),
        decreases i,
    {
        i = i - 1;
        out.push(tmp[i]);
    }
    proof {
        assert(tmp@.reverse().subrange(0, n as int) =~= tmp@.reverse());
    }
    out
}

} // verus!
