use vstd::prelude::*;
use vstd::string::StrSliceExecFns;

verus! {

/// The largest value a parsed radix-2 signal string may take: parsing
/// fails on anything above the signed 64-bit range.
pub open spec fn max_parse_val() -> nat {
    0x7fff_ffff_ffff_ffff
}

pub open spec fn is_bin_char(c: char) -> bool {
    c == '0' || c == '1'
}

pub open spec fn bin_digit(c: char) -> nat {
    if c == '1' {
        1
    } else {
        0
    }
}

/// A non-empty string of radix-2 digit characters.
pub open spec fn is_bin_str(s: Seq<char>) -> bool {
    s.len() > 0 && forall|i: int| 0 <= i < s.len() ==> is_bin_char(s[i])
}

/// The unsigned value of a radix-2 digit string, most significant digit first.
pub open spec fn bin_val(s: Seq<char>) -> nat
    decreases s.len(),
{
    if s.len() == 0 {
        0
    } else {
        bin_val(s.drop_last()) * 2 + bin_digit(s.last())
    }
}

/// A radix-2 string parses successfully: non-empty, all digits binary,
/// and the value within the signed 64-bit range.
pub open spec fn bin_parses(s: Seq<char>) -> bool {
    is_bin_str(s) && bin_val(s) <= max_parse_val()
}

proof fn lemma_bin_val_prefix_mono(s: Seq<char>, i: int, j: int)
    requires
        0 <= i <= j <= s.len(),
    ensures
        bin_val(s.take(i)) <= bin_val(s.take(j)),
    decreases j - i,
{
    if i < j {
        lemma_bin_val_prefix_mono(s, i, j - 1);
        assert(s.take(j).drop_last() =~= s.take(j - 1));
        assert(bin_val(s.take(j)) == bin_val(s.take(j - 1)) * 2 + bin_digit(s.take(j).last()));
    }
}

/// Parses a non-empty radix-2 digit string into its unsigned value,
/// failing on an empty string, a non-binary character, or a value
/// outside the signed 64-bit range.
pub fn parse_radix2(s: &str) -> (r: Option<u64>)
    ensures
        r is Some <==> bin_parses(s@),
        r is Some ==> r->0 == bin_val(s@),
{
    let len = s.unicode_len();
    if len == 0 {
        return None;
    }
    let mut acc: u64 = 0;
    let mut i: usize = 0;
    while i < len
        invariant
            0 <= i <= len,
            len == s@.len(),
            forall|j: int| 0 <= j < i ==> is_bin_char(s@[j]),
            acc == bin_val(s@.take(i as int)),
            acc <= max_parse_val(),
        decreases len - i,
    {
        let c = s.get_char(i);
        if c != '0' && c != '1' {
            assert(!is_bin_char(s@[i as int]));
            return None;
        }
        if acc > (0x7fff_ffff_ffff_ffffu64 - 1) / 2 {
            proof {
                assert(s@.take(i as int + 1).drop_last() =~= s@.take(i as int));
                assert(bin_val(s@.take(i as int + 1)) > max_parse_val());
                lemma_bin_val_prefix_mono(s@, i as int + 1, len as int);
                assert(s@.take(len as int) =~= s@);
            }
            return None;
        }
        let d: u64 = if c == '1' {
            1
        } else {
            0
        };
        proof {
            assert(s@.take(i as int + 1).drop_last() =~= s@.take(i as int));
        }
        acc = acc * 2 + d;
        i = i + 1;
    }
    proof {
        assert(s@.take(len as int) =~= s@);
    }
    Some(acc)
}

pub open spec fn is_dec_char(c: char) -> bool {
    '0' <= c && c <= '9'
}

pub open spec fn dec_digit(c: char) -> nat {
    (c as nat - '0' as nat) as nat
}

/// A non-empty string of base-10 digit characters.
pub open spec fn is_dec_str(s: Seq<char>) -> bool {
    s.len() > 0 && forall|i: int| 0 <= i < s.len() ==> is_dec_char(s[i])
}

/// The unsigned value of a base-10 digit string.
pub open spec fn dec_val(s: Seq<char>) -> nat
    decreases s.len(),
{
    if s.len() == 0 {
        0
    } else {
        dec_val(s.drop_last()) * 10 + dec_digit(s.last())
    }
}

/// A base-10 string parses successfully as a `usize`.
pub open spec fn dec_parses(s: Seq<char>) -> bool {
    is_dec_str(s) && dec_val(s) <= usize::MAX
}

proof fn lemma_dec_val_prefix_mono(s: Seq<char>, i: int, j: int)
    requires
        0 <= i <= j <= s.len(),
    ensures
        dec_val(s.take(i)) <= dec_val(s.take(j)),
    decreases j - i,
{
    if i < j {
        lemma_dec_val_prefix_mono(s, i, j - 1);
        assert(s.take(j).drop_last() =~= s.take(j - 1));
        assert(dec_val(s.take(j)) == dec_val(s.take(j - 1)) * 10 + dec_digit(s.take(j).last()));
    }
}

/// Parses a non-empty base-10 digit string into a `usize`, failing on an
/// empty string, a non-digit character, or a value that does not fit.
pub fn parse_dec_usize(s: &str) -> (r: Option<usize>)
    ensures
        r is Some <==> dec_parses(s@),
        r is Some ==> r->0 == dec_val(s@),
{
    let len = s.unicode_len();
    if len == 0 {
        return None;
    }
    let mut acc: usize = 0;
    let mut i: usize = 0;
    while i < len
        invariant
            0 <= i <= len,
            len == s@.len(),
            forall|j: int| 0 <= j < i ==> is_dec_char(s@[j]),
            acc == dec_val(s@.take(i as int)),
        decreases len - i,
    {
        let c = s.get_char(i);
        if c < '0' || c > '9' {
            assert(!is_dec_char(s@[i as int]));
            return None;
        }
        let d: usize = (c as u32 as usize) - 48;
        proof {
            assert(s@.take(i as int + 1).drop_last() =~= s@.take(i as int));
        }
        let next = match acc.checked_mul(10) {
            Some(x) => x.checked_add(d),
            None => None,
        };
        match next {
            Some(x) => {
                acc = x;
            },
            None => {
                proof {
                    assert(dec_val(s@.take(i as int + 1)) > usize::MAX);
                    lemma_dec_val_prefix_mono(s@, i as int + 1, len as int);
                    assert(s@.take(len as int) =~= s@);
                }
                return None;
            },
        }
        i = i + 1;
    }
    proof {
        assert(s@.take(len as int) =~= s@);
    }
    Some(acc)
}

/// The value of the low eight bits of `n`: how a wide parsed code is
/// narrowed before it keys an enum table.
pub open spec fn low_u8(n: nat) -> nat {
    n % 256
}

pub fn narrow_to_u8(v: u64) -> (r: u8)
    ensures
        r == low_u8(v as nat),
{
    (v % 256) as u8
}

/// The signed 32-bit reading of the low 32 bits of `n`: how a parsed
/// plain value is narrowed for the integer query path.
pub open spec fn low_i32(n: nat) -> int {
    if n % 0x1_0000_0000 >= 0x8000_0000 {
        n % 0x1_0000_0000 - 0x1_0000_0000
    } else {
        (n % 0x1_0000_0000) as int
    }
}

pub fn narrow_to_i32(v: u64) -> (r: i32)
    ensures
        r as int == low_i32(v as nat),
{
    let low: u64 = v % 0x1_0000_0000;
    if low >= 0x8000_0000 {
        ((low as i64) - 0x1_0000_0000) as i32
    } else {
        low as i32
    }
}

} // verus!
