use vstd::prelude::*;
use vstd::string::*;
use vstd::utf8::encode_utf8;

verus! {

/// The byte that prefixes every version identifier (`V1`, `V2`, ...).
pub const VERSION_PREFIX: u8 = 0x56;

pub open spec fn is_digit(b: u8) -> bool {
    0x30 <= b <= 0x39
}

/// The value of a string of decimal digits.
pub open spec fn decimal_value(d: Seq<u8>) -> nat
    decreases d.len(),
{
    if d.len() == 0 {
        0
    } else {
        decimal_value(d.drop_last()) * 10 + (d.last() - 0x30) as nat
    }
}

/// The version number that an identifier's bytes name: the prefix `V`
/// followed by one or more decimal digits whose value fits in `usize`.
pub open spec fn version_of_bytes(b: Seq<u8>) -> Option<nat> {
    let digits = b.subrange(1, b.len() as int);
    if b.len() >= 2 && b[0] == VERSION_PREFIX && (forall|i: int|
        0 <= i < digits.len() ==> is_digit(#[trigger] digits[i])) && decimal_value(digits)
        <= usize::MAX {
        Some(decimal_value(digits))
    } else {
        None
    }
}

/// The version number that a variant identifier names.
pub open spec fn version_of_ident(s: Seq<char>) -> Option<nat> {
    version_of_bytes(encode_utf8(s))
}

proof fn lemma_decimal_grows(d: Seq<u8>, i: int)
    requires
        0 <= i <= d.len(),
        forall|k: int| 0 <= k < d.len() ==> is_digit(#[trigger] d[k]),
    ensures
        decimal_value(d.subrange(0, i)) <= decimal_value(d),
    decreases d.len() - i,
{
    if i < d.len() {
        lemma_decimal_grows(d, i + 1);
        assert(d.subrange(0, i + 1).drop_last() =~= d.subrange(0, i));
    } else {
        assert(d.subrange(0, i) =~= d);
    }
}

/// Reads the version number out of a variant identifier such as `V3`.
pub fn parse_version_ident(ident: &str) -> (r: Option<usize>)
    ensures
        r matches Some(v) ==> version_of_ident(ident@) == Some(v as nat),
        r is None ==> version_of_ident(ident@) is None,
{
    let b = ident.as_bytes();
    proof {
        assert(b@ == encode_utf8(ident@));
    }
    let n = b.len();
    if n < 2 || b[0] != VERSION_PREFIX {
        return None;
    }
    let ghost digits = b@.subrange(1, n as int);
    let mut value: usize = 0;
    let mut i: usize = 1;
    while i < n
        invariant
            1 <= i <= n,
            n == b@.len(),
            b@ == encode_utf8(ident@),
            b@[0] == VERSION_PREFIX,
            digits == b@.subrange(1, n as int),
            forall|k: int| 0 <= k < i - 1 ==> is_digit(#[trigger] digits[k]),
            value as nat == decimal_value(digits.subrange(0, i - 1)),
        decreases n - i,
    {
        let c = b[i];
        if c < 0x30 || c > 0x39 {
            proof {
                assert(!is_digit(digits[i - 1]));
                assert(version_of_bytes(b@) is None);
            }
            return None;
        }
        let dig: usize = (c - 0x30) as usize;
        proof {
            assert(digits.subrange(0, i as int).drop_last() =~= digits.subrange(0, i - 1));
        }
        if value > (usize::MAX - dig) / 10 {
            proof {
                assert(decimal_value(digits.subrange(0, i as int)) > usize::MAX) by (nonlinear_arith)
                    requires
                        value > (usize::MAX - dig) / 10,
                        decimal_value(digits.subrange(0, i as int)) == value * 10 + dig,
                        dig <= 9,
                ;
                if forall|k: int| 0 <= k < digits.len() ==> is_digit(#[trigger] digits[k]) {
                    lemma_decimal_grows(digits, i as int);
                }
                assert(version_of_bytes(b@) is None);
            }
            return None;
        }
        value = value * 10 + dig;
        i = i + 1;
    }
    proof {
        assert(digits.subrange(0, n - 1) =~= digits);
    }
    Some(value)
}

} // verus!
