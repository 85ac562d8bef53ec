//! Validation of numeric command-line values.
//!
//! A value is accepted exactly when it is a decimal `u64`: an optional `+`
//! sign followed by one or more ASCII digits, with a value that fits in 64
//! bits.

use vstd::prelude::*;
use vstd::string::StringExecFns;
use vstd::string::StringSliceAdditionalSpecFns;
use vstd::utf8::encode_utf8;

verus! {

/// True of an ASCII decimal digit byte (`'0'` through `'9'`).
pub open spec fn is_digit_byte(b: u8) -> bool {
    48 <= b && b <= 57
}

/// The numeric value of a digit byte.
pub open spec fn digit_of(b: u8) -> int {
    b - 48
}

/// True when every byte of `s` is a decimal digit.
pub open spec fn all_digit_bytes(s: Seq<u8>) -> bool {
    forall|i: int| 0 <= i < s.len() ==> is_digit_byte(s[i])
}

/// The value of `s` read as a big-endian decimal number.
pub open spec fn decimal_value(s: Seq<u8>) -> int
    decreases s.len(),
{
    if s.len() == 0 {
        0
    } else {
        decimal_value(s.drop_last()) * 10 + digit_of(s.last())
    }
}

/// `s` without its leading `+` sign (byte 43), if it has one.
pub open spec fn unsigned_body(s: Seq<u8>) -> Seq<u8> {
    if s.len() > 0 && s[0] == 43 {
        s.skip(1)
    } else {
        s
    }
}

/// True when the bytes `s` spell a decimal `u64`: an optional `+` sign, then
/// one or more digits, with a value of at most `u64::MAX`.
pub open spec fn is_u64_decimal(s: Seq<u8>) -> bool {
    let d = unsigned_body(s);
    d.len() > 0 && all_digit_bytes(d) && decimal_value(d) <= u64::MAX
}

proof fn lemma_decimal_nonneg(s: Seq<u8>)
    requires
        all_digit_bytes(s),
    ensures
        decimal_value(s) >= 0,
    decreases s.len(),
{
    if s.len() > 0 {
        assert(all_digit_bytes(s.drop_last()));
        lemma_decimal_nonneg(s.drop_last());
    }
}

/// Appending digits never shrinks a decimal value.
proof fn lemma_decimal_prefix_le(s: Seq<u8>, i: int)
    requires
        all_digit_bytes(s),
        0 <= i <= s.len(),
    ensures
        decimal_value(s.take(i)) <= decimal_value(s),
    decreases s.len() - i,
{
    if i == s.len() {
        assert(s.take(i) =~= s);
    } else {
        let t = s.take(i + 1);
        assert(t.drop_last() =~= s.take(i));
        assert(all_digit_bytes(t));
        lemma_decimal_nonneg(s.take(i));
        lemma_decimal_prefix_le(s, i + 1);
    }
}

/// Reads `v` as a decimal `u64`, returning `None` when `v` is not an
/// optional `+` sign followed by digits, or when the value overflows.
pub fn parse_u64_decimal(v: &str) -> (r: Option<u64>)
    ensures
        r == (if is_u64_decimal(v.spec_bytes()) {
            Some(decimal_value(unsigned_body(v.spec_bytes())) as u64)
        } else {
            None::<u64>
        }),
{
    let bytes: &[u8] = v.as_bytes();
    let n: usize = bytes.len();
    let start: usize = if n > 0 && bytes[0] == 43 {
        1
    } else {
        0
    };
    let ghost body = unsigned_body(v.spec_bytes());
    proof {
        assert(body =~= bytes@.subrange(start as int, n as int));
    }
    if start >= n {
        return None;
    }
    let mut acc: u64 = 0;
    let mut i: usize = start;
    while i < n
        invariant
            start <= i <= n,
            start < n,
            n == bytes@.len(),
            body == unsigned_body(v.spec_bytes()),
            body == bytes@.subrange(start as int, n as int),
            all_digit_bytes(bytes@.subrange(start as int, i as int)),
            acc == decimal_value(bytes@.subrange(start as int, i as int)),
        decreases n - i,
    {
        let b = bytes[i];
        let ghost seen = bytes@.subrange(start as int, i as int);
        let ghost next = bytes@.subrange(start as int, i + 1);
        proof {
            assert(next.drop_last() =~= seen);
        }
        if b < 48 || b > 57 {
            // a non-digit inside the body: not a number
            assert(!is_digit_byte(body[i - start]));
            return None;
        }
        let d: u64 = (b - 48) as u64;
        let wide = match acc.checked_mul(10) {
            Some(a) => a.checked_add(d),
            None => None,
        };
        match wide {
            Some(a) => {
                acc = a;
            }
            None => {
                // the digits read so far already exceed u64::MAX, and more
                // digits can only grow the value
                proof {
                    if all_digit_bytes(body) {
                        assert(body.take(i + 1 - start) =~= next);
                        lemma_decimal_prefix_le(body, i + 1 - start);
                    }
                }
                return None;
            }
        }
        i += 1;
    }
    proof {
        assert(bytes@.subrange(start as int, i as int) =~= body);
    }
    Some(acc)
}

/// The text appended to a rejected value in its error message.
pub open spec fn not_a_number_suffix() -> Seq<char> {
    " isn't a positive number"@
}

/// Accepts `v` exactly when it spells a decimal `u64`; any other value is
/// rejected with a message naming it.
pub fn is_positive_number(v: String) -> (r: Result<(), String>)
    ensures
        r is Ok <==> is_u64_decimal(encode_utf8(v@)),
        r is Err ==> r->Err_0@ == v@ + not_a_number_suffix(),
{
    let ok = parse_u64_decimal(v.as_str()).is_some();
    if ok {
        Ok(())
    } else {
        Err(v.concat(" isn't a positive number"))
    }
}

} // verus!
