//! Verified text building: decimal numbers, record key and field names, and
//! pseudo-random field values.
//!
//! Every function's output is pinned exactly: keys and field names are the
//! fixed prefixes plus the decimal digits, and field values are determined
//! by the value stream's state alone, so a run is reproducible.

use vstd::prelude::*;
use crate::rng::{RandomStream, stream_step, stream_mix};
use vstd::string::{StringExecFns, StrSliceExecFns};

verus! {

/// The ten decimal digit characters.
pub open spec fn dec_digit_chars() -> Seq<char> {
    "0123456789"@
}

/// The lowercase alphabet used for generated field values.
pub open spec fn alpha_chars() -> Seq<char> {
    "abcdefghijklmnopqrstuvwxyz"@
}

/// The decimal digits of `n`, most significant first.
pub open spec fn dec_chars(n: int) -> Seq<char>
    decreases n,
{
    if n < 10 {
        dec_digit_chars().subrange(n, n + 1)
    } else {
        dec_chars(n / 10) + dec_digit_chars().subrange(n % 10, n % 10 + 1)
    }
}

/// The name of record key `k`: `user` followed by the decimal digits.
pub open spec fn key_chars(k: int) -> Seq<char> {
    "user"@ + dec_chars(k)
}

/// The name of field `i`: `field` followed by the decimal digits.
pub open spec fn field_name_chars(i: int) -> Seq<char> {
    "field"@ + dec_chars(i)
}

/// The table every operation addresses.
pub open spec fn table_chars() -> Seq<char> {
    "usertable"@
}

/// The stream state after `k` further draws.
pub open spec fn stream_state_after(s: u64, k: nat) -> u64
    decreases k,
{
    if k == 0 {
        s
    } else {
        stream_step(stream_state_after(s, (k - 1) as nat))
    }
}

/// Walking the stream `a` steps and then `b` more is walking it `a + b`.
pub proof fn lemma_stream_state_compose(s: u64, a: nat, b: nat)
    ensures
        stream_state_after(s, a + b) == stream_state_after(stream_state_after(s, a), b),
    decreases b,
{
    if b > 0 {
        lemma_stream_state_compose(s, a, (b - 1) as nat);
    }
}

/// The field value drawn from a stream at state `s`: `len` alphabet
/// characters, the `j`-th picked by the stream's `j+1`-th draw.
pub open spec fn value_chars(s: u64, len: nat) -> Seq<char> {
    Seq::new(len, |j: int| alpha_chars()[stream_mix(stream_state_after(s, (j + 1) as nat)) as int % 26])
}

/// The decimal digits of `n` as a string.
pub fn u64_to_dec_string(n: u64) -> (s: String)
    ensures
        s@ == dec_chars(n as int),
    decreases n,
{
    let digits = "0123456789";
    proof {
        reveal_strlit("0123456789");
    }
    if n < 10 {
        let d: usize = n as usize;
        let ds = digits.substring_char(d, d + 1);
        ds.to_owned()
    } else {
        let mut s = u64_to_dec_string(n / 10);
        let d: usize = (n % 10) as usize;
        let ds = digits.substring_char(d, d + 1);
        s.append(ds);
        s
    }
}

/// The name of record key `k`.
pub fn key_name(k: u64) -> (s: String)
    ensures
        s@ == key_chars(k as int),
{
    let mut s = String::from_str("user");
    let digits = u64_to_dec_string(k);
    s.append(digits.as_str());
    s
}

/// The name of field `i`.
pub fn field_name(i: u64) -> (s: String)
    ensures
        s@ == field_name_chars(i as int),
{
    let mut s = String::from_str("field");
    let digits = u64_to_dec_string(i);
    s.append(digits.as_str());
    s
}

/// The table name.
pub fn table_name() -> (s: String)
    ensures
        s@ == table_chars(),
{
    String::from_str("usertable")
}

/// Synthesizes one field value of `len` characters from the value stream:
/// exactly the characters `value_chars` names, advancing the stream once per
/// character.
pub fn gen_value(rng: &mut RandomStream, len: u64) -> (s: String)
    ensures
        final(rng).state == stream_state_after(old(rng).state, len as nat),
        s@ == value_chars(old(rng).state, len as nat),
{
    let alphabet = "abcdefghijklmnopqrstuvwxyz";
    proof {
        reveal_strlit("abcdefghijklmnopqrstuvwxyz");
    }
    let mut s = String::new();
    let mut j: u64 = 0;
    while j < len
        invariant
            j <= len,
            rng.state == stream_state_after(old(rng).state, j as nat),
            s@ =~= value_chars(old(rng).state, j as nat),
            alphabet@ == alpha_chars(),
            alphabet@.len() == 26,
        decreases len - j,
    {
        let r: u64 = rng.next_below(26);
        let i: usize = r as usize;
        let ds = alphabet.substring_char(i, i + 1);
        s.append(ds);
        proof {
            assert(rng.state == stream_state_after(old(rng).state, (j + 1) as nat));
            assert(s@ =~= value_chars(old(rng).state, (j + 1) as nat));
        }
        j = j + 1;
    }
    s
}

proof fn lemma_dec_len(n: int)
    requires
        0 <= n,
    ensures
        dec_chars(n).len() >= 1,
        n >= 10 ==> dec_chars(n).len() >= 2,
    decreases n,
{
    reveal_strlit("0123456789");
    if n >= 10 {
        lemma_dec_len(n / 10);
    }
}

/// Law: distinct numbers have distinct decimal digit strings.
pub proof fn lemma_dec_chars_injective(a: int, b: int)
    requires
        0 <= a,
        0 <= b,
        a != b,
    ensures
        dec_chars(a) != dec_chars(b),
    decreases a + b,
{
    reveal_strlit("0123456789");
    if a < 10 && b < 10 {
        assert(dec_chars(a)[0] != dec_chars(b)[0]);
    } else if a < 10 {
        lemma_dec_len(b);
        assert(dec_chars(a).len() == 1);
    } else if b < 10 {
        lemma_dec_len(a);
        assert(dec_chars(b).len() == 1);
    } else {
        if a % 10 != b % 10 {
            if dec_chars(a) == dec_chars(b) {
                assert(dec_chars(a).last() == dec_digit_chars()[a % 10]);
                assert(dec_chars(b).last() == dec_digit_chars()[b % 10]);
                assert(false);
            }
        } else {
            assert(a / 10 != b / 10) by {
                vstd::arithmetic::div_mod::lemma_fundamental_div_mod(a, 10);
                vstd::arithmetic::div_mod::lemma_fundamental_div_mod(b, 10);
            }
            lemma_dec_chars_injective(a / 10, b / 10);
            if dec_chars(a) == dec_chars(b) {
                assert(dec_chars(a).drop_last() =~= dec_chars(a / 10));
                assert(dec_chars(b).drop_last() =~= dec_chars(b / 10));
                assert(false);
            }
        }
    }
}

/// Law: distinct key numbers have distinct key names, so however an insert
/// budget is partitioned among workers, the distinct counter values they
/// draw name pairwise distinct record keys.
pub proof fn lemma_key_chars_injective(a: int, b: int)
    requires
        0 <= a,
        0 <= b,
        a != b,
    ensures
        key_chars(a) != key_chars(b),
{
    reveal_strlit("user");
    lemma_dec_chars_injective(a, b);
    if key_chars(a) == key_chars(b) {
        assert(key_chars(a).subrange(4, key_chars(a).len() as int) =~= dec_chars(a));
        assert(key_chars(b).subrange(4, key_chars(b).len() as int) =~= dec_chars(b));
        assert(false);
    }
}

/// Two strings are equal exactly when their character views are.
pub fn str_eq(a: &str, b: &str) -> (r: bool)
    ensures
        r == (a@ == b@),
{
    let na: usize = a.unicode_len();
    let nb: usize = b.unicode_len();
    if na != nb {
        proof {
            assert(a@ != b@);
        }
        return false;
    }
    let mut i: usize = 0;
    while i < na
        invariant
            na == a@.len(),
            nb == b@.len(),
            na == nb,
            i <= na,
            forall|t: int| 0 <= t < i ==> a@[t] == b@[t],
        decreases na - i,
    {
        let ca = a.get_char(i);
        let cb = b.get_char(i);
        if ca != cb {
            return false;
        }
        i = i + 1;
    }
    proof {
        assert(a@ =~= b@);
    }
    true
}

} // verus!
