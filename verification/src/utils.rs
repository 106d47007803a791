//! Identifier allocation shared by every record type.

use vstd::prelude::*;
use vstd::std_specs::iter::IteratorSpec;
use vstd::string::StringExecFns;

use crate::storage::Clinic;

verus! {

/// Allocate the next identifier from the global counter: the counter's
/// current value is returned and the counter moves past it.
pub fn generate_id(state: &mut Clinic) -> (id: u64)
    requires
        old(state).next_id < u64::MAX,
    ensures
        id == old(state).next_id,
        final(state).next_id == old(state).next_id + 1,
        final(state).patients == old(state).patients,
        final(state).doctors == old(state).doctors,
        final(state).appointments == old(state).appointments,
        final(state).messages == old(state).messages,
        final(state).medical_records == old(state).medical_records,
        final(state).reports == old(state).reports,
        final(state).identities == old(state).identities,
        final(state).docidentities == old(state).docidentities,
        final(state).calendlies == old(state).calendlies,
        final(state).availabilities == old(state).availabilities,
        final(state).datas == old(state).datas,
        old(state).wf() ==> final(state).wf(),
{
    let id = state.next_id;
    state.next_id = id + 1;
    id
}

/// The characters of the string, in order.
pub(crate) fn chars_of(s: &str) -> (r: Vec<char>)
    ensures
        r@ == s@,
{
    let mut it = s.chars();
    let mut r: Vec<char> = Vec::new();
    proof {
        vstd::string::axiom_spec_iter(s);
    }
    loop
        invariant_except_break
            r@ + it.remaining() == s@,
            it.decrease() is Some,
        ensures
            r@ == s@,
        decreases it.decrease()->0,
    {
        match it.next() {
            Option::Some(c) => {
                r.push(c);
                proof {
                    assert(r@ + it.remaining() =~= s@);
                }
            },
            Option::None => {
                proof {
                    assert(r@ =~= s@);
                }
                break ;
            },
        }
    }
    r
}

/// The character is one of the ten decimal digits.
pub open spec fn is_dec_digit(c: char) -> bool {
    ('0' as u32) <= (c as u32) && (c as u32) <= ('9' as u32)
}

/// The numeric value of a decimal digit.
pub open spec fn digit_value(c: char) -> nat {
    ((c as u32) - ('0' as u32)) as nat
}

/// Every character of the text is a decimal digit.
pub open spec fn all_dec_digits(s: Seq<char>) -> bool {
    forall|i: int| 0 <= i < s.len() ==> is_dec_digit(#[trigger] s[i])
}

/// The numeric value of a digit string, most significant digit first.
pub open spec fn dec_value(s: Seq<char>) -> nat
    decreases s.len(),
{
    if s.len() == 0 {
        0
    } else {
        dec_value(s.drop_last()) * 10 + digit_value(s.last())
    }
}

/// The digit portion of a decimal numeral: everything after one optional
/// leading plus sign.
pub open spec fn dec_digits_of(s: Seq<char>) -> Seq<char> {
    if s.len() > 0 && s[0] == '+' {
        s.skip(1)
    } else {
        s
    }
}

/// A digit string is worth at least any of its prefixes.
proof fn lemma_dec_value_prefix(s: Seq<char>, i: int)
    requires
        0 <= i <= s.len(),
    ensures
        dec_value(s) >= dec_value(s.take(i)),
    decreases s.len() - i,
{
    if i == s.len() {
        assert(s.take(i) =~= s);
    } else {
        assert(s.take(i + 1).drop_last() =~= s.take(i));
        assert(dec_value(s.take(i + 1)) == dec_value(s.take(i)) * 10 + digit_value(
            s.take(i + 1).last(),
        ));
        assert(dec_value(s.take(i)) * 10 >= dec_value(s.take(i))) by (nonlinear_arith);
        lemma_dec_value_prefix(s, i + 1);
    }
}

/// Parse a decimal numeral — an optional leading plus sign, then digits —
/// into a 64-bit value.  Anything else — an empty digit portion, a
/// non-digit character, or a value beyond the 64-bit range — is rejected.
#[verifier::loop_isolation(false)]
pub fn parse_u64(s: &str) -> (r: Option<u64>)
    ensures
        ({
            let ds = dec_digits_of(s@);
            match r {
                Option::Some(v) => ds.len() > 0 && all_dec_digits(ds) && dec_value(ds) <= u64::MAX
                    && v == dec_value(ds),
                Option::None => ds.len() == 0 || !all_dec_digits(ds) || dec_value(ds) > u64::MAX,
            }
        }),
{
    let cs = chars_of(s);
    let n = cs.len();
    let ghost ds = dec_digits_of(s@);
    let mut i: usize = 0;
    if n > 0 && cs[0] == '+' {
        i = 1;
    }
    let ghost start = i as int;
    proof {
        assert(ds =~= s@.skip(start));
    }
    if i == n {
        return Option::None;
    }
    let mut v: u64 = 0;
    while i < n
        invariant
            start <= i <= n,
            n == s@.len(),
            cs@ == s@,
            0 <= start <= 1,
            ds == s@.skip(start),
            forall|m: int| 0 <= m < i - start ==> is_dec_digit(#[trigger] ds[m]),
            v == dec_value(ds.take(i - start)),
        decreases n - i,
    {
        let c = cs[i];
        proof {
            assert(ds[i - start] == s@[i as int]);
        }
        if (c as u32) < ('0' as u32) || (c as u32) > ('9' as u32) {
            proof {
                assert(!is_dec_digit(ds[i - start]));
            }
            return Option::None;
        }
        let d = ((c as u32) - ('0' as u32)) as u64;
        if v > (u64::MAX - d) / 10 {
            proof {
                assert(ds.take(i - start + 1).drop_last() =~= ds.take(i - start));
                assert(dec_value(ds.take(i - start + 1)) == (v as nat) * 10 + (d as nat));
                assert((v as nat) * 10 + (d as nat) > u64::MAX) by (nonlinear_arith)
                    requires
                        v > (u64::MAX - d) / 10,
                        d <= 9,
                ;
                lemma_dec_value_prefix(ds, i - start + 1);
            }
            return Option::None;
        }
        proof {
            assert((v as nat) * 10 + (d as nat) <= u64::MAX) by (nonlinear_arith)
                requires
                    v <= (u64::MAX - d) / 10,
                    d <= 9,
            ;
            assert(ds.take(i - start + 1).drop_last() =~= ds.take(i - start));
        }
        v = v * 10 + d;
        i = i + 1;
    }
    proof {
        assert(ds.take(n - start) =~= ds);
    }
    Option::Some(v)
}

/// A one-character string for a decimal digit.
fn digit_str(d: u64) -> (r: &'static str)
    requires
        d <= 9,
    ensures
        r@.len() == 1,
        is_dec_digit(r@[0]),
        digit_value(r@[0]) == d,
{
    proof {
        reveal_strlit("0");
        reveal_strlit("1");
        reveal_strlit("2");
        reveal_strlit("3");
        reveal_strlit("4");
        reveal_strlit("5");
        reveal_strlit("6");
        reveal_strlit("7");
        reveal_strlit("8");
        reveal_strlit("9");
    }
    match d {
        0 => "0",
        1 => "1",
        2 => "2",
        3 => "3",
        4 => "4",
        5 => "5",
        6 => "6",
        7 => "7",
        8 => "8",
        _ => "9",
    }
}

/// Append the decimal digits of `n`, most significant first, with no
/// leading zero (a single zero digit for zero itself).
fn push_decimal(r: &mut String, n: u64)
    ensures
        final(r)@.len() > old(r)@.len(),
        final(r)@.subrange(0, old(r)@.len() as int) == old(r)@,
        ({
            let t = final(r)@.skip(old(r)@.len() as int);
            &&& all_dec_digits(t)
            &&& dec_value(t) == n
            &&& (n > 0 ==> digit_value(t[0]) != 0)
            &&& (n < 10 ==> t.len() == 1)
        }),
    decreases n,
{
    let ghost base = r@;
    if n >= 10 {
        push_decimal(r, n / 10);
    }
    let ghost mid = r@;
    let d_str = digit_str(n % 10);
    r.append(d_str);
    proof {
        assert(r@ == mid + d_str@);
        let t = r@.skip(base.len() as int);
        assert(dec_value(Seq::<char>::empty()) == 0);
        if n < 10 {
            assert(t =~= seq![d_str@[0]]);
            assert(t.last() == d_str@[0]);
            assert(t.drop_last() =~= Seq::<char>::empty());
            assert(dec_value(t) == dec_value(t.drop_last()) * 10 + digit_value(t.last()));
            assert(dec_value(t) == n);
        } else {
            let t1 = mid.skip(base.len() as int);
            assert(t =~= t1.push(d_str@[0]));
            assert(t.drop_last() =~= t1);
            assert(t.last() == d_str@[0]);
            assert(dec_value(t) == dec_value(t1) * 10 + (n % 10) as nat);
            assert(dec_value(t1) == n / 10);
            assert((n / 10) as nat * 10 + (n % 10) as nat == n) by (nonlinear_arith);
            assert(t[0] == t1[0]);
            assert(all_dec_digits(t)) by {
                assert forall|m: int| 0 <= m < t.len() implies is_dec_digit(#[trigger] t[m]) by {
                    if m < t1.len() {
                        assert(t[m] == t1[m]);
                    }
                }
            }
        }
        assert(r@.subrange(0, base.len() as int) =~= base);
    }
}

/// The canonical decimal rendering of a 64-bit value: digits only, no
/// leading zero, and worth exactly the value rendered.
pub fn u64_to_string(n: u64) -> (r: String)
    ensures
        all_dec_digits(r@),
        r@.len() > 0,
        dec_value(r@) == n,
        r@.len() > 1 ==> digit_value(r@[0]) != 0,
{
    let mut r = String::new();
    push_decimal(&mut r, n);
    proof {
        assert(r@.skip(0) =~= r@);
    }
    r
}

} // verus!
