//! Task identifiers: `task_` followed by the decimal form of a counter value.
use vstd::prelude::*;
use crate::text::chars_of;

verus! {

pub open spec fn digit_char(d: int) -> char {
    seq!['0', '1', '2', '3', '4', '5', '6', '7', '8', '9'][d]
}

/// Decimal form of `n`, without leading zeros.
pub open spec fn dec(n: nat) -> Seq<char>
    decreases n,
{
    if n < 10 {
        seq![digit_char(n as int)]
    } else {
        dec(n / 10).push(digit_char((n % 10) as int))
    }
}

/// The identifier of the task numbered `n`.
pub open spec fn task_id(n: nat) -> Seq<char> {
    "task_"@ + dec(n)
}

proof fn lemma_dec_len(n: nat)
    ensures
        dec(n).len() >= 1,
        n >= 10 ==> dec(n).len() >= 2,
    decreases n,
{
    if n >= 10 {
        lemma_dec_len(n / 10);
    }
}

proof fn lemma_digit_injective(a: int, b: int)
    requires
        0 <= a < 10,
        0 <= b < 10,
        digit_char(a) == digit_char(b),
    ensures
        a == b,
{
}

/// Distinct numbers have distinct decimal forms.
pub proof fn lemma_dec_injective(a: nat, b: nat)
    requires
        dec(a) == dec(b),
    ensures
        a == b,
    decreases a,
{
    lemma_dec_len(a);
    lemma_dec_len(b);
    if a < 10 && b < 10 {
        assert(dec(a) == seq![digit_char(a as int)]);
        assert(dec(b) == seq![digit_char(b as int)]);
        assert(dec(a)[0] == digit_char(a as int));
        assert(dec(b)[0] == digit_char(b as int));
        lemma_digit_injective(a as int, b as int);
    } else if a >= 10 && b >= 10 {
        let da = dec(a);
        let db = dec(b);
        assert(da.last() == db.last());
        lemma_digit_injective((a % 10) as int, (b % 10) as int);
        assert(da.drop_last() =~= dec(a / 10));
        assert(db.drop_last() =~= dec(b / 10));
        lemma_dec_injective(a / 10, b / 10);
    }
}

/// Tasks with different numbers have different identifiers.
pub proof fn lemma_task_ids_distinct(a: nat, b: nat)
    requires
        a != b,
    ensures
        task_id(a) != task_id(b),
{
    if task_id(a) == task_id(b) {
        reveal_strlit("task_");
        assert(dec(a) =~= task_id(a).subrange(5, task_id(a).len() as int));
        assert(dec(b) =~= task_id(b).subrange(5, task_id(b).len() as int));
        lemma_dec_injective(a, b);
    }
}

/// Relies on `FromIterator<char> for String`: the string of the given characters.
#[verifier::external_body]
pub(crate) fn string_of_chars(v: &Vec<char>) -> (r: String)
    ensures
        r@ == v@,
{
    v.iter().collect()
}

fn push_decimal(out: &mut Vec<char>, n: u64)
    ensures
        final(out)@ == old(out)@ + dec(n as nat),
    decreases n,
{
    if n >= 10 {
        push_decimal(out, n / 10);
    }
    let digits: [char; 10] = ['0', '1', '2', '3', '4', '5', '6', '7', '8', '9'];
    let d: usize = (n % 10) as usize;
    out.push(digits[d]);
    proof {
        assert(digits@[d as int] == digit_char(d as int));
        reveal_with_fuel(dec, 1);
        if n < 10 {
            assert(final(out)@ =~= old(out)@ + dec(n as nat));
        } else {
            assert(final(out)@ =~= old(out)@ + dec(n as nat));
        }
    }
}

/// The decimal form of `n`.
pub fn decimal(n: u64) -> (r: String)
    ensures
        r@ == dec(n as nat),
{
    let mut v: Vec<char> = Vec::new();
    push_decimal(&mut v, n);
    assert(v@ =~= dec(n as nat));
    string_of_chars(&v)
}

proof fn lemma_dec_append(n: nat, d: nat)
    requires
        n >= 1,
        d < 10,
    ensures
        dec(10 * n + d) == dec(n).push(digit_char(d as int)),
{
    assert((10 * n + d) / 10 == n && (10 * n + d) % 10 == d && 10 * n + d >= 10) by (nonlinear_arith)
        requires
            n >= 1,
            d < 10,
    ;
}

fn digit_value(c: char) -> (r: Option<u64>)
    ensures
        match r {
            Some(d) => d < 10 && digit_char(d as int) == c,
            None => forall|d: int| 0 <= d < 10 ==> digit_char(d) != c,
        },
{
    let digits: [char; 10] = ['0', '1', '2', '3', '4', '5', '6', '7', '8', '9'];
    let mut j: usize = 0;
    while j < 10
        invariant
            0 <= j <= 10,
            digits@ == seq!['0', '1', '2', '3', '4', '5', '6', '7', '8', '9'],
            forall|d: int| 0 <= d < j ==> digit_char(d) != c,
        decreases 10 - j,
    {
        if digits[j] == c {
            return Some(j as u64);
        }
        j = j + 1;
    }
    None
}

pub open spec fn is_digit(c: char) -> bool {
    exists|d: int| 0 <= d < 10 && digit_char(d) == c
}

proof fn lemma_dec_digits(n: nat)
    ensures
        forall|i: int| 0 <= i < dec(n).len() ==> is_digit(#[trigger] dec(n)[i]),
    decreases n,
{
    if n < 10 {
        assert(is_digit(digit_char(n as int)));
    } else {
        lemma_dec_digits(n / 10);
        assert(is_digit(digit_char((n % 10) as int)));
        assert forall|i: int| 0 <= i < dec(n).len() implies is_digit(#[trigger] dec(n)[i]) by {
            if i < dec(n / 10).len() {
                assert(dec(n)[i] == dec(n / 10)[i]);
            }
        }
    }
}

/// The leading digit of a positive number is not zero.
proof fn lemma_dec_leading(n: nat)
    requires
        n >= 1,
    ensures
        dec(n)[0] != '0',
    decreases n,
{
    lemma_dec_len(n);
    if n >= 10 {
        lemma_dec_leading(n / 10);
        lemma_dec_len(n / 10);
        assert(dec(n)[0] == dec(n / 10)[0]);
    }
}

/// A number whose decimal form begins the decimal form of `n` is at most `n`.
proof fn lemma_dec_prefix_le(m: nat, n: nat)
    requires
        dec(m).len() <= dec(n).len(),
        dec(n).take(dec(m).len() as int) == dec(m),
    ensures
        m <= n,
    decreases n,
{
    lemma_dec_len(m);
    lemma_dec_len(n);
    if dec(m).len() == dec(n).len() {
        assert(dec(n).take(dec(n).len() as int) =~= dec(n));
        lemma_dec_injective(m, n);
    } else {
        assert(n >= 10);
        assert(dec(n).drop_last() == dec(n / 10));
        assert(dec(n / 10).take(dec(m).len() as int) =~= dec(n).take(dec(m).len() as int));
        lemma_dec_prefix_le(m, n / 10);
    }
}

/// The number of a task identifier: exactly the `n` with `task_id(n)` equal
/// to `id`, when there is one.
pub fn parse_task_number(id: &String) -> (r: Option<u64>)
    ensures
        match r {
            Some(n) => id@ == task_id(n as nat),
            None => forall|n: u64| id@ != task_id(n as nat),
        },
{
    let ghost target: Option<u64> = if exists|n: u64| id@ == task_id(n as nat) {
        Some(choose|n: u64| id@ == task_id(n as nat))
    } else {
        None
    };
    proof {
        reveal_strlit("task_");
        if let Some(t) = target {
            lemma_dec_len(t as nat);
            lemma_dec_digits(t as nat);
            if t >= 1 {
                lemma_dec_leading(t as nat);
            }
        }
    }
    let cs = chars_of(id.as_str());
    if cs.len() < 6 {
        return None;
    }
    proof {
        if let Some(t) = target {
            assert(cs@.skip(5) =~= dec(t as nat));
        }
    }
    if !(cs[0] == 't' && cs[1] == 'a' && cs[2] == 's' && cs[3] == 'k' && cs[4] == '_') {
        return None;
    }
    proof {
        reveal_strlit("task_");
        assert(cs@.subrange(0, 5) =~= "task_"@);
    }
    let first = match digit_value(cs[5]) {
        Some(d) => d,
        None => {
            proof {
                if let Some(t) = target {
                    assert(cs@[5] == dec(t as nat)[0]);
                }
            }
            return None;
        },
    };
    if first == 0 {
        proof {
            if let Some(t) = target {
                if t >= 1 {
                    assert(cs@[5] == dec(t as nat)[0]);
                } else {
                    assert(dec(0) =~= seq![digit_char(0)]);
                }
            }
        }
        if cs.len() == 6 {
            proof {
                assert(dec(0) =~= seq![digit_char(0)]);
                assert(id@ =~= task_id(0));
            }
            return Some(0);
        }
        return None;
    }
    let mut n: u64 = first;
    let mut k: usize = 6;
    proof {
        assert(dec(n as nat) =~= cs@.subrange(5, 6));
    }
    while k < cs.len()
        invariant
            6 <= k <= cs@.len(),
            cs@ == id@,
            cs@.subrange(0, 5) == "task_"@,
            n >= 1,
            dec(n as nat) == cs@.subrange(5, k as int),
            target matches Some(t) ==> cs@.skip(5) == dec(t as nat),
            target is None ==> forall|m: u64| id@ != task_id(m as nat),
        decreases cs@.len() - k,
    {
        let d = match digit_value(cs[k]) {
            Some(d) => d,
            None => {
                proof {
                    if let Some(t) = target {
                        lemma_dec_digits(t as nat);
                        assert(cs@[k as int] == dec(t as nat)[k - 5]);
                    }
                }
                return None;
            },
        };
        proof {
            if let Some(t) = target {
                lemma_dec_append(n as nat, d as nat);
                assert(cs@.subrange(5, k as int + 1) =~= cs@.subrange(5, k as int).push(cs@[k as int]));
                let nn = (10 * n + d) as nat;
                assert(dec(t as nat).take(dec(nn).len() as int) =~= dec(nn));
                lemma_dec_prefix_le(nn, t as nat);
            }
        }
        if n > (u64::MAX - d) / 10 {
            return None;
        }
        proof {
            lemma_dec_append(n as nat, d as nat);
            assert(cs@.subrange(5, k as int + 1) =~= cs@.subrange(5, k as int).push(cs@[k as int]));
        }
        n = n * 10 + d;
        k = k + 1;
    }
    proof {
        assert(id@ =~= "task_"@ + cs@.subrange(5, k as int));
    }
    Some(n)
}

/// Advances the task counter and returns the identifier of the new value.
pub fn generate_task_id(counter: &mut u64) -> (r: String)
    requires
        *old(counter) < u64::MAX,
    ensures
        *final(counter) == *old(counter) + 1,
        r@ == task_id(*final(counter) as nat),
{
    *counter = *counter + 1;
    let mut v: Vec<char> = vec!['t', 'a', 's', 'k', '_'];
    proof {
        reveal_strlit("task_");
        assert(v@ =~= "task_"@);
    }
    push_decimal(&mut v, *counter);
    string_of_chars(&v)
}

} // verus!
