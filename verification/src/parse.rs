use vstd::prelude::*;

verus! {

/// The bucket count the server falls back to when its console input cannot
/// be parsed.
pub const DEFAULT_TABLE_SIZE: usize = 5000;

pub open spec fn is_ascii_digit(b: u8) -> bool {
    48 <= b <= 57
}

pub open spec fn digit_value(b: u8) -> nat
    recommends
        is_ascii_digit(b),
{
    (b - 48) as nat
}

pub open spec fn all_digits(s: Seq<u8>) -> bool {
    forall|i: int| 0 <= i < s.len() ==> is_ascii_digit(#[trigger] s[i])
}

/// The number a digit string denotes, most significant digit first.
pub open spec fn decimal_value(s: Seq<u8>) -> nat
    decreases s.len(),
{
    if s.len() == 0 {
        0
    } else {
        decimal_value(s.drop_last()) * 10 + digit_value(s.last())
    }
}

/// Whether the byte string is a well-formed count: nonempty, decimal digits
/// only, and small enough for a machine word.
pub open spec fn parses(s: Seq<u8>) -> bool {
    s.len() > 0 && all_digits(s) && decimal_value(s) <= usize::MAX
}

proof fn lemma_decimal_step(s: Seq<u8>, i: int)
    requires
        0 <= i < s.len(),
    ensures
        decimal_value(s.subrange(0, i + 1)) == decimal_value(s.subrange(0, i)) * 10 + digit_value(
            s[i],
        ),
{
    assert(s.subrange(0, i + 1).drop_last() =~= s.subrange(0, i));
    assert(s.subrange(0, i + 1).last() == s[i]);
}

/// Appending digits never makes the denoted number smaller.
proof fn lemma_decimal_prefix_monotone(s: Seq<u8>, i: int)
    requires
        0 <= i <= s.len(),
    ensures
        decimal_value(s.subrange(0, i)) <= decimal_value(s),
    decreases s.len() - i,
{
    if i == s.len() {
        assert(s.subrange(0, i) =~= s);
    } else {
        lemma_decimal_step(s, i);
        lemma_decimal_prefix_monotone(s, i + 1);
    }
}

/// Parse a non-negative decimal machine-word integer: the whole string must
/// be digits and the number must fit, else nothing is returned.
pub fn parse_decimal(s: &[u8]) -> (r: Option<usize>)
    ensures
        r == if parses(s@) {
            Some(decimal_value(s@) as usize)
        } else {
            None::<usize>
        },
{
    let n = s.len();
    if n == 0 {
        return None;
    }
    let mut acc: usize = 0;
    let mut i: usize = 0;
    while i < n
        invariant
            n == s@.len(),
            i <= n,
            all_digits(s@.subrange(0, i as int)),
            acc == decimal_value(s@.subrange(0, i as int)),
        decreases n - i,
    {
        let b = s[i];
        if b < 48 || b > 57 {
            proof {
                assert(!is_ascii_digit(s@[i as int]));
            }
            return None;
        }
        let d = (b - 48) as usize;
        proof {
            lemma_decimal_step(s@, i as int);
        }
        let next = match acc.checked_mul(10) {
            Some(m) => m.checked_add(d),
            None => None,
        };
        match next {
            Some(v) => {
                acc = v;
            }
            None => {
                proof {
                    lemma_decimal_prefix_monotone(s@, i + 1);
                }
                return None;
            }
        }
        proof {
            assert forall|m: int| 0 <= m < i + 1 implies is_ascii_digit(
                #[trigger] s@.subrange(0, i + 1)[m],
            ) by {
                if m < i {
                    assert(s@.subrange(0, i + 1)[m] == s@.subrange(0, i as int)[m]);
                } else {
                    assert(s@.subrange(0, i + 1)[m] == s@[i as int]);
                }
            }
        }
        i = i + 1;
    }
    proof {
        assert(s@.subrange(0, n as int) =~= s@);
    }
    Some(acc)
}

/// The bucket count the server uses for a console line: the decimal number
/// the trimmed line holds, or the default when it cannot be parsed.
pub fn table_size_or_default(s: &[u8]) -> (n: usize)
    ensures
        n == if parses(s@) {
            decimal_value(s@) as usize
        } else {
            DEFAULT_TABLE_SIZE
        },
{
    match parse_decimal(s) {
        Some(v) => v,
        None => DEFAULT_TABLE_SIZE,
    }
}

} // verus!
