//! Writing numbers and lists of numbers as text.

use vstd::prelude::*;
use vstd::string::StringExecFns;

verus! {

/// The character of the decimal digit `d`.
pub open spec fn digit_char(d: nat) -> char {
    (48 + d) as char
}

/// The decimal digits of `n`, without leading zeros.
pub open spec fn decimal(n: nat) -> Seq<char>
    decreases n,
{
    if n < 10 {
        seq![digit_char(n)]
    } else {
        decimal(n / 10).push(digit_char(n % 10))
    }
}

/// The numbers of `s` in decimal, separated by `", "`.
pub open spec fn join_decimal(s: Seq<nat>) -> Seq<char>
    decreases s.len(),
{
    if s.len() == 0 {
        Seq::empty()
    } else if s.len() == 1 {
        decimal(s[0])
    } else {
        join_decimal(s.drop_last()) + ", "@ + decimal(s.last())
    }
}

/// The numbers of `s` as a bracketed list, as `{:?}` writes a list of integers.
pub open spec fn debug_list(s: Seq<nat>) -> Seq<char> {
    "["@ + join_decimal(s) + "]"@
}

/// The bytes of `b` as naturals.
pub open spec fn bytes_as_nats(b: Seq<u8>) -> Seq<nat> {
    b.map_values(|x: u8| x as nat)
}

/// The string of one decimal digit.
fn digit_str(d: u64) -> (r: &'static str)
    requires
        d < 10,
    ensures
        r@ == seq![digit_char(d as nat)],
{
    match d {
        0 => {
            proof {
                reveal_strlit("0");
            }
            "0"
        },
        1 => {
            proof {
                reveal_strlit("1");
            }
            "1"
        },
        2 => {
            proof {
                reveal_strlit("2");
            }
            "2"
        },
        3 => {
            proof {
                reveal_strlit("3");
            }
            "3"
        },
        4 => {
            proof {
                reveal_strlit("4");
            }
            "4"
        },
        5 => {
            proof {
                reveal_strlit("5");
            }
            "5"
        },
        6 => {
            proof {
                reveal_strlit("6");
            }
            "6"
        },
        7 => {
            proof {
                reveal_strlit("7");
            }
            "7"
        },
        8 => {
            proof {
                reveal_strlit("8");
            }
            "8"
        },
        _ => {
            proof {
                reveal_strlit("9");
            }
            "9"
        },
    }
}

/// Appends `n` in decimal.
pub(crate) fn push_decimal(s: &mut String, n: u64)
    ensures
        final(s)@ == old(s)@ + decimal(n as nat),
    decreases n,
{
    if n >= 10 {
        push_decimal(s, n / 10);
    }
    s.append(digit_str(n % 10));
    assert(final(s)@ =~= old(s)@ + decimal(n as nat));
}

/// Appends the bytes of `b` as a bracketed list of decimal numbers.
pub(crate) fn push_byte_list(s: &mut String, b: &[u8])
    ensures
        final(s)@ == old(s)@ + debug_list(bytes_as_nats(b@)),
{
    s.append("[");
    let mut i: usize = 0;
    while i < b.len()
        invariant
            i <= b@.len(),
            s@ == old(s)@ + "["@ + join_decimal(bytes_as_nats(b@.subrange(0, i as int))),
        decreases b.len() - i,
    {
        let ghost prev = s@;
        if i > 0 {
            s.append(", ");
        }
        push_decimal(s, b[i] as u64);
        let ghost pre = bytes_as_nats(b@.subrange(0, i as int));
        let ghost next = bytes_as_nats(b@.subrange(0, i + 1));
        assert(next.drop_last() =~= pre);
        assert(next.last() == b@[i as int] as nat);
        i = i + 1;
        assert(s@ =~= old(s)@ + "["@ + join_decimal(next));
    }
    assert(b@.subrange(0, b@.len() as int) =~= b@);
    s.append("]");
    assert(final(s)@ =~= old(s)@ + debug_list(bytes_as_nats(b@)));
}

/// The 16-bit values of `b` as naturals.
pub open spec fn u16s_as_nats(b: Seq<u16>) -> Seq<nat> {
    b.map_values(|x: u16| x as nat)
}

/// Appends the values of `b` as a bracketed list of decimal numbers.
pub(crate) fn push_u16_list(s: &mut String, b: &[u16])
    ensures
        final(s)@ == old(s)@ + debug_list(u16s_as_nats(b@)),
{
    s.append("[");
    let mut i: usize = 0;
    while i < b.len()
        invariant
            i <= b@.len(),
            s@ == old(s)@ + "["@ + join_decimal(u16s_as_nats(b@.subrange(0, i as int))),
        decreases b.len() - i,
    {
        if i > 0 {
            s.append(", ");
        }
        push_decimal(s, b[i] as u64);
        let ghost pre = u16s_as_nats(b@.subrange(0, i as int));
        let ghost next = u16s_as_nats(b@.subrange(0, i + 1));
        assert(next.drop_last() =~= pre);
        assert(next.last() == b@[i as int] as nat);
        i = i + 1;
        assert(s@ =~= old(s)@ + "["@ + join_decimal(next));
    }
    assert(b@.subrange(0, b@.len() as int) =~= b@);
    s.append("]");
    assert(final(s)@ =~= old(s)@ + debug_list(u16s_as_nats(b@)));
}

} // verus!
