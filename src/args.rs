use crate::error::InitError;
use vstd::prelude::*;

verus! {

/// `c` is one of `0-9`.
pub open spec fn is_decimal_digit(c: char) -> bool {
    '0' <= c && c <= '9'
}

/// The number that the decimal digits `s` write.
pub open spec fn decimal_value(s: Seq<char>) -> nat
    decreases s.len(),
{
    if s.len() == 0 {
        0
    } else {
        decimal_value(s.drop_last()) * 10 + (s.last() as nat - '0' as nat) as nat
    }
}

/// The digits of a port number: the text without one leading `+`.
pub open spec fn port_digits(s: Seq<char>) -> Seq<char> {
    if s.len() > 0 && s[0] == '+' {
        s.drop_first()
    } else {
        s
    }
}

/// `s` names a port: an optional `+`, then one or more decimal digits writing a number
/// below 65536.
pub open spec fn is_port_text(s: Seq<char>) -> bool {
    let d = port_digits(s);
    &&& d.len() > 0
    &&& forall|i: int| 0 <= i < d.len() ==> is_decimal_digit(#[trigger] d[i])
    &&& decimal_value(d) <= u16::MAX
}

/// Appending a digit never makes a number smaller.
proof fn lemma_decimal_value_grows(s: Seq<char>, i: int)
    requires
        0 <= i <= s.len(),
        forall|j: int| 0 <= j < s.len() ==> is_decimal_digit(#[trigger] s[j]),
    ensures
        decimal_value(s.take(i)) <= decimal_value(s),
    decreases s.len() - i,
{
    if i < s.len() {
        lemma_decimal_value_grows(s, i + 1);
        assert(s.take(i + 1).drop_last() =~= s.take(i));
    } else {
        assert(s.take(i) =~= s);
    }
}

/// The program takes two arguments after its own name: an address and a port.
pub fn check_arguments(count: usize) -> (r: Result<(), InitError>)
    ensures
        count < 3 <==> r == Err::<(), InitError>(InitError::NotEnoughArguments),
        count >= 3 <==> r is Ok,
{
    if count < 3 {
        Err(InitError::NotEnoughArguments)
    } else {
        Ok(())
    }
}

/// Reads a port number; text that names none is an invalid connection setting.
pub fn parse_port(text: &str) -> (r: Result<u16, InitError>)
    ensures
        is_port_text(text@) ==> r == Ok::<u16, InitError>(decimal_value(port_digits(text@)) as u16),
        !is_port_text(text@) ==> r == Err::<u16, InitError>(InitError::InvalidConnectionSettings),
{
    let n = text.unicode_len();
    let mut i: usize = 0;
    if n > 0 && text.get_char(0) == '+' {
        i = 1;
    }
    let ghost d = port_digits(text@);
    assert(d =~= text@.subrange(i as int, n as int));
    if i == n {
        return Err(InitError::InvalidConnectionSettings);
    }
    let start = i;
    let mut value: u32 = 0;
    while i < n
        invariant
            n == text@.len(),
            start <= i <= n,
            d == text@.subrange(start as int, n as int),
            d == port_digits(text@),
            forall|j: int| 0 <= j < i - start ==> is_decimal_digit(#[trigger] d[j]),
            value == decimal_value(d.take(i - start)),
            value <= u16::MAX,
        decreases n - i,
    {
        let c = text.get_char(i);
        assert(c == d[i - start]);
        if !('0' <= c && c <= '9') {
            assert(!is_decimal_digit(d[i - start]));
            return Err(InitError::InvalidConnectionSettings);
        }
        assert(d.take(i - start + 1).drop_last() =~= d.take(i - start));
        let next = value * 10 + (c as u32 - '0' as u32);
        if next > 65535 {
            proof {
                let k = i - start + 1;
                assert(d.take(k).last() == c);
                assert(next == decimal_value(d.take(k)));
                if is_port_text(text@) {
                    lemma_decimal_value_grows(d, k);
                }
            }
            return Err(InitError::InvalidConnectionSettings);
        }
        value = next;
        i = i + 1;
    }
    assert(d.take(i - start) =~= d);
    Ok(value as u16)
}

} // verus!
