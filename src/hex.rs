use vstd::prelude::*;

verus! {

/// `c` is one of `0-9`, `a-f`, `A-F`.
pub open spec fn is_hex_digit(c: char) -> bool {
    ('0' <= c && c <= '9') || ('a' <= c && c <= 'f') || ('A' <= c && c <= 'F')
}

/// The value of a hex digit, 0 to 15.
pub open spec fn hex_value(c: char) -> nat {
    if '0' <= c && c <= '9' {
        (c as nat - '0' as nat) as nat
    } else if 'a' <= c && c <= 'f' {
        (c as nat - 'a' as nat + 10) as nat
    } else {
        (c as nat - 'A' as nat + 10) as nat
    }
}

/// The lowercase hex digit for a value below 16 (48 is the code of `0`, 87 that of `a` less 10).
pub open spec fn lower_hex_digit(n: nat) -> char {
    if n < 10 {
        ((n + 48) as u8) as char
    } else {
        ((n + 87) as u8) as char
    }
}

/// The hex digits of `s`, in order, with every other character left out.
pub open spec fn hex_digits(s: Seq<char>) -> Seq<char>
    decreases s.len(),
{
    if s.len() == 0 {
        Seq::empty()
    } else if is_hex_digit(s.last()) {
        hex_digits(s.drop_last()).push(s.last())
    } else {
        hex_digits(s.drop_last())
    }
}

/// The bytes written by consecutive pairs of hex digits, the first of a pair being the high nibble.
pub open spec fn decode_pairs(d: Seq<char>) -> Seq<u8> {
    Seq::new(d.len() / 2, |k: int| (16 * hex_value(d[2 * k]) + hex_value(d[2 * k + 1])) as u8)
}

/// Each byte as two lowercase hex digits followed by a space.
pub open spec fn hex_dump(b: Seq<u8>) -> Seq<char> {
    Seq::new(
        3 * b.len(),
        |i: int|
            if i % 3 == 0 {
                lower_hex_digit(b[i / 3] as nat / 16)
            } else if i % 3 == 1 {
                lower_hex_digit(b[i / 3] as nat % 16)
            } else {
                ' '
            },
    )
}

/// Every character that `hex_digits` keeps is a hex digit.
pub proof fn lemma_hex_digits_are_digits(s: Seq<char>)
    ensures
        forall|i: int| 0 <= i < hex_digits(s).len() ==> is_hex_digit(#[trigger] hex_digits(s)[i]),
    decreases s.len(),
{
    if s.len() > 0 {
        lemma_hex_digits_are_digits(s.drop_last());
        let p = hex_digits(s.drop_last());
        if is_hex_digit(s.last()) {
            assert forall|i: int| 0 <= i < p.push(s.last()).len() implies is_hex_digit(
                #[trigger] p.push(s.last())[i],
            ) by {
                if i < p.len() {
                    assert(p.push(s.last())[i] == p[i]);
                }
            }
        }
    }
}

/// Whether `c` is a hex digit.
pub fn is_hex_digit_char(c: char) -> (r: bool)
    ensures
        r == is_hex_digit(c),
{
    ('0' <= c && c <= '9') || ('a' <= c && c <= 'f') || ('A' <= c && c <= 'F')
}

/// The value of the hex digit `c`.
pub fn hex_digit_value(c: char) -> (r: u8)
    requires
        is_hex_digit(c),
    ensures
        r as nat == hex_value(c),
        r < 16,
{
    if '0' <= c && c <= '9' {
        (c as u32 - '0' as u32) as u8
    } else if 'a' <= c && c <= 'f' {
        (c as u32 - 'a' as u32 + 10) as u8
    } else {
        (c as u32 - 'A' as u32 + 10) as u8
    }
}

/// The lowercase hex digit for `n`.
pub fn lower_hex_char(n: u8) -> (r: char)
    requires
        n < 16,
    ensures
        r == lower_hex_digit(n as nat),
{
    if n < 10 {
        (n + 48) as char
    } else {
        (n + 87) as char
    }
}

/// The hex digits of `s`, in order.
pub fn keep_hex_digits(s: &Vec<char>) -> (r: Vec<char>)
    ensures
        r@ == hex_digits(s@),
{
    let mut r: Vec<char> = Vec::new();
    let mut i: usize = 0;
    while i < s.len()
        invariant
            i <= s.len(),
            r@ == hex_digits(s@.take(i as int)),
        decreases s.len() - i,
    {
        let c = s[i];
        assert(s@.take(i + 1).drop_last() =~= s@.take(i as int));
        if is_hex_digit_char(c) {
            r.push(c);
        }
        i = i + 1;
    }
    assert(s@.take(i as int) =~= s@);
    r
}

/// The bytes that the hex digits `d` write, two digits to a byte.
pub fn decode_hex_pairs(d: &Vec<char>) -> (r: Vec<u8>)
    requires
        d.len() % 2 == 0,
        forall|i: int| 0 <= i < d.len() ==> is_hex_digit(#[trigger] d@[i]),
    ensures
        r@ == decode_pairs(d@),
{
    let mut r: Vec<u8> = Vec::new();
    let mut k: usize = 0;
    while k < d.len() / 2
        invariant
            d.len() % 2 == 0,
            forall|i: int| 0 <= i < d.len() ==> is_hex_digit(#[trigger] d@[i]),
            k <= d.len() / 2,
            r@ == decode_pairs(d@).take(k as int),
        decreases d.len() / 2 - k,
    {
        let high = hex_digit_value(d[2 * k]);
        let low = hex_digit_value(d[2 * k + 1]);
        let byte: u8 = 16 * high + low;
        r.push(byte);
        k = k + 1;
        assert(r@ =~= decode_pairs(d@).take(k as int));
    }
    assert(r@ =~= decode_pairs(d@));
    r
}

/// Appends to `out` the first `limit` characters of the hex dump of `bytes`.
pub fn push_hex_dump(out: &mut Vec<char>, bytes: &Vec<u8>, limit: usize)
    ensures
        final(out)@ == old(out)@ + hex_dump(bytes@).take(
            if limit <= hex_dump(bytes@).len() { limit as int } else { hex_dump(bytes@).len() as int },
        ),
{
    let ghost start = out@;
    let ghost dump = hex_dump(bytes@);
    let mut written: usize = 0;
    let mut j: usize = 0;
    while j < bytes.len() && written < limit
        invariant
            j <= bytes.len(),
            written == 3 * j || (written < 3 * j && written == limit),
            written <= limit,
            dump == hex_dump(bytes@),
            out@ == start + dump.take(written as int),
        decreases bytes.len() - j,
    {
        let b = bytes[j];
        let cells = [lower_hex_char(b / 16), lower_hex_char(b % 16), ' '];
        let mut t: usize = 0;
        while t < 3 && written < limit
            invariant
                j < bytes.len(),
                t <= 3,
                written == 3 * j + t || (written < 3 * j + t && written == limit),
                written <= limit,
                t < 3 ==> written == 3 * j + t,
                out@ == start + dump.take(written as int),
                cells@ == seq![lower_hex_digit(b as nat / 16), lower_hex_digit(b as nat % 16), ' '],
                b == bytes@[j as int],
                dump == hex_dump(bytes@),
            decreases 3 - t,
        {
            assert((3 * j + t) / 3 == j && (3 * j + t) % 3 == t);
            assert(dump[written as int] == cells@[t as int]);
            out.push(cells[t]);
            written = written + 1;
            t = t + 1;
            assert(out@ =~= start + dump.take(written as int));
        }
        j = j + 1;
    }
    assert(written == (if limit <= dump.len() { limit as int } else { dump.len() as int }));
}

} // verus!
