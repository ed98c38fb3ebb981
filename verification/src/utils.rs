//! Hardware addresses and dotted-decimal addresses as text.

use vstd::prelude::*;
use vstd::string::StringExecFns;
use vstd::string::StringSliceAdditionalSpecFns;
use crate::error::DcpError;
use crate::wire::copy_range;

verus! {

/// The sixteen digits, in the lower case that addresses are written in.
pub open spec fn digits() -> Seq<char> {
    seq!['0', '1', '2', '3', '4', '5', '6', '7', '8', '9', 'a', 'b', 'c', 'd', 'e', 'f']
}

/// The decimal form of a byte, without leading zeros.
pub open spec fn decimal_text(b: u8) -> Seq<char> {
    if b < 10 {
        seq![digits()[b as int]]
    } else if b < 100 {
        seq![digits()[b as int / 10], digits()[b as int % 10]]
    } else {
        seq![digits()[b as int / 100], digits()[(b as int / 10) % 10], digits()[b as int % 10]]
    }
}

/// The two hexadecimal digits of a byte.
pub open spec fn hex_text(b: u8) -> Seq<char> {
    seq![digits()[b as int / 16], digits()[b as int % 16]]
}

/// The decimal forms of the bytes with a dot between neighbours.
pub open spec fn dotted_decimal(bytes: Seq<u8>) -> Seq<char>
    decreases bytes.len(),
{
    if bytes.len() == 0 {
        Seq::empty()
    } else if bytes.len() == 1 {
        decimal_text(bytes[0])
    } else {
        dotted_decimal(bytes.drop_last()) + seq!['.'] + decimal_text(bytes.last())
    }
}

/// The hexadecimal forms of the bytes with a colon between neighbours.
pub open spec fn address_text(bytes: Seq<u8>) -> Seq<char>
    decreases bytes.len(),
{
    if bytes.len() == 0 {
        Seq::empty()
    } else if bytes.len() == 1 {
        hex_text(bytes[0])
    } else {
        address_text(bytes.drop_last()) + seq![':'] + hex_text(bytes.last())
    }
}

/// Blank, tab, line feed, vertical tab, form feed and carriage return.
pub open spec fn is_space(b: u8) -> bool {
    b == 0x20 || (0x09 <= b && b <= 0x0d)
}

/// `text` without the spaces at its start.
pub open spec fn trim_start(text: Seq<u8>) -> Seq<u8>
    decreases text.len(),
{
    if text.len() > 0 && is_space(text[0]) {
        trim_start(text.skip(1))
    } else {
        text
    }
}

/// `text` without the spaces at its end.
pub open spec fn trim_end(text: Seq<u8>) -> Seq<u8>
    decreases text.len(),
{
    if text.len() > 0 && is_space(text.last()) {
        trim_end(text.drop_last())
    } else {
        text
    }
}

/// The value of a hexadecimal digit in either case.
pub open spec fn hex_value(b: u8) -> Option<u8> {
    if 0x30 <= b && b <= 0x39 {
        Some((b - 0x30) as u8)
    } else if 0x61 <= b && b <= 0x66 {
        Some((b - 0x61 + 10) as u8)
    } else if 0x41 <= b && b <= 0x46 {
        Some((b - 0x41 + 10) as u8)
    } else {
        None
    }
}

/// The number that a run of hexadecimal digits stands for; nothing where a
/// byte of it is no digit.
pub open spec fn digits_value(text: Seq<u8>) -> Option<nat>
    decreases text.len(),
{
    if text.len() == 0 {
        Some(0)
    } else {
        match (digits_value(text.drop_last()), hex_value(text.last())) {
            (Some(v), Some(d)) => Some(v * 16 + d as nat),
            _ => None,
        }
    }
}

/// The byte that one component of an address stands for: an optional plus
/// sign, then one or more hexadecimal digits whose number is 255 at most.
pub open spec fn octet_parse(text: Seq<u8>) -> Option<u8> {
    let run = if text.len() > 0 && text[0] == 0x2b {
        text.skip(1)
    } else {
        text
    };
    if run.len() == 0 {
        None
    } else {
        match digits_value(run) {
            Some(v) => if v <= 255 {
                Some(v as u8)
            } else {
                None
            },
            None => None,
        }
    }
}

/// The place of the first colon in `text`, or the length of `text` if it
/// has none.
pub open spec fn first_colon(text: Seq<u8>) -> nat
    decreases text.len(),
{
    if text.len() == 0 || text[0] == 0x3a {
        0
    } else {
        1 + first_colon(text.skip(1))
    }
}

/// The bytes that the colon-separated components of `text` stand for;
/// nothing where one component stands for no byte.
pub open spec fn octets_parse(text: Seq<u8>) -> Option<Seq<u8>>
    decreases text.len(),
{
    let n = first_colon(text);
    match octet_parse(text.take(n as int)) {
        None => None,
        Some(b) => if n >= text.len() {
            Some(seq![b])
        } else {
            match octets_parse(text.skip(n as int + 1)) {
                Some(rest) => Some(seq![b] + rest),
                None => None,
            }
        },
    }
}

/// The bytes of an address written as colon-separated hexadecimal
/// components, with spaces around it left aside.
pub open spec fn address_parse(text: Seq<u8>) -> Option<Seq<u8>> {
    octets_parse(trim_end(trim_start(text)))
}

/// `head` in front of what the rest of an address stands for.
pub open spec fn prepend(head: Seq<u8>, rest: Option<Seq<u8>>) -> Option<Seq<u8>> {
    match rest {
        Some(r) => Some(head + r),
        None => None,
    }
}

proof fn lemma_first_colon(text: Seq<u8>, n: int)
    requires
        0 <= n <= text.len(),
        forall|k: int| 0 <= k < n ==> text[k] != 0x3a,
        n == text.len() || text[n] == 0x3a,
    ensures
        first_colon(text) == n,
    decreases n,
{
    if n > 0 {
        let tail = text.skip(1);
        assert forall|k: int| 0 <= k < n - 1 implies tail[k] != 0x3a by {
            assert(tail[k] == text[k + 1]);
        }
        lemma_first_colon(tail, n - 1);
    }
}

/// What a run of digits stands for is no less than what a prefix of it
/// stands for, and is nothing where the prefix stands for nothing.
proof fn lemma_digits_prefix(text: Seq<u8>, k: int)
    requires
        0 <= k <= text.len(),
    ensures
        digits_value(text.take(k)) is None ==> digits_value(text) is None,
        digits_value(text.take(k)) is Some && digits_value(text) is Some ==> digits_value(
            text,
        ).unwrap() >= digits_value(text.take(k)).unwrap(),
    decreases text.len(),
{
    if k == text.len() {
        assert(text.take(k) =~= text);
    } else {
        assert(text.drop_last().take(k) =~= text.take(k));
        lemma_digits_prefix(text.drop_last(), k);
    }
}

/// One digit as text.
fn digit_text(d: u8) -> (text: &'static str)
    requires
        d < 16,
    ensures
        text@ == seq![digits()[d as int]],
{
    proof {
        reveal_strlit("0");
        reveal_strlit("1");
        reveal_strlit("2");
        reveal_strlit("3");
        reveal_strlit("4");
        reveal_strlit("5");
        reveal_strlit("6");
        reveal_strlit("7");
        reveal_strlit("8");
        reveal_strlit("9");
        reveal_strlit("a");
        reveal_strlit("b");
        reveal_strlit("c");
        reveal_strlit("d");
        reveal_strlit("e");
        reveal_strlit("f");
    }
    let text: &'static str = match d {
        0 => "0",
        1 => "1",
        2 => "2",
        3 => "3",
        4 => "4",
        5 => "5",
        6 => "6",
        7 => "7",
        8 => "8",
        9 => "9",
        10 => "a",
        11 => "b",
        12 => "c",
        13 => "d",
        14 => "e",
        _ => "f",
    };
    assert(text@ =~= seq![digits()[d as int]]);
    text
}

/// Appends the decimal form of `b` to `out`.
fn push_decimal(out: &mut String, b: u8)
    ensures
        final(out)@ == old(out)@ + decimal_text(b),
{
    if b >= 100 {
        out.append(digit_text(b / 100));
    }
    if b >= 10 {
        out.append(digit_text((b / 10) % 10));
    }
    out.append(digit_text(b % 10));
    assert(out@ =~= old(out)@ + decimal_text(b));
}

/// Appends the two hexadecimal digits of `b` to `out`.
fn push_hex(out: &mut String, b: u8)
    ensures
        final(out)@ == old(out)@ + hex_text(b),
{
    out.append(digit_text(b / 16));
    out.append(digit_text(b % 16));
    assert(out@ =~= old(out)@ + hex_text(b));
}

/// The byte that the component `bytes[from..to]` stands for.
fn parse_octet(bytes: &[u8], from: usize, to: usize) -> (octet: Option<u8>)
    requires
        from <= to <= bytes@.len(),
    ensures
        octet == octet_parse(bytes@.subrange(from as int, to as int)),
{
    let ghost text = bytes@.subrange(from as int, to as int);
    let start: usize = if from < to && bytes[from] == 0x2b {
        from + 1
    } else {
        from
    };
    let ghost run = bytes@.subrange(start as int, to as int);
    assert(run =~= if text.len() > 0 && text[0] == 0x2b {
        text.skip(1)
    } else {
        text
    });
    if start == to {
        return None;
    }
    let mut value: u32 = 0;
    let mut k: usize = start;
    while k < to
        invariant
            from <= start <= k <= to <= bytes@.len(),
            start < to,
            text == bytes@.subrange(from as int, to as int),
            run == bytes@.subrange(start as int, to as int),
            run == if text.len() > 0 && text[0] == 0x2b {
                text.skip(1)
            } else {
                text
            },
            digits_value(run.take(k - start)) == Some(value as nat),
            value <= 255,
        decreases to - k,
    {
        let b: u8 = bytes[k];
        let digit: Option<u8> = if 0x30 <= b && b <= 0x39 {
            Some(b - 0x30)
        } else if 0x61 <= b && b <= 0x66 {
            Some(b - 0x61 + 10)
        } else if 0x41 <= b && b <= 0x46 {
            Some(b - 0x41 + 10)
        } else {
            None
        };
        assert(digit == hex_value(b));
        let ghost next = run.take(k + 1 - start);
        proof {
            assert(next.drop_last() =~= run.take(k - start));
            assert(next.last() == b);
            lemma_digits_prefix(run, k + 1 - start);
        }
        match digit {
            None => {
                assert(digits_value(next) is None);
                return None;
            },
            Some(d) => {
                let wider: u32 = value * 16 + d as u32;
                assert(digits_value(next) == Some(wider as nat));
                if wider > 255 {
                    return None;
                }
                value = wider;
            },
        }
        k += 1;
    }
    assert(run.take(to - start) =~= run);
    Some(value as u8)
}

/// Parses a hardware address: colon-separated components, each an optional
/// plus sign and one or more hexadecimal digits that make a byte, with
/// spaces around the whole left aside. The result holds one byte for each
/// component, however many there are.
pub fn mac_address_string_to_bytes(mac_address: &str) -> (parsed: Result<Vec<u8>, DcpError>)
    ensures
        match parsed {
            Ok(bytes) => address_parse(mac_address.spec_bytes()) == Some(bytes@),
            Err(e) => address_parse(mac_address.spec_bytes()) is None && e
                == DcpError::InvalidAddress,
        },
{
    let raw: &[u8] = mac_address.as_bytes();
    let mut first: usize = 0;
    assert(raw@.skip(0) =~= raw@);
    while first < raw.len() && (raw[first] == 0x20 || (0x09 <= raw[first] && raw[first] <= 0x0d))
        invariant
            first <= raw@.len(),
            trim_start(raw@) == trim_start(raw@.skip(first as int)),
        decreases raw@.len() - first,
    {
        assert(raw@.skip(first as int).skip(1) =~= raw@.skip(first + 1));
        first += 1;
    }
    assert(trim_start(raw@) == raw@.skip(first as int));
    let mut last: usize = raw.len();
    assert(raw@.skip(first as int) =~= raw@.subrange(first as int, last as int));
    while last > first && (raw[last - 1] == 0x20 || (0x09 <= raw[last - 1] && raw[last - 1]
        <= 0x0d))
        invariant
            first <= last <= raw@.len(),
            trim_end(trim_start(raw@)) == trim_end(raw@.subrange(first as int, last as int)),
        decreases last,
    {
        assert(raw@.subrange(first as int, last as int).drop_last() =~= raw@.subrange(
            first as int,
            last - 1,
        ));
        last -= 1;
    }
    let text: Vec<u8> = copy_range(raw, first, last);
    assert(trim_end(trim_start(raw@)) == text@);
    let mut out: Vec<u8> = Vec::new();
    let mut pos: usize = 0;
    proof {
        assert(text@.skip(0) =~= text@);
        match octets_parse(text@) {
            Some(all) => {
                assert(out@ + all =~= all);
            },
            None => {},
        }
    }
    loop
        invariant
            pos <= text@.len(),
            address_parse(mac_address.spec_bytes()) == octets_parse(text@),
            octets_parse(text@) == prepend(out@, octets_parse(text@.skip(pos as int))),
        decreases text@.len() - pos,
    {
        let ghost tail = text@.skip(pos as int);
        let mut end: usize = pos;
        while end < text.len() && text[end] != 0x3a
            invariant
                pos <= end <= text@.len(),
                forall|k: int| pos <= k < end ==> text@[k] != 0x3a,
            decreases text@.len() - end,
        {
            end += 1;
        }
        proof {
            assert forall|k: int| 0 <= k < end - pos implies tail[k] != 0x3a by {
                assert(tail[k] == text@[pos + k]);
            }
            lemma_first_colon(tail, end - pos);
            assert(first_colon(tail) == end - pos);
            assert(tail.take(end - pos) =~= text@.subrange(pos as int, end as int));
        }
        match parse_octet(text.as_slice(), pos, end) {
            None => {
                return Err(DcpError::InvalidAddress);
            },
            Some(b) => {
                let ghost before = out@;
                out.push(b);
                if end == text.len() {
                    assert(before + seq![b] =~= out@);
                    return Ok(out);
                }
                proof {
                    assert(tail.skip(end - pos + 1) =~= text@.skip(end + 1));
                    match octets_parse(text@.skip(end + 1)) {
                        Some(rest) => {
                            assert(before + (seq![b] + rest) =~= out@ + rest);
                        },
                        None => {},
                    }
                }
                pos = end + 1;
            },
        }
    }
}

/// Writes a hardware address as text: two lower-case hexadecimal digits for
/// each byte, with a colon between neighbours.
pub fn mac_address_bytes_to_string(mac_address: &[u8]) -> (text: String)
    ensures
        text@ == address_text(mac_address@),
{
    let mut text: String = String::new();
    let mut i: usize = 0;
    while i < mac_address.len()
        invariant
            i <= mac_address@.len(),
            text@ == address_text(mac_address@.take(i as int)),
        decreases mac_address@.len() - i,
    {
        proof {
            reveal_strlit(":");
            assert(mac_address@.take(i + 1).drop_last() =~= mac_address@.take(i as int));
        }
        if i > 0 {
            text.append(":");
        }
        push_hex(&mut text, mac_address[i]);
        i += 1;
    }
    assert(mac_address@.take(i as int) =~= mac_address@);
    text
}

/// Writes bytes in dotted-decimal form: the decimal form of each byte, with
/// a dot between neighbours.
pub fn dotted_decimal_bytes_to_string(dd: &[u8]) -> (text: String)
    ensures
        text@ == dotted_decimal(dd@),
{
    let mut text: String = String::new();
    let mut i: usize = 0;
    while i < dd.len()
        invariant
            i <= dd@.len(),
            text@ == dotted_decimal(dd@.take(i as int)),
        decreases dd@.len() - i,
    {
        proof {
            reveal_strlit(".");
            assert(dd@.take(i + 1).drop_last() =~= dd@.take(i as int));
        }
        if i > 0 {
            text.append(".");
        }
        push_decimal(&mut text, dd[i]);
        i += 1;
    }
    assert(dd@.take(i as int) =~= dd@);
    text
}

} // verus!
