//! Numbers as text: decimal and lower-case hexadecimal digits.

use crate::net::IpAddress;
use vstd::prelude::*;
use vstd::string::StringExecFns;

verus! {

/// The digit of value `d`, below 16: `0` to `9`, then `a` to `f`.
pub open spec fn spec_digit(d: int) -> char {
    if d == 0 {
        '0'
    } else if d == 1 {
        '1'
    } else if d == 2 {
        '2'
    } else if d == 3 {
        '3'
    } else if d == 4 {
        '4'
    } else if d == 5 {
        '5'
    } else if d == 6 {
        '6'
    } else if d == 7 {
        '7'
    } else if d == 8 {
        '8'
    } else if d == 9 {
        '9'
    } else if d == 10 {
        'a'
    } else if d == 11 {
        'b'
    } else if d == 12 {
        'c'
    } else if d == 13 {
        'd'
    } else if d == 14 {
        'e'
    } else {
        'f'
    }
}

/// `n` in decimal, most significant digit first, without leading zeros;
/// the number 0 is the digit `0`.
pub open spec fn spec_decimal(n: nat) -> Seq<char>
    decreases n,
{
    if n < 10 {
        seq![spec_digit(n as int)]
    } else {
        spec_decimal(n / 10).push(spec_digit((n % 10) as int))
    }
}

/// `n` in lower-case hexadecimal, most significant digit first, without
/// leading zeros; the number 0 is the digit `0`.
pub open spec fn spec_hex(n: nat) -> Seq<char>
    decreases n,
{
    if n < 16 {
        seq![spec_digit(n as int)]
    } else {
        spec_hex(n / 16).push(spec_digit((n % 16) as int))
    }
}

/// The digit of value `d` as a text of one character.
pub fn digit_str(d: u8) -> (s: &'static str)
    requires
        d < 16,
    ensures
        s@ == seq![spec_digit(d as int)],
{
    proof {
        reveal_strlit("0");
        reveal_strlit("1");
        reveal_strlit("2");
        reveal_strlit("3");
        reveal_strlit("4");
        reveal_strlit("5");
        reveal_strlit("6");
        reveal_strlit("7");
        reveal_strlit("8");
        reveal_strlit("9");
        reveal_strlit("a");
        reveal_strlit("b");
        reveal_strlit("c");
        reveal_strlit("d");
        reveal_strlit("e");
        reveal_strlit("f");
    }
    let s: &'static str = match d {
        0 => "0",
        1 => "1",
        2 => "2",
        3 => "3",
        4 => "4",
        5 => "5",
        6 => "6",
        7 => "7",
        8 => "8",
        9 => "9",
        10 => "a",
        11 => "b",
        12 => "c",
        13 => "d",
        14 => "e",
        _ => "f",
    };
    assert(s@ =~= seq![spec_digit(d as int)]);
    s
}

/// Appends `n` in decimal.
pub fn push_decimal(text: &mut String, n: u32)
    ensures
        final(text)@ == old(text)@ + spec_decimal(n as nat),
    decreases n,
{
    if n >= 10 {
        push_decimal(text, n / 10);
    }
    text.append(digit_str((n % 10) as u8));
    assert(text@ =~= old(text)@ + spec_decimal(n as nat));
}

/// Appends `n` in lower-case hexadecimal.
pub fn push_hex(text: &mut String, n: u32)
    ensures
        final(text)@ == old(text)@ + spec_hex(n as nat),
    decreases n,
{
    if n >= 16 {
        push_hex(text, n / 16);
    }
    text.append(digit_str((n % 16) as u8));
    assert(text@ =~= old(text)@ + spec_hex(n as nat));
}

/// An IPv4 address in dotted decimal: its four bytes, first byte first.
pub open spec fn spec_ipv4_text(ip: u32) -> Seq<char> {
    spec_decimal((ip / 0x100_0000) as nat) + seq!['.'] + spec_decimal(
        (ip / 0x1_0000 % 0x100) as nat,
    ) + seq!['.'] + spec_decimal((ip / 0x100 % 0x100) as nat) + seq!['.'] + spec_decimal(
        (ip % 0x100) as nat,
    )
}

/// Group `k` of the eight groups of 16 bits of an IPv6 address, first group
/// first.
pub open spec fn spec_ipv6_group(ip: u128, k: int) -> nat {
    if k == 0 {
        (ip / 0x1_0000_0000_0000_0000_0000_0000_0000) as nat
    } else if k == 1 {
        (ip / 0x1_0000_0000_0000_0000_0000_0000 % 0x1_0000) as nat
    } else if k == 2 {
        (ip / 0x1_0000_0000_0000_0000_0000 % 0x1_0000) as nat
    } else if k == 3 {
        (ip / 0x1_0000_0000_0000_0000 % 0x1_0000) as nat
    } else if k == 4 {
        (ip / 0x1_0000_0000_0000 % 0x1_0000) as nat
    } else if k == 5 {
        (ip / 0x1_0000_0000 % 0x1_0000) as nat
    } else if k == 6 {
        (ip / 0x1_0000 % 0x1_0000) as nat
    } else {
        (ip % 0x1_0000) as nat
    }
}

/// The first `k` groups of an IPv6 address in hexadecimal, with a colon
/// between two groups.
pub open spec fn spec_ipv6_groups(ip: u128, k: nat) -> Seq<char>
    decreases k,
{
    if k == 0 {
        Seq::empty()
    } else if k == 1 {
        spec_hex(spec_ipv6_group(ip, 0))
    } else {
        spec_ipv6_groups(ip, (k - 1) as nat) + seq![':'] + spec_hex(spec_ipv6_group(ip, k - 1))
    }
}

/// An IPv6 address in its full form: all eight groups in hexadecimal, with
/// colons between them and no run of zeros left out.
pub open spec fn spec_ipv6_text(ip: u128) -> Seq<char> {
    spec_ipv6_groups(ip, 8)
}

/// An IP address as text.
pub open spec fn spec_ip_text(ip: IpAddress) -> Seq<char> {
    match ip {
        IpAddress::V4(v) => spec_ipv4_text(v),
        IpAddress::V6(v) => spec_ipv6_text(v),
    }
}

/// See [`spec_ipv6_group`].
pub fn ipv6_group(ip: u128, k: u8) -> (g: u32)
    requires
        k < 8,
    ensures
        g == spec_ipv6_group(ip, k as int),
{
    let moved: u128 = match k {
        0 => ip / 0x1_0000_0000_0000_0000_0000_0000_0000,
        1 => ip / 0x1_0000_0000_0000_0000_0000_0000,
        2 => ip / 0x1_0000_0000_0000_0000_0000,
        3 => ip / 0x1_0000_0000_0000_0000,
        4 => ip / 0x1_0000_0000_0000,
        5 => ip / 0x1_0000_0000,
        6 => ip / 0x1_0000,
        _ => ip,
    };
    (moved % 0x1_0000) as u32
}

/// Appends `ip` as text; see [`spec_ip_text`].
pub fn push_ip(text: &mut String, ip: IpAddress)
    ensures
        final(text)@ == old(text)@ + spec_ip_text(ip),
{
    proof {
        reveal_strlit(".");
        reveal_strlit(":");
    }
    match ip {
        IpAddress::V4(v) => {
            push_decimal(text, v / 0x100_0000);
            text.append(".");
            push_decimal(text, v / 0x1_0000 % 0x100);
            text.append(".");
            push_decimal(text, v / 0x100 % 0x100);
            text.append(".");
            push_decimal(text, v % 0x100);
            assert(text@ =~= old(text)@ + spec_ipv4_text(v));
        },
        IpAddress::V6(v) => {
            let mut k: u8 = 0;
            assert(text@ =~= old(text)@ + spec_ipv6_groups(v, 0));
            while k < 8
                invariant
                    k <= 8,
                    text@ == old(text)@ + spec_ipv6_groups(v, k as nat),
                decreases 8 - k,
            {
                let ghost before = text@;
                let ghost group = spec_hex(spec_ipv6_group(v, k as int));
                let ghost done = spec_ipv6_groups(v, k as nat);
                if k > 0 {
                    text.append(":");
                }
                push_hex(text, ipv6_group(v, k));
                proof {
                    reveal_strlit(":");
                    assert(":"@ =~= seq![':']);
                    if k == 0 {
                        assert(done =~= Seq::<char>::empty());
                        assert(text@ =~= before + group);
                        assert(spec_ipv6_groups(v, 1) == group);
                        assert(text@ =~= old(text)@ + spec_ipv6_groups(v, 1));
                    } else {
                        assert(text@ =~= before + seq![':'] + group);
                        assert(spec_ipv6_groups(v, (k + 1) as nat) == done + seq![':'] + group);
                        assert(text@ =~= old(text)@ + (done + seq![':'] + group));
                    }
                }
                k = k + 1;
            }
        },
    }
}

} // verus!
