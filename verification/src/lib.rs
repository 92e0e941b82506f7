//! User-space client library and fabric-discovery engine for an
//! InfiniBand-style subnet management interface.
//!
//! The crate provides a byte-exact wire codec for management datagrams
//! (MADs), a bit-level accessor toolkit for packed attribute records, an
//! in-memory fabric graph, a directed-route discovery engine, and a fabric
//! simulator that answers directed-route requests from a synthetic topology.

use vstd::prelude::*;

pub mod enums;
pub mod discovery;
pub mod mad;
pub mod sim;

verus! {

/// Magic byte shared by the kernel MAD character device control operations.
pub const IB_IOCTL_MAGIC: u8 = 0x1b;

/// Control-operation code: register a management agent.
pub const IB_IOCTL_REG_AGENT: u64 = 1;

/// Control-operation code: unregister a management agent.
pub const IB_IOCTL_UNREG_AGENT: u64 = 2;

/// Control-operation code: enable partition-key enforcement.
pub const IB_IOCTL_EN_PKEY: u8 = 3;

/// Control-operation code: register a management agent (extended form).
pub const IB_IOCTL_REG_AGENT2: u64 = 4;

/// Registration request handed to the kernel MAD multiplexer when an agent
/// is registered; the kernel fills `id`.
#[derive(Debug, Clone)]
#[allow(non_camel_case_types)]
pub struct ib_user_mad_reg_req {
    pub id: u32,
    pub method_mask: [u32; 4],
    pub qpn: u8,
    pub mgmt_class: u8,
    pub mgmt_class_version: u8,
    pub oui: [u8; 3],
    pub rmpp_version: u8,
}

/// Extended registration request with explicit queue-pair number and flags.
#[derive(Debug, Clone)]
#[allow(non_camel_case_types)]
pub struct ib_user_mad_reg_req2 {
    pub id: u32,
    pub qpn: u32,
    pub mgmt_class: u8,
    pub mgmt_class_version: u8,
    pub res: u16,
    pub flags: u32,
    pub method_mask: [u64; 2],
    pub oui: u32,
    pub rmpp_version: u8,
    pub reserved: [u8; 3],
}

/// The lower-case hexadecimal digit for a value below 16.
pub open spec fn spec_hex_digit(n: int) -> char {
    if n == 0 {
        '0'
    } else if n == 1 {
        '1'
    } else if n == 2 {
        '2'
    } else if n == 3 {
        '3'
    } else if n == 4 {
        '4'
    } else if n == 5 {
        '5'
    } else if n == 6 {
        '6'
    } else if n == 7 {
        '7'
    } else if n == 8 {
        '8'
    } else if n == 9 {
        '9'
    } else if n == 10 {
        'a'
    } else if n == 11 {
        'b'
    } else if n == 12 {
        'c'
    } else if n == 13 {
        'd'
    } else if n == 14 {
        'e'
    } else {
        'f'
    }
}

/// The two hexadecimal digits of one byte.
pub open spec fn spec_hex2(b: u8) -> Seq<char> {
    seq![spec_hex_digit(b as int / 16), spec_hex_digit(b as int % 16)]
}

/// The four hexadecimal digits of an offset below 65536.
pub open spec fn spec_hex4(n: int) -> Seq<char> {
    seq![
        spec_hex_digit(n / 4096 % 16),
        spec_hex_digit(n / 256 % 16),
        spec_hex_digit(n / 16 % 16),
        spec_hex_digit(n % 16),
    ]
}

/// What the dump prints for byte `i`: its two digits and a space, an
/// extra space after every eighth byte, and after every sixteenth a line
/// break followed — unless the buffer ends here — by the offset label of
/// the line just finished.
pub open spec fn spec_dump_entry(bytes: Seq<u8>, i: int) -> Seq<char> {
    spec_hex2(bytes[i]) + seq![' '] + (if (i + 1) % 8 == 0 {
        seq![' ']
    } else {
        Seq::empty()
    }) + (if (i + 1) % 16 == 0 {
        seq!['\n'] + (if i < bytes.len() - 1 {
            seq!['0', 'x'] + spec_hex4(i) + seq![':', ' ']
        } else {
            Seq::empty()
        })
    } else {
        Seq::empty()
    })
}

/// The dump of all bytes from index `i` on.
pub open spec fn spec_dump_from(bytes: Seq<u8>, i: int) -> Seq<char>
    decreases bytes.len() - i,
{
    if i < 0 || i >= bytes.len() {
        Seq::empty()
    } else {
        spec_dump_entry(bytes, i) + spec_dump_from(bytes, i + 1)
    }
}

/// The whole hex dump: the opening offset label, then every byte's entry.
pub open spec fn spec_dump(bytes: Seq<u8>) -> Seq<char> {
    seq!['0', 'x', '0', '0', '0', '0', ':', ' '] + spec_dump_from(bytes, 0)
}

/// The lower-case hexadecimal digit for a value below 16, as a one-byte
/// string slice.
fn hex_digit_str(n: u8) -> (r: &'static str)
    requires
        n < 16,
    ensures
        r@ == seq![spec_hex_digit(n as int)],
{
    proof {
        reveal_strlit("0");
        reveal_strlit("1");
        reveal_strlit("2");
        reveal_strlit("3");
        reveal_strlit("4");
        reveal_strlit("5");
        reveal_strlit("6");
        reveal_strlit("7");
        reveal_strlit("8");
        reveal_strlit("9");
        reveal_strlit("a");
        reveal_strlit("b");
        reveal_strlit("c");
        reveal_strlit("d");
        reveal_strlit("e");
        reveal_strlit("f");
    }
    let r: &'static str = match n {
        0 => "0",
        1 => "1",
        2 => "2",
        3 => "3",
        4 => "4",
        5 => "5",
        6 => "6",
        7 => "7",
        8 => "8",
        9 => "9",
        10 => "a",
        11 => "b",
        12 => "c",
        13 => "d",
        14 => "e",
        _ => "f",
    };
    proof {
        assert(r@ =~= seq![spec_hex_digit(n as int)]);
    }
    r
}

/// Appends the two hexadecimal digits of a byte.
fn append_hex2(out: &mut String, b: u8)
    ensures
        final(out)@ == old(out)@ + spec_hex2(b),
{
    out.append(hex_digit_str(b / 16));
    out.append(hex_digit_str(b % 16));
    proof {
        assert(final(out)@ =~= old(out)@ + spec_hex2(b));
    }
}

/// Appends the four hexadecimal digits of an offset below 65536.
fn append_hex4(out: &mut String, n: usize)
    requires
        n < 0x10000,
    ensures
        final(out)@ == old(out)@ + spec_hex4(n as int),
{
    out.append(hex_digit_str(((n / 4096) % 16) as u8));
    out.append(hex_digit_str(((n / 256) % 16) as u8));
    out.append(hex_digit_str(((n / 16) % 16) as u8));
    out.append(hex_digit_str((n % 16) as u8));
    proof {
        assert(final(out)@ =~= old(out)@ + spec_hex4(n as int));
    }
}

/// Formats a buffer as a hex dump: sixteen bytes per line, grouped in
/// eights, each line introduced by its offset label.
pub fn dump_bytes(buf: &[u8]) -> (r: String)
    requires
        buf@.len() < 0x10000,
    ensures
        r@ == spec_dump(buf@),
{
    let mut output: String = String::new();
    proof {
        reveal_strlit("0x0000: ");
        reveal_strlit(" ");
        reveal_strlit("\n");
        reveal_strlit("0x");
        reveal_strlit(": ");
    }
    output.append("0x0000: ");
    proof {
        assert(output@ =~= seq!['0', 'x', '0', '0', '0', '0', ':', ' ']);
    }
    let len = buf.len();
    let mut i: usize = 0;
    while i < len
        invariant
            i <= len,
            len == buf@.len(),
            len < 0x10000,
            spec_dump(buf@) == output@ + spec_dump_from(buf@, i as int),
        decreases len - i,
    {
        let ghost prev = output@;
        append_hex2(&mut output, buf[i]);
        proof {
            reveal_strlit(" ");
            reveal_strlit("\n");
            reveal_strlit("0x");
            reveal_strlit(": ");
        }
        output.append(" ");
        if (i + 1) % 8 == 0 {
            output.append(" ");
        }
        if (i + 1) % 16 == 0 {
            output.append("\n");
            if i < len - 1 {
                output.append("0x");
                append_hex4(&mut output, i);
                output.append(": ");
            }
        }
        proof {
            assert(output@ =~= prev + spec_dump_entry(buf@, i as int));
            assert(spec_dump(buf@) =~= output@ + spec_dump_from(buf@, i + 1));
        }
        i += 1;
    }
    proof {
        assert(spec_dump(buf@) =~= output@);
    }
    output
}

/// The queue-pair number an agent registration defaults to: 0 for the two
/// subnet-management classes (LID-routed 0x01 and directed-route 0x81),
/// 1 for general management classes.
pub open spec fn spec_default_qpn(mgmt_class: u8) -> u8 {
    if mgmt_class == 0x01 || mgmt_class == 0x81 {
        0
    } else {
        1
    }
}

impl ib_user_mad_reg_req {
    /// Builds the registration request for a management class, with the
    /// queue-pair number defaulted by class and version fixed at 1.
    pub fn for_mgmt_class(mgmt_class: u8) -> (r: Self)
        ensures
            r.id == 0,
            r.qpn == spec_default_qpn(mgmt_class),
            r.mgmt_class == mgmt_class,
            r.mgmt_class_version == 1,
            r.rmpp_version == 0,
    {
        ib_user_mad_reg_req {
            id: 0,
            method_mask: [0u32; 4],
            qpn: if mgmt_class == 0x01 || mgmt_class == 0x81 { 0 } else { 1 },
            mgmt_class,
            mgmt_class_version: 1,
            oui: [0u8; 3],
            rmpp_version: 0,
        }
    }
}

} // verus!
