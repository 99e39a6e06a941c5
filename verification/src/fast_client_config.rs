//! Configuration of the userspace-NIC client: MAC address parsing and
//! the typed configuration record.
//!
//! A MAC address is written as six colon-separated hexadecimal
//! literals.  Each literal is parsed the way the standard library's
//! radix-16 integer parsing does: an optional leading `+`, then at
//! least one hexadecimal digit, rejecting anything else and any value
//! over one byte.

use vstd::prelude::*;
use vstd::string::StringSliceAdditionalSpecFns;

verus! {

/// The byte `:` separating the six groups of a MAC address.
pub const COLON: u8 = 58;

/// The byte `+`, accepted as an optional sign before a group.
pub const PLUS: u8 = 43;

/// Whether `b` is an ASCII hexadecimal digit.
pub open spec fn is_hex_digit(b: u8) -> bool {
    (48 <= b <= 57) || (97 <= b <= 102) || (65 <= b <= 70)
}

/// The value of the hexadecimal digit `b`.
pub open spec fn hex_val(b: u8) -> int
    recommends
        is_hex_digit(b),
{
    if 48 <= b <= 57 {
        b - 48
    } else if 97 <= b <= 102 {
        b - 87
    } else {
        b - 55
    }
}

/// The number the hexadecimal digit string `s` denotes.
pub open spec fn hex_value(s: Seq<u8>) -> int
    decreases s.len(),
{
    if s.len() == 0 {
        0
    } else {
        hex_value(s.drop_last()) * 16 + hex_val(s.last())
    }
}

/// A group with its optional leading `+` stripped.
pub open spec fn seg_body(seg: Seq<u8>) -> Seq<u8> {
    if seg.len() > 0 && seg[0] == PLUS {
        seg.drop_first()
    } else {
        seg
    }
}

/// Whether a group parses as one byte: after the optional `+`, at
/// least one character, all hexadecimal digits, and a value of at most
/// 255.
pub open spec fn seg_ok(seg: Seq<u8>) -> bool {
    &&& seg_body(seg).len() >= 1
    &&& forall|i: int| 0 <= i < seg_body(seg).len() ==> is_hex_digit(#[trigger] seg_body(seg)[i])
    &&& hex_value(seg_body(seg)) <= 255
}

/// The byte a valid group denotes.
pub open spec fn seg_value(seg: Seq<u8>) -> int {
    hex_value(seg_body(seg))
}

/// The groups of `s`, split on `:` (an empty string is one empty
/// group, and every separator adds a group, as the standard split
/// does).
pub open spec fn split_colon(s: Seq<u8>) -> Seq<Seq<u8>>
    decreases s.len(),
{
    if s.len() == 0 {
        seq![Seq::<u8>::empty()]
    } else if s[0] == COLON {
        seq![Seq::<u8>::empty()] + split_colon(s.drop_first())
    } else {
        let r = split_colon(s.drop_first());
        seq![seq![s[0]] + r[0]] + r.drop_first()
    }
}

/// Whether the bytes of a string are a well-formed MAC address: six
/// groups, each a valid byte.
pub open spec fn mac_ok(s: Seq<u8>) -> bool {
    &&& split_colon(s).len() == 6
    &&& forall|i: int| 0 <= i < 6 ==> seg_ok(#[trigger] split_colon(s)[i])
}

/// The six bytes a well-formed MAC address denotes.
pub open spec fn mac_value(s: Seq<u8>) -> Seq<u8> {
    Seq::new(6, |i: int| seg_value(split_colon(s)[i]) as u8)
}

/// Splitting never yields an empty group list.
pub proof fn lemma_split_nonempty(s: Seq<u8>)
    ensures
        split_colon(s).len() >= 1,
    decreases s.len(),
{
    if s.len() > 0 && s[0] != COLON {
        lemma_split_nonempty(s.drop_first());
    }
}

/// Splitting at the first separator: when the first `k` bytes hold no
/// separator and byte `k` (if any) is one, the group list is the head
/// group followed by the split of the rest.
pub proof fn lemma_split_at(s: Seq<u8>, k: int)
    requires
        0 <= k <= s.len(),
        forall|x: int| 0 <= x < k ==> s[x] != COLON,
        k < s.len() ==> s[k] == COLON,
    ensures
        k == s.len() ==> split_colon(s) =~~= seq![s],
        k < s.len() ==> split_colon(s) =~~= seq![s.subrange(0, k)] + split_colon(
            s.subrange(k + 1, s.len() as int),
        ),
    decreases s.len(),
{
    lemma_split_nonempty(s);
    if s.len() == 0 {
        assert(split_colon(s) =~~= seq![s]);
    } else if s[0] == COLON {
        assert(k == 0);
        assert(s.subrange(1, s.len() as int) =~= s.drop_first());
        assert(split_colon(s) =~~= seq![s.subrange(0, 0)] + split_colon(
            s.subrange(1, s.len() as int),
        ));
    } else {
        let d = s.drop_first();
        lemma_split_nonempty(d);
        lemma_split_at(d, k - 1);
        let r = split_colon(d);
        if k == s.len() {
            assert(r =~~= seq![d]);
            assert(seq![s[0]] + r[0] =~= s);
            assert(split_colon(s) =~~= seq![s]);
        } else {
            assert(r =~~= seq![d.subrange(0, k - 1)] + split_colon(
                d.subrange(k, d.len() as int),
            ));
            assert(r[0] == d.subrange(0, k - 1));
            assert(seq![s[0]] + d.subrange(0, k - 1) =~= s.subrange(0, k));
            assert(d.subrange(k, d.len() as int) =~= s.subrange(k + 1, s.len() as int));
            assert(r.drop_first() =~~= split_colon(s.subrange(k + 1, s.len() as int)));
            assert(split_colon(s) =~~= seq![s.subrange(0, k)] + split_colon(
                s.subrange(k + 1, s.len() as int),
            ));
        }
    }
}

/// Reported when a MAC address is malformed.
#[derive(Clone, Copy, Debug, PartialEq, Eq, Structural)]
pub struct ParseError;

impl ParseError {
    /// What went wrong, in words.
    pub fn description(&self) -> (r: &'static str)
        ensures
            r@ == "Malformed MAC address."@,
    {
        "Malformed MAC address."
    }
}

/// A hardware address: six bytes.
#[derive(Clone, Copy, Debug, PartialEq, Eq, Structural)]
pub struct MacAddress {
    /// The six bytes of the address, most significant first.
    pub a: u8,
    /// Second byte.
    pub b: u8,
    /// Third byte.
    pub c: u8,
    /// Fourth byte.
    pub d: u8,
    /// Fifth byte.
    pub e: u8,
    /// Sixth byte.
    pub f: u8,
}

impl MacAddress {
    /// The six bytes in order.
    pub open spec fn bytes(self) -> Seq<u8> {
        seq![self.a, self.b, self.c, self.d, self.e, self.f]
    }

    /// An address from its six bytes, most significant first.
    pub fn new(a: u8, b: u8, c: u8, d: u8, e: u8, f: u8) -> (r: MacAddress)
        ensures
            r.bytes() =~= seq![a, b, c, d, e, f],
    {
        MacAddress { a, b, c, d, e, f }
    }
}

/// Scan one group starting at `start`: find the next separator (or the
/// end) and parse the group before it.
fn parse_segment(bytes: &[u8], start: usize) -> (r: (usize, Option<u8>))
    requires
        start <= bytes@.len(),
    ensures
        start <= r.0 <= bytes@.len(),
        forall|x: int| start <= x < r.0 ==> bytes@[x] != COLON,
        r.0 < bytes@.len() ==> bytes@[r.0 as int] == COLON,
        (r.1 is Some) <==> seg_ok(bytes@.subrange(start as int, r.0 as int)),
        r.1 matches Some(v) ==> v == seg_value(bytes@.subrange(start as int, r.0 as int)),
{
    let n = bytes.len();
    let mut k = start;
    while k < n && bytes[k] != COLON
        invariant
            start <= k <= n,
            n == bytes@.len(),
            forall|x: int| start <= x < k ==> bytes@[x] != COLON,
        decreases n - k,
    {
        k = k + 1;
    }
    let ghost seg = bytes@.subrange(start as int, k as int);
    let body_start = if start < k && bytes[start] == PLUS {
        start + 1
    } else {
        start
    };
    proof {
        assert(seg_body(seg) =~= bytes@.subrange(body_start as int, k as int));
    }
    if body_start == k {
        return (k, None);
    }
    let mut val: u32 = 0;
    let mut m = body_start;
    while m < k
        invariant
            start <= body_start <= m <= k <= n,
            n == bytes@.len(),
            forall|x: int| start <= x < k ==> bytes@[x] != COLON,
            k < n ==> bytes@[k as int] == COLON,
            seg == bytes@.subrange(start as int, k as int),
            seg_body(seg) =~= bytes@.subrange(body_start as int, k as int),
            forall|x: int| body_start <= x < m ==> is_hex_digit(#[trigger] bytes@[x]),
            hex_value(bytes@.subrange(body_start as int, m as int)) <= 255 ==> val == hex_value(
                bytes@.subrange(body_start as int, m as int),
            ),
            hex_value(bytes@.subrange(body_start as int, m as int)) > 255 ==> val == 256,
            val <= 256,
        decreases k - m,
    {
        let ghost prefix = bytes@.subrange(body_start as int, m as int);
        let bch = bytes[m];
        if !((48 <= bch && bch <= 57) || (97 <= bch && bch <= 102) || (65 <= bch && bch <= 70)) {
            proof {
                assert(seg_body(seg)[m - body_start] == bytes@[m as int]);
                assert(!seg_ok(seg));
            }
            return (k, None);
        }
        let d: u32 = if 48 <= bch && bch <= 57 {
            (bch - 48) as u32
        } else if 97 <= bch && bch <= 102 {
            (bch - 87) as u32
        } else {
            (bch - 55) as u32
        };
        proof {
            assert(bytes@.subrange(body_start as int, m + 1) =~= prefix.push(bytes@[m as int]));
            assert(prefix.push(bytes@[m as int]).drop_last() =~= prefix);
        }
        if val > 255 || val * 16 + d > 255 {
            val = 256;
        } else {
            val = val * 16 + d;
        }
        m = m + 1;
    }
    proof {
        assert(bytes@.subrange(body_start as int, k as int) =~= seg_body(seg));
    }
    if val > 255 {
        (k, None)
    } else {
        (k, Some(val as u8))
    }
}

/// Parse `mac` as six colon-separated hexadecimal literals, or report
/// a [`ParseError`] for anything else.
pub fn parse_mac(mac: &str) -> (r: Result<MacAddress, ParseError>)
    ensures
        (r is Ok) <==> mac_ok(mac.spec_bytes()),
        r matches Ok(m) ==> m.bytes() =~= mac_value(mac.spec_bytes()),
{
    let bytes = mac.as_bytes();
    let n = bytes.len();
    let mut vals: Vec<u8> = Vec::new();
    let mut start: usize = 0;
    let ghost full = bytes@;
    let ghost mut done: Seq<Seq<u8>> = Seq::empty();
    proof {
        assert(full.subrange(0, n as int) =~= full);
        assert(Seq::<Seq<u8>>::empty() + split_colon(full) =~~= split_colon(full));
    }
    loop
        invariant_except_break
            split_colon(full) =~~= done + split_colon(full.subrange(start as int, n as int)),
        invariant
            start <= n,
            n == bytes@.len(),
            full == bytes@,
            full == mac.spec_bytes(),
            vals@.len() == done.len(),
            forall|i: int|
                0 <= i < done.len() ==> seg_ok(#[trigger] done[i]) && vals@[i] == seg_value(
                    done[i],
                ),
        ensures
            split_colon(full) =~~= done,
        decreases n - start,
    {
        let ghost s0 = start as int;
        let ghost rest = full.subrange(s0, n as int);
        let seg_result = parse_segment(bytes, start);
        let k = seg_result.0;
        let ghost seg = full.subrange(s0, k as int);
        proof {
            assert(forall|x: int|
                0 <= x < k - s0 ==> rest[x] == full[s0 + x] && #[trigger] rest[x] != COLON);
            assert(k < n ==> rest[k - s0] == COLON);
            lemma_split_at(rest, k - s0);
            assert(rest.subrange(0, k - s0) =~= seg);
            if k == n {
                assert(seg =~= rest);
                assert(split_colon(rest) =~~= seq![seg]);
            }
            assert(split_colon(rest)[0] == seg);
            lemma_split_nonempty(rest);
            assert(split_colon(full)[done.len() as int] == seg);
        }
        match seg_result.1 {
            Some(v) => {
                vals.push(v);
                proof {
                    done = done.push(seg);
                }
            },
            None => {
                proof {
                    if done.len() < 6 {
                        assert(!seg_ok(split_colon(full)[done.len() as int]));
                        assert(!mac_ok(full));
                    } else {
                        assert(split_colon(full).len() >= done.len() + 1);
                        assert(!mac_ok(full));
                    }
                }
                return Err(ParseError);
            },
        }
        if k == n {
            proof {
                assert(split_colon(full) =~~= done);
            }
            break ;
        }
        start = k + 1;
        proof {
            let x = split_colon(full.subrange(start as int, n as int));
            assert(rest.subrange(k - s0 + 1, rest.len() as int) =~= full.subrange(
                start as int,
                n as int,
            ));
            assert(split_colon(rest) =~~= seq![seg] + x);
            assert(done.drop_last() + (seq![seg] + x) =~~= done + x);
            assert(split_colon(full) =~~= done + x);
        }
    }
    if vals.len() == 6 {
        let m = MacAddress::new(vals[0], vals[1], vals[2], vals[3], vals[4], vals[5]);
        proof {
            assert(m.bytes() =~= mac_value(full));
        }
        Ok(m)
    } else {
        Err(ParseError)
    }
}

/// The typed configuration of the userspace-NIC client.
pub struct ClientConfig {
    /// The PCI address of the NIC to transmit and receive on.
    pub nic_pci: String,
    /// The client's MAC address, as text.
    pub client_mac: String,
    /// The server's MAC address, as text.
    pub server_mac: String,
    /// The client's IP address.
    pub client_ip: String,
    /// The server's IP address.
    pub server_ip: String,
    /// The number of tenants the client generates requests for.
    pub num_tenants: u64,
    /// The number of requests the client must generate.
    pub num_reqs: u64,
    /// The number of responses to receive before terminating.
    pub num_resps: u64,
    /// The request rate per second.
    pub req_rate: u64,
}

impl ClientConfig {
    /// Parse the client MAC address, which must be well-formed.
    pub fn parse_mac(&self) -> (r: MacAddress)
        requires
            mac_ok(vstd::utf8::encode_utf8(self.client_mac@)),
        ensures
            r.bytes() =~= mac_value(vstd::utf8::encode_utf8(self.client_mac@)),
    {
        let s = self.client_mac.as_str();
        match parse_mac(s) {
            Ok(m) => m,
            Err(_) => {
                proof {
                    assert(false);
                }
                MacAddress::new(0, 0, 0, 0, 0, 0)
            },
        }
    }

    /// Parse the server MAC address, which must be well-formed.
    pub fn parse_server_mac(&self) -> (r: MacAddress)
        requires
            mac_ok(vstd::utf8::encode_utf8(self.server_mac@)),
        ensures
            r.bytes() =~= mac_value(vstd::utf8::encode_utf8(self.server_mac@)),
    {
        let s = self.server_mac.as_str();
        match parse_mac(s) {
            Ok(m) => m,
            Err(_) => {
                proof {
                    assert(false);
                }
                MacAddress::new(0, 0, 0, 0, 0, 0)
            },
        }
    }
}

} // verus!
