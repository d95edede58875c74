//! Deterministic allocation of guest IPs, TAP names and MAC addresses.
//!
//! One subnet, host gateway at `base + 1`, guests from `base + 2` onwards, and
//! a locally administered MAC range `02:fc:00:00:hi:lo`.

use vstd::prelude::*;
use vstd::string::StringSliceAdditionalSpecFns;
use vstd::utf8::encode_utf8;

use crate::text::{chars_between, decimal, digit_char, parse_octet, str_chars, decimal_chars, hex, hex_chars, push_chars, zero_pad, zero_padded};

verus! {

/// An IPv4 address as its four octets, most significant first.
#[derive(Clone, Copy, Debug, PartialEq, Eq, Structural)]
pub struct Ipv4Addr {
    pub a: u8,
    pub b: u8,
    pub c: u8,
    pub d: u8,
}

/// The usual dotted-decimal rendering of an address.
pub open spec fn dotted(ip: Ipv4Addr) -> Seq<char> {
    decimal(ip.a as nat) + seq!['.'] + decimal(ip.b as nat) + seq!['.'] + decimal(ip.c as nat)
        + seq!['.'] + decimal(ip.d as nat)
}

impl Ipv4Addr {
    /// The address as a 32-bit big-endian number (what `u32::from` gives).
    pub open spec fn bits(self) -> nat {
        self.a as nat * 16777216 + self.b as nat * 65536 + self.c as nat * 256 + self.d as nat
    }

    pub fn new(a: u8, b: u8, c: u8, d: u8) -> (ip: Ipv4Addr)
        ensures
            ip == (Ipv4Addr { a, b, c, d }),
    {
        Ipv4Addr { a, b, c, d }
    }

    pub fn octets(&self) -> (o: [u8; 4])
        ensures
            o@ == seq![self.a, self.b, self.c, self.d],
    {
        let o = [self.a, self.b, self.c, self.d];
        assert(o@ =~= seq![self.a, self.b, self.c, self.d]);
        o
    }

    pub fn to_u32(&self) -> (r: u32)
        ensures
            r as nat == self.bits(),
    {
        self.a as u32 * 16777216 + self.b as u32 * 65536 + self.c as u32 * 256 + self.d as u32
    }

    pub fn from_u32(bits: u32) -> (ip: Ipv4Addr)
        ensures
            ip.bits() == bits as nat,
    {
        let a = (bits / 16777216) as u8;
        let b = ((bits / 65536) % 256) as u8;
        let c = ((bits / 256) % 256) as u8;
        let d = (bits % 256) as u8;
        let ip = Ipv4Addr { a, b, c, d };
        assert(ip.bits() == bits as nat) by (nonlinear_arith)
            requires
                a == bits / 16777216,
                b == (bits / 65536) % 256,
                c == (bits / 256) % 256,
                d == bits % 256,
                ip.bits() == a as nat * 16777216 + b as nat * 65536 + c as nat * 256 + d as nat,
        ;
        ip
    }

    /// The dotted-decimal text of the address.
    pub fn render(&self) -> (s: String)
        ensures
            s@ == dotted(*self),
    {
        let mut s = String::new();
        push_chars(&mut s, &decimal_chars(self.a as u64));
        let dot = vec!['.'];
        push_chars(&mut s, &dot);
        push_chars(&mut s, &decimal_chars(self.b as u64));
        push_chars(&mut s, &dot);
        push_chars(&mut s, &decimal_chars(self.c as u64));
        push_chars(&mut s, &dot);
        push_chars(&mut s, &decimal_chars(self.d as u64));
        s
    }
}


/// Why an allocation was refused.
#[derive(Clone, Debug)]
pub enum NetError {
    /// The prefix leaves fewer than four addresses in the subnet.
    PrefixTooLong { prefix_len: u8 },
    /// `base + offset` does not fit in an IPv4 address.
    AddressOverflow { offset: usize },
    /// The TAP name is longer than the 15 bytes Linux allows.
    TapNameTooLong { name: String },
    /// More guests than the 16-bit MAC allocator can number.
    TooManyVms,
}

/// The deterministic network layout of one launch.
#[derive(Clone, Debug)]
pub struct NetworkPlan {
    base: Ipv4Addr,
    prefix_len: u8,
}

/// The longest interface name Linux accepts, in bytes.
pub const MAX_TAP_NAME_LEN: usize = 15;

/// The largest guest index the MAC allocator numbers.
pub const MAX_MAC_INDEX: usize = 65535;

/// `base + offset` where the offset is first cut to 32 bits, as `offset as u32` does.
pub open spec fn offset_bits(base: Ipv4Addr, offset: usize) -> nat {
    base.bits() + (offset as u32) as nat
}

/// The TAP name for guest `index` under `prefix`.
pub open spec fn tap_name_text(prefix: Seq<char>, index: nat) -> Seq<char> {
    prefix + decimal(index)
}

/// Two lower-case hex digits of a byte (`{:02x}`).
pub open spec fn hex2(x: nat) -> Seq<char> {
    zero_pad(hex(x), 2)
}

/// The MAC address of guest `index`: `02:fc:00:00:hi:lo`.
pub open spec fn mac_text(index: nat) -> Seq<char> {
    seq!['0', '2', ':', 'f', 'c', ':', '0', '0', ':', '0', '0', ':'] + hex2((index / 256) % 256)
        + seq![':'] + hex2(index % 256)
}

impl NetworkPlan {
    pub closed spec fn base(self) -> Ipv4Addr {
        self.base
    }

    pub closed spec fn prefix_len(self) -> u8 {
        self.prefix_len
    }

    /// A plan is only made for prefixes that leave room for a gateway and guests.
    pub open spec fn wf(self) -> bool {
        self.prefix_len() <= 30
    }

    /// The address at `offset` from the base, if it fits in 32 bits.
    pub open spec fn spec_offset_ip(self, offset: usize) -> Result<nat, NetError> {
        if offset_bits(self.base(), offset) <= u32::MAX {
            Ok(offset_bits(self.base(), offset))
        } else {
            Err(NetError::AddressOverflow { offset })
        }
    }

    pub fn new(base: Ipv4Addr, prefix_len: u8) -> (r: Result<NetworkPlan, NetError>)
        ensures
            prefix_len > 30 <==> r is Err,
            r matches Err(e) ==> e == (NetError::PrefixTooLong { prefix_len }),
            r matches Ok(plan) ==> plan.base() == base && plan.prefix_len() == prefix_len
                && plan.wf(),
    {
        if prefix_len > 30 {
            return Err(NetError::PrefixTooLong { prefix_len });
        }
        Ok(NetworkPlan { base, prefix_len })
    }

    pub fn prefix(&self) -> (p: u8)
        ensures
            p == self.prefix_len(),
    {
        self.prefix_len
    }

    pub fn base_addr(&self) -> (b: Ipv4Addr)
        ensures
            b == self.base(),
    {
        self.base
    }

    fn offset_ip(&self, offset: usize) -> (r: Result<Ipv4Addr, NetError>)
        ensures
            match self.spec_offset_ip(offset) {
                Ok(bits) => r matches Ok(ip) && ip.bits() == bits,
                Err(e) => r matches Err(e2) && e2 == e,
            },
    {
        let base = self.base.to_u32();
        let off = offset as u32;
        match base.checked_add(off) {
            Some(candidate) => Ok(Ipv4Addr::from_u32(candidate)),
            None => Err(NetError::AddressOverflow { offset }),
        }
    }

    /// The host side of the subnet: `base + 1`.
    pub fn gateway(&self) -> (r: Result<Ipv4Addr, NetError>)
        ensures
            match self.spec_offset_ip(1) {
                Ok(bits) => r matches Ok(ip) && ip.bits() == bits,
                Err(e) => r matches Err(e2) && e2 == e,
            },
    {
        self.offset_ip(1)
    }

    /// What `guest_ip` answers for guest `index`: `base + index + 2`, or the
    /// overflow.
    pub open spec fn guest_ip_answer(self, index: usize, r: Result<Ipv4Addr, NetError>) -> bool {
        match self.spec_offset_ip((index + 2) as usize) {
            Ok(bits) => r matches Ok(ip) && ip.bits() == bits,
            Err(e) => r matches Err(e2) && e2 == e,
        }
    }

    /// What `guest_cidr` answers for guest `index`: the guest address in
    /// dotted decimal, `/` and the prefix length, or the overflow.
    pub open spec fn guest_cidr_answer(self, index: usize, r: Result<String, NetError>) -> bool {
        match self.spec_offset_ip((index + 2) as usize) {
            Ok(bits) => r matches Ok(s) && exists|ip: Ipv4Addr|
                ip.bits() == bits && s@ == dotted(ip) + seq!['/'] + decimal(
                    self.prefix_len() as nat,
                ),
            Err(e) => r matches Err(e2) && e2 == e,
        }
    }

    /// The address of guest `index`: `base + index + 2`.
    pub fn guest_ip(&self, index: usize) -> (r: Result<Ipv4Addr, NetError>)
        requires
            index + 2 <= usize::MAX,
        ensures
            self.guest_ip_answer(index, r),
    {
        self.offset_ip(index + 2)
    }

    /// The guest address with the prefix length, such as `192.168.100.2/24`.
    pub fn guest_cidr(&self, index: usize) -> (r: Result<String, NetError>)
        requires
            index + 2 <= usize::MAX,
        ensures
            self.guest_cidr_answer(index, r),
    {
        let ip = self.guest_ip(index)?;
        let mut s = ip.render();
        push_chars(&mut s, &vec!['/']);
        push_chars(&mut s, &decimal_chars(self.prefix_len as u64));
        assert(ip.bits() == offset_bits(self.base(), (index + 2) as usize) && s@ == dotted(ip)
            + seq!['/'] + decimal(self.prefix_len() as nat));
        Ok(s)
    }

    /// The TAP interface name of guest `index`: the prefix followed by the index.
    pub fn tap_name(&self, prefix: &str, index: usize) -> (r: Result<String, NetError>)
        ensures
            (encode_utf8(tap_name_text(prefix@, index as nat)).len() as usize) > MAX_TAP_NAME_LEN
                <==> r is Err,
            r matches Ok(s) ==> s@ == tap_name_text(prefix@, index as nat),
            r matches Err(e) ==> e matches NetError::TapNameTooLong { name }
                && name@ == tap_name_text(prefix@, index as nat),
    {
        let mut name = String::from_str(prefix);
        push_chars(&mut name, &decimal_chars(index as u64));
        let view = name.as_str();
        let byte_len = view.len();
        assert(view.spec_bytes() == encode_utf8(name@));
        if byte_len > MAX_TAP_NAME_LEN {
            return Err(NetError::TapNameTooLong { name });
        }
        Ok(name)
    }

    /// The MAC address of guest `index`, locally administered and unicast.
    pub fn mac_address(&self, index: usize) -> (r: Result<String, NetError>)
        ensures
            index > MAX_MAC_INDEX <==> r is Err,
            r matches Err(e) ==> e == NetError::TooManyVms,
            r matches Ok(s) ==> s@ == mac_text(index as nat),
    {
        if index > MAX_MAC_INDEX {
            return Err(NetError::TooManyVms);
        }
        let hi = ((index / 256) % 256) as u64;
        let lo = (index % 256) as u64;
        let mut s = String::new();
        let head = vec!['0', '2', ':', 'f', 'c', ':', '0', '0', ':', '0', '0', ':'];
        push_chars(&mut s, &head);
        push_chars(&mut s, &zero_padded(hex_chars(hi), 2));
        push_chars(&mut s, &vec![':']);
        push_chars(&mut s, &zero_padded(hex_chars(lo), 2));
        Ok(s)
    }
}


/// Distinct guests get distinct addresses, as long as neither index is so
/// large that `index + 2` wraps when cut to 32 bits.
pub proof fn law_guest_addresses_distinct(plan: NetworkPlan, i: usize, j: usize)
    requires
        i != j,
        i + 2 <= u32::MAX,
        j + 2 <= u32::MAX,
    ensures
        plan.spec_offset_ip((i + 2) as usize) matches Ok(x) ==> plan.spec_offset_ip(
            (j + 2) as usize,
        ) matches Ok(y) ==> x != y,
{
}

/// No guest is given the gateway's address (under the same bound on the index).
pub proof fn law_gateway_is_not_a_guest(plan: NetworkPlan, i: usize)
    requires
        i + 2 <= u32::MAX,
    ensures
        plan.spec_offset_ip(1) matches Ok(g) ==> plan.spec_offset_ip((i + 2) as usize) matches Ok(
            x,
        ) ==> g != x,
{
}

/// Distinct guest indices give distinct TAP names under one prefix.
pub proof fn law_tap_names_distinct(prefix: Seq<char>, i: nat, j: nat)
    requires
        i != j,
    ensures
        tap_name_text(prefix, i) != tap_name_text(prefix, j),
{
    if tap_name_text(prefix, i) == tap_name_text(prefix, j) {
        assert(tap_name_text(prefix, i).skip(prefix.len() as int) =~= decimal(i));
        assert(tap_name_text(prefix, j).skip(prefix.len() as int) =~= decimal(j));
        crate::text::lemma_decimal_injective(i, j);
    }
}

/// Distinct guest indices the MAC allocator accepts give distinct MAC addresses.
pub proof fn law_mac_addresses_distinct(i: nat, j: nat)
    requires
        i != j,
        i <= MAX_MAC_INDEX,
        j <= MAX_MAC_INDEX,
    ensures
        mac_text(i) != mac_text(j),
{
    crate::text::lemma_hex_byte((i / 256) % 256);
    crate::text::lemma_hex_byte(i % 256);
    crate::text::lemma_hex_byte((j / 256) % 256);
    crate::text::lemma_hex_byte(j % 256);
    if mac_text(i) == mac_text(j) {
        let mi = mac_text(i);
        let mj = mac_text(j);
        assert(mi[12] == digit_char(((i / 256) % 256) / 16));
        assert(mj[12] == digit_char(((j / 256) % 256) / 16));
        assert(mi[13] == digit_char(((i / 256) % 256) % 16));
        assert(mj[13] == digit_char(((j / 256) % 256) % 16));
        assert(mi[15] == digit_char((i % 256) / 16));
        assert(mj[15] == digit_char((j % 256) / 16));
        assert(mi[16] == digit_char((i % 256) % 16));
        assert(mj[16] == digit_char((j % 256) % 16));
        crate::text::lemma_digit_char_injective(((i / 256) % 256) / 16, ((j / 256) % 256) / 16);
        crate::text::lemma_digit_char_injective(((i / 256) % 256) % 16, ((j / 256) % 256) % 16);
        crate::text::lemma_digit_char_injective((i % 256) / 16, (j % 256) / 16);
        crate::text::lemma_digit_char_injective((i % 256) % 16, (j % 256) % 16);
    }
}


fn find_dot(cs: &Vec<char>, from: usize) -> (r: Option<usize>)
    requires
        from <= cs.len(),
    ensures
        r matches Some(k) ==> from <= k < cs.len() && cs@[k as int] == '.' && forall|j: int|
            from <= j < k ==> cs@[j] != '.',
        r is None ==> forall|j: int| from <= j < cs.len() ==> cs@[j] != '.',
{
    let mut k = from;
    while k < cs.len()
        invariant
            from <= k <= cs.len(),
            forall|j: int| from <= j < k ==> cs@[j] != '.',
        decreases cs.len() - k,
    {
        if cs[k] == '.' {
            return Some(k);
        }
        k = k + 1;
    }
    None
}

/// Where the dots and digit runs of `dotted(ip)` lie.
proof fn lemma_dotted_shape(ip: Ipv4Addr)
    ensures
        ({
            let s = dotted(ip);
            let la = decimal(ip.a as nat).len() as int;
            let lb = decimal(ip.b as nat).len() as int;
            let lc = decimal(ip.c as nat).len() as int;
            let ld = decimal(ip.d as nat).len() as int;
            &&& s.len() == la + lb + lc + ld + 3
            &&& s[la] == '.'
            &&& s[la + 1 + lb] == '.'
            &&& s[la + 1 + lb + 1 + lc] == '.'
            &&& forall|j: int| 0 <= j < la ==> s[j] != '.'
            &&& forall|j: int| la + 1 <= j < la + 1 + lb ==> s[j] != '.'
            &&& forall|j: int| la + 1 + lb + 1 <= j < la + 1 + lb + 1 + lc ==> s[j] != '.'
            &&& s.subrange(0, la) == decimal(ip.a as nat)
            &&& s.subrange(la + 1, la + 1 + lb) == decimal(ip.b as nat)
            &&& s.subrange(la + 1 + lb + 1, la + 1 + lb + 1 + lc) == decimal(ip.c as nat)
            &&& s.subrange(la + 1 + lb + 1 + lc + 1, s.len() as int) == decimal(ip.d as nat)
        }),
{
    let s = dotted(ip);
    let da = decimal(ip.a as nat);
    let db = decimal(ip.b as nat);
    let dc = decimal(ip.c as nat);
    let dd = decimal(ip.d as nat);
    crate::text::lemma_decimal_digits(ip.a as nat);
    crate::text::lemma_decimal_digits(ip.b as nat);
    crate::text::lemma_decimal_digits(ip.c as nat);
    crate::text::lemma_decimal_digits(ip.d as nat);
    let la = da.len() as int;
    let lb = db.len() as int;
    let lc = dc.len() as int;
    assert(s.subrange(0, la) =~= da);
    assert(s.subrange(la + 1, la + 1 + lb) =~= db);
    assert(s.subrange(la + 1 + lb + 1, la + 1 + lb + 1 + lc) =~= dc);
    assert(s.subrange(la + 1 + lb + 1 + lc + 1, s.len() as int) =~= dd);
    assert forall|j: int| 0 <= j < la implies s[j] != '.' by {
        assert(s[j] == da[j]);
        assert(crate::text::is_digit(da[j]));
    }
    assert forall|j: int| la + 1 <= j < la + 1 + lb implies s[j] != '.' by {
        assert(s[j] == db[j - la - 1]);
        assert(crate::text::is_digit(db[j - la - 1]));
    }
    assert forall|j: int| la + 1 + lb + 1 <= j < la + 1 + lb + 1 + lc implies s[j] != '.' by {
        assert(s[j] == dc[j - la - 1 - lb - 1]);
        assert(crate::text::is_digit(dc[j - la - 1 - lb - 1]));
    }
}

impl Ipv4Addr {
    /// Reads dotted-decimal text the way `Ipv4Addr::from_str` does: exactly
    /// four octets of one to three digits, no leading zeros, each below 256.
    /// That is, `s` is read as `ip` exactly when it is `ip`'s rendering.
    pub fn parse(s: &str) -> (r: Option<Ipv4Addr>)
        ensures
            r matches Some(ip) ==> s@ == dotted(ip),
            forall|ip: Ipv4Addr| s@ == dotted(ip) ==> r == Some(ip),
    {
        let cs = str_chars(s);
        let n = cs.len();
        let k1 = match find_dot(&cs, 0) {
            Some(k) => k,
            None => {
                proof {
                    assert forall|ip: Ipv4Addr| s@ != dotted(ip) by {
                        lemma_dotted_shape(ip);
                        if s@ == dotted(ip) {
                            assert(cs@[decimal(ip.a as nat).len() as int] == '.');
                        }
                    }
                }
                return None;
            },
        };
        let a = match parse_octet(&chars_between(&cs, 0, k1)) {
            Some(v) => v,
            None => {
                proof {
                    assert forall|ip: Ipv4Addr| s@ != dotted(ip) by {
                        lemma_dotted_shape(ip);
                        if s@ == dotted(ip) {
                            let la = decimal(ip.a as nat).len() as int;
                            assert(k1 <= la);
                            assert(k1 == la);
                        }
                    }
                }
                return None;
            },
        };
        let k2 = match find_dot(&cs, k1 + 1) {
            Some(k) => k,
            None => {
                proof {
                    assert forall|ip: Ipv4Addr| s@ != dotted(ip) by {
                        lemma_dotted_shape(ip);
                        if s@ == dotted(ip) {
                            let la = decimal(ip.a as nat).len() as int;
                            let lb = decimal(ip.b as nat).len() as int;
                            assert(k1 == la);
                            assert(cs@[la + 1 + lb] == '.');
                        }
                    }
                }
                return None;
            },
        };
        let b = match parse_octet(&chars_between(&cs, k1 + 1, k2)) {
            Some(v) => v,
            None => {
                proof {
                    assert forall|ip: Ipv4Addr| s@ != dotted(ip) by {
                        lemma_dotted_shape(ip);
                        if s@ == dotted(ip) {
                            let la = decimal(ip.a as nat).len() as int;
                            let lb = decimal(ip.b as nat).len() as int;
                            assert(k1 == la);
                            assert(k2 <= la + 1 + lb);
                            assert(k2 == la + 1 + lb);
                        }
                    }
                }
                return None;
            },
        };
        let k3 = match find_dot(&cs, k2 + 1) {
            Some(k) => k,
            None => {
                proof {
                    assert forall|ip: Ipv4Addr| s@ != dotted(ip) by {
                        lemma_dotted_shape(ip);
                        if s@ == dotted(ip) {
                            let la = decimal(ip.a as nat).len() as int;
                            let lb = decimal(ip.b as nat).len() as int;
                            let lc = decimal(ip.c as nat).len() as int;
                            assert(k1 == la);
                            assert(k2 == la + 1 + lb);
                            assert(cs@[la + 1 + lb + 1 + lc] == '.');
                        }
                    }
                }
                return None;
            },
        };
        let c = match parse_octet(&chars_between(&cs, k2 + 1, k3)) {
            Some(v) => v,
            None => {
                proof {
                    assert forall|ip: Ipv4Addr| s@ != dotted(ip) by {
                        lemma_dotted_shape(ip);
                        if s@ == dotted(ip) {
                            let la = decimal(ip.a as nat).len() as int;
                            let lb = decimal(ip.b as nat).len() as int;
                            let lc = decimal(ip.c as nat).len() as int;
                            assert(k1 == la);
                            assert(k2 == la + 1 + lb);
                            assert(k3 <= la + 1 + lb + 1 + lc);
                            assert(k3 == la + 1 + lb + 1 + lc);
                        }
                    }
                }
                return None;
            },
        };
        let d = match parse_octet(&chars_between(&cs, k3 + 1, n)) {
            Some(v) => v,
            None => {
                proof {
                    assert forall|ip: Ipv4Addr| s@ != dotted(ip) by {
                        lemma_dotted_shape(ip);
                        if s@ == dotted(ip) {
                            let la = decimal(ip.a as nat).len() as int;
                            let lb = decimal(ip.b as nat).len() as int;
                            let lc = decimal(ip.c as nat).len() as int;
                            assert(k1 == la);
                            assert(k2 == la + 1 + lb);
                            assert(k3 == la + 1 + lb + 1 + lc);
                        }
                    }
                }
                return None;
            },
        };
        let ip = Ipv4Addr { a, b, c, d };
        assert(cs@ =~= cs@.subrange(0, k1 as int) + seq!['.'] + cs@.subrange(k1 + 1, k2 as int)
            + seq!['.'] + cs@.subrange(k2 + 1, k3 as int) + seq!['.'] + cs@.subrange(
            k3 + 1,
            n as int,
        ));
        proof {
            assert forall|other: Ipv4Addr| s@ == dotted(other) implies other == ip by {
                lemma_dotted_shape(other);
                let la = decimal(other.a as nat).len() as int;
                let lb = decimal(other.b as nat).len() as int;
                let lc = decimal(other.c as nat).len() as int;
                assert(k1 == la);
                assert(k2 == la + 1 + lb);
                assert(k3 == la + 1 + lb + 1 + lc);
            }
        }
        Some(ip)
    }
}


/// Distinct addresses render differently.
pub proof fn lemma_dotted_injective(x: Ipv4Addr, y: Ipv4Addr)
    requires
        dotted(x) == dotted(y),
    ensures
        x == y,
{
    lemma_dotted_shape(x);
    lemma_dotted_shape(y);
    let s = dotted(x);
    let xa = decimal(x.a as nat).len() as int;
    let ya = decimal(y.a as nat).len() as int;
    let xb = decimal(x.b as nat).len() as int;
    let yb = decimal(y.b as nat).len() as int;
    let xc = decimal(x.c as nat).len() as int;
    let yc = decimal(y.c as nat).len() as int;
    // the first dot sits right after the first octet in both renderings
    if xa < ya {
        assert(s[xa] == '.');
    } else if ya < xa {
        assert(s[ya] == '.');
    }
    assert(xa == ya);
    if xb < yb {
        assert(s[xa + 1 + xb] == '.');
    } else if yb < xb {
        assert(s[ya + 1 + yb] == '.');
    }
    assert(xb == yb);
    if xc < yc {
        assert(s[xa + 1 + xb + 1 + xc] == '.');
    } else if yc < xc {
        assert(s[ya + 1 + yb + 1 + yc] == '.');
    }
    assert(xc == yc);
    crate::text::lemma_decimal_injective(x.a as nat, y.a as nat);
    crate::text::lemma_decimal_injective(x.b as nat, y.b as nat);
    crate::text::lemma_decimal_injective(x.c as nat, y.c as nat);
    crate::text::lemma_decimal_injective(x.d as nat, y.d as nat);
}

/// Addresses with the same 32-bit value are the same address.
pub proof fn lemma_bits_injective(x: Ipv4Addr, y: Ipv4Addr)
    requires
        x.bits() == y.bits(),
    ensures
        x == y,
{
    assert(x.a == y.a && x.b == y.b && x.c == y.c && x.d == y.d) by (nonlinear_arith)
        requires
            x.a as nat * 16777216 + x.b as nat * 65536 + x.c as nat * 256 + x.d as nat == y.a as nat
                * 16777216 + y.b as nat * 65536 + y.c as nat * 256 + y.d as nat,
            x.a < 256,
            x.b < 256,
            x.c < 256,
            x.d < 256,
            y.a < 256,
            y.b < 256,
            y.c < 256,
            y.d < 256,
    ;
}

/// A guest's address with prefix is refused exactly when its address is, with
/// the same error; otherwise it is that address, `/` and the prefix length.
pub proof fn law_guest_cidr_is_guest_ip_with_prefix(
    plan: NetworkPlan,
    index: usize,
    ip: Result<Ipv4Addr, NetError>,
    cidr: Result<String, NetError>,
)
    requires
        plan.guest_ip_answer(index, ip),
        plan.guest_cidr_answer(index, cidr),
    ensures
        ip is Ok <==> cidr is Ok,
        ip matches Err(e) ==> (cidr matches Err(e2) && e2 == e),
        ip matches Ok(a) ==> (cidr matches Ok(s) && s@ == dotted(a) + seq!['/'] + decimal(
            plan.prefix_len() as nat,
        )),
{
    if let Ok(a) = ip {
        if let Ok(s) = cidr {
            let x = choose|x: Ipv4Addr|
                x.bits() == a.bits() && s@ == dotted(x) + seq!['/'] + decimal(
                    plan.prefix_len() as nat,
                );
            lemma_bits_injective(x, a);
        }
    }
}

} // verus!
