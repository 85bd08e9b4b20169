//! IPv4 networks in the notation of ACL rules.

use crate::ordered::{Key, Value};
use crate::text::{
    all_digits, decimal, digits_up_to, digits_value, has_prefix, lemma_decimal_digits,
    lemma_decimal_no_leading_zero, lemma_pieces_push, lemma_pieces_single, parse_digits, pieces,
    split, starts_with, trim, trimmed, trimmed_end, trimmed_start, u64_text, white, Order,
};
use vstd::prelude::*;
use vstd::string::*;

verus! {

/// The number of addresses that share all but the last `bits` bits.
pub open spec fn block(bits: nat) -> nat
    decreases bits,
{
    if bits == 0 {
        1
    } else {
        2 * block((bits - 1) as nat)
    }
}

proof fn lemma_block_divides(bits: nat)
    requires
        bits <= 32,
    ensures
        block(bits) > 0,
        block(bits) * block((32 - bits) as nat) == 0x1_0000_0000,
    decreases bits,
{
    if bits == 0 {
        assert(block(32) == 0x1_0000_0000) by {
            reveal_with_fuel(block, 33);
        }
        assert(block(0) == 1);
        assert(1 * block(32) == block(32));
    } else {
        lemma_block_divides((bits - 1) as nat);
        let a = block((bits - 1) as nat);
        let b = block((32 - bits) as nat);
        assert(block((32 - (bits - 1)) as nat) == 2 * b);
        assert((2 * a) * b == a * (2 * b)) by (nonlinear_arith);
    }
}

/// Every block holds at least one address.
pub proof fn lemma_block_positive(bits: nat)
    ensures
        block(bits) > 0,
    decreases bits,
{
    if bits > 0 {
        lemma_block_positive((bits - 1) as nat);
    }
}

/// The first address of the block that an address lies in fits a 32-bit block.
proof fn lemma_block_start(address: nat, bits: nat)
    requires
        bits <= 32,
        address < 0x1_0000_0000,
    ensures
        block(bits) > 0,
        address - address % block(bits) >= 0,
        (address - address % block(bits)) % (block(bits) as int) == 0,
        address - address % block(bits) + block(bits) <= 0x1_0000_0000,
{
    lemma_block_divides(bits);
    let size = block(bits) as int;
    let count = block((32 - bits) as nat) as int;
    let a = address as int;
    let q = a / size;
    vstd::arithmetic::div_mod::lemma_fundamental_div_mod(a, size);
    assert(a - a % size == q * size) by (nonlinear_arith)
        requires
            a == size * q + a % size,
    ;
    vstd::arithmetic::div_mod::lemma_mod_multiples_basic(q, size);
    vstd::arithmetic::div_mod::lemma_mod_bound(a, size);
    assert(q < count) by (nonlinear_arith)
        requires
            q * size <= a,
            a < 0x1_0000_0000,
            size * count == 0x1_0000_0000,
            size > 0,
    ;
    assert(q * size + size <= 0x1_0000_0000) by (nonlinear_arith)
        requires
            q < count,
            size * count == 0x1_0000_0000,
            size > 0,
    ;
}

/// A network address and the number of its leading bits that are fixed.
#[derive(Clone, Copy, Debug, PartialEq, Eq)]
pub struct AclIpv4Cidr {
    network: u32,
    prefix: u8,
}

/// The model of a network: its first address and its prefix length.
pub struct CidrModel {
    pub network: u32,
    pub prefix: u8,
}

impl CidrModel {
    /// The last address of the network.
    pub open spec fn end(self) -> int {
        self.network + block((32 - self.prefix) as nat) - 1
    }

    /// True when an address lies in the network.
    pub open spec fn covers(self, address: int) -> bool {
        self.network <= address <= self.end()
    }

    /// True when the first address of the network starts a block of its size.
    pub open spec fn valid(self) -> bool {
        &&& self.prefix <= 32
        &&& self.network as int % block((32 - self.prefix) as nat) as int == 0
        &&& self.end() < 0x1_0000_0000
    }
}

/// The value of an octet: at most 255, written without leading zeros.
pub open spec fn octet_value(s: Seq<char>) -> Option<nat> {
    if s.len() > 1 && s[0] == '0' {
        None
    } else {
        digits_up_to(s, 255)
    }
}

/// The address that four dotted octets stand for.
pub open spec fn address_value(s: Seq<char>) -> Option<nat> {
    let octets = pieces(s, '.');
    if octets.len() != 4 {
        None
    } else {
        match (
            octet_value(octets[0]),
            octet_value(octets[1]),
            octet_value(octets[2]),
            octet_value(octets[3]),
        ) {
            (Some(a), Some(b), Some(c), Some(d)) => Some(
                a * 0x100_0000 + b * 0x1_0000 + c * 0x100 + d,
            ),
            _ => None,
        }
    }
}

/// The network that a text names, if it is one: an address, a slash and a
/// prefix length of at most 32, with white space allowed around them.
pub open spec fn cidr_value(s: Seq<char>) -> Option<CidrModel> {
    let parts = pieces(trimmed(s), '/');
    if parts.len() != 2 {
        None
    } else {
        match (address_value(parts[0]), digits_up_to(parts[1], 32)) {
            (Some(address), Some(prefix)) => Some(
                CidrModel {
                    network: (address - address % block((32 - prefix) as nat)) as u32,
                    prefix: prefix as u8,
                },
            ),
            _ => None,
        }
    }
}

/// An address as four dotted octets.
pub open spec fn dotted(address: nat) -> Seq<char> {
    (((((decimal(address / 0x100_0000).push('.')) + decimal(address / 0x1_0000 % 0x100)).push('.'))
        + decimal(address / 0x100 % 0x100)).push('.')) + decimal(address % 0x100)
}

/// The canonical notation of a network.
pub open spec fn cidr_text(c: CidrModel) -> Seq<char> {
    dotted(c.network as nat).push('/') + decimal(c.prefix as nat)
}

/// The error text of a text that names no network.
pub open spec fn invalid_cidr(value: Seq<char>) -> Seq<char> {
    "invalid IPv4 CIDR "@ + value
}

impl DeepView for AclIpv4Cidr {
    type V = CidrModel;

    closed spec fn deep_view(&self) -> CidrModel {
        CidrModel { network: self.network, prefix: self.prefix }
    }
}

impl Value for AclIpv4Cidr {
    fn duplicate(&self) -> (r: Self) {
        *self
    }

    fn same(&self, other: &Self) -> (r: bool) {
        self.network == other.network && self.prefix == other.prefix
    }
}

impl Key for AclIpv4Cidr {
    open spec fn precedes(a: CidrModel, b: CidrModel) -> bool {
        a.network < b.network || (a.network == b.network && a.prefix < b.prefix)
    }

    proof fn irreflexive(a: CidrModel) {
    }

    proof fn transitive(a: CidrModel, b: CidrModel, c: CidrModel) {
    }

    proof fn total(a: CidrModel, b: CidrModel) {
    }

    fn order(&self, other: &Self) -> (r: Order) {
        if self.network < other.network {
            Order::Before
        } else if other.network < self.network {
            Order::After
        } else if self.prefix < other.prefix {
            Order::Before
        } else if other.prefix < self.prefix {
            Order::After
        } else {
            Order::Same
        }
    }
}

fn block_size(bits: u8) -> (r: u64)
    requires
        bits <= 32,
    ensures
        r == block(bits as nat),
        0 < r <= 0x1_0000_0000,
    decreases bits,
{
    proof {
        lemma_block_divides(bits as nat);
        assert(block(bits as nat) <= 0x1_0000_0000) by (nonlinear_arith)
            requires
                block(bits as nat) * block((32 - bits) as nat) == 0x1_0000_0000,
                block(bits as nat) > 0,
        ;
    }
    if bits == 0 {
        1
    } else {
        2 * block_size(bits - 1)
    }
}

fn parse_octet(s: &str) -> (r: Option<u32>)
    ensures
        match r {
            Some(n) => octet_value(s@) == Some(n as nat) && n <= 255,
            None => octet_value(s@) is None,
        },
{
    proof {
        reveal_strlit("0");
        assert("0"@ =~= seq!['0']);
        if has_prefix(s@, "0"@) {
            assert(s@.take(1)[0] == '0');
        } else if s@.len() > 0 {
            assert(s@.take(1) =~= seq![s@[0]]);
        }
    }
    if s.unicode_len() > 1 && starts_with(s, "0") {
        return None;
    }
    parse_digits(s, 255)
}

fn parse_address(s: &str) -> (r: Option<u32>)
    ensures
        match r {
            Some(n) => address_value(s@) == Some(n as nat),
            None => address_value(s@) is None,
        },
{
    let octets = split(s, '.');
    let ghost parts = octets.deep_view();
    if octets.len() != 4 {
        return None;
    }
    assert(parts[0] == octets@[0]@ && parts[1] == octets@[1]@ && parts[2] == octets@[2]@
        && parts[3] == octets@[3]@);
    let a = parse_octet(octets[0].as_str());
    let b = parse_octet(octets[1].as_str());
    let c = parse_octet(octets[2].as_str());
    let d = parse_octet(octets[3].as_str());
    match (a, b, c, d) {
        (Some(a), Some(b), Some(c), Some(d)) => Some(
            a * 0x100_0000 + b * 0x1_0000 + c * 0x100 + d,
        ),
        _ => None,
    }
}

fn invalid(value: &str) -> (r: String)
    ensures
        r@ == invalid_cidr(value@),
{
    let mut r = "invalid IPv4 CIDR ".to_owned();
    r.append(value);
    r
}

impl AclIpv4Cidr {
    #[verifier::type_invariant]
    spec fn well_formed(self) -> bool {
        self.deep_view().valid()
    }

    /// The first address of the network.
    pub fn network(&self) -> (r: u32)
        ensures
            r == self.deep_view().network,
            self.deep_view().valid(),
    {
        proof {
            use_type_invariant(self);
        }
        self.network
    }

    /// The number of fixed leading bits.
    pub fn prefix(&self) -> (r: u8)
        ensures
            r == self.deep_view().prefix,
            self.deep_view().valid(),
    {
        proof {
            use_type_invariant(self);
        }
        self.prefix
    }

    /// Reads a network and clears the host bits of its address.
    pub fn parse(value: &str) -> (r: Result<AclIpv4Cidr, String>)
        ensures
            match r {
                Ok(cidr) => cidr_value(value@) == Some(cidr.deep_view()),
                Err(error) => cidr_value(value@) is None && error@ == invalid_cidr(value@),
            },
    {
        let text = trim(value);
        let parts = split(text, '/');
        let ghost models = parts.deep_view();
        if parts.len() != 2 {
            return Err(invalid(value));
        }
        assert(models[0] == parts@[0]@ && models[1] == parts@[1]@);
        let address = match parse_address(parts[0].as_str()) {
            Some(address) => address,
            None => {
                return Err(invalid(value));
            },
        };
        let prefix = match parse_digits(parts[1].as_str(), 32) {
            Some(prefix) => prefix,
            None => {
                return Err(invalid(value));
            },
        };
        let bits: u8 = 32 - prefix as u8;
        let size: u64 = block_size(bits);
        proof {
            lemma_block_start(address as nat, bits as nat);
            vstd::arithmetic::div_mod::lemma_mod_bound(address as int, size as int);
        }
        let network: u32 = (address as u64 - address as u64 % size) as u32;
        Ok(AclIpv4Cidr { network, prefix: prefix as u8 })
    }

    /// The last address of the network.
    pub fn end(self) -> (r: u32)
        ensures
            r == self.deep_view().end(),
    {
        proof {
            use_type_invariant(&self);
        }
        let size: u64 = block_size(32 - self.prefix);
        (self.network as u64 + size - 1) as u32
    }

    /// The canonical notation of the network.
    pub fn canonical(self) -> (r: String)
        ensures
            r@ == cidr_text(self.deep_view()),
    {
        let n: u64 = self.network as u64;
        let mut r = u64_text(n / 0x100_0000);
        r.push('.');
        r.append(u64_text(n / 0x1_0000 % 0x100).as_str());
        r.push('.');
        r.append(u64_text(n / 0x100 % 0x100).as_str());
        r.push('.');
        r.append(u64_text(n % 0x100).as_str());
        r.push('/');
        r.append(u64_text(self.prefix as u64).as_str());
        r
    }
}

proof fn lemma_octet_text(n: nat)
    requires
        n <= 255,
    ensures
        octet_value(decimal(n)) == Some(n),
        decimal(n).len() > 0,
        !decimal(n).contains('.'),
        !decimal(n).contains('/'),
        forall|i: int| 0 <= i < decimal(n).len() ==> !white(#[trigger] decimal(n)[i]),
{
    lemma_decimal_digits(n);
    lemma_decimal_no_leading_zero(n);
    let s = decimal(n);
    assert forall|i: int| 0 <= i < s.len() implies s[i] != '.' && s[i] != '/' && !white(
        #[trigger] s[i],
    ) by {}
}

proof fn lemma_push_lacks(a: Seq<char>, b: Seq<char>, c: char, sep: char)
    requires
        !a.contains(c),
        !b.contains(c),
        c != sep,
    ensures
        !(a.push(sep) + b).contains(c),
{
    let s = a.push(sep) + b;
    assert forall|i: int| 0 <= i < s.len() implies s[i] != c by {
        if i < a.len() {
            assert(a.contains(a[i]));
        } else if i > a.len() {
            assert(b.contains(b[i - a.len() - 1]));
        }
    }
}

proof fn lemma_dotted_pieces(a: Seq<char>, b: Seq<char>, g: Seq<char>, d: Seq<char>)
    requires
        !a.contains('.') && !b.contains('.') && !g.contains('.') && !d.contains('.'),
        !a.contains('/') && !b.contains('/') && !g.contains('/') && !d.contains('/'),
    ensures
        ({
            let whole = ((a.push('.') + b).push('.') + g).push('.') + d;
            &&& pieces(whole, '.') == seq![a, b, g, d]
            &&& !whole.contains('/')
        }),
{
    let ab = a.push('.') + b;
    let abg = ab.push('.') + g;
    lemma_pieces_single(a, '.');
    lemma_pieces_push(a, b, '.');
    lemma_pieces_push(ab, g, '.');
    lemma_pieces_push(abg, d, '.');
    assert(pieces(abg.push('.') + d, '.') =~= seq![a, b, g, d]);
    lemma_push_lacks(a, b, '/', '.');
    lemma_push_lacks(ab, g, '/', '.');
    lemma_push_lacks(abg, d, '/', '.');
}

proof fn lemma_octets(n: nat)
    requires
        n < 0x1_0000_0000,
    ensures
        n / 0x100_0000 <= 255,
        n / 0x1_0000 % 0x100 <= 255,
        n / 0x100 % 0x100 <= 255,
        n % 0x100 <= 255,
        n / 0x100_0000 * 0x100_0000 + n / 0x1_0000 % 0x100 * 0x1_0000 + n / 0x100 % 0x100 * 0x100
            + n % 0x100 == n,
{
}

proof fn lemma_dotted_value(n: nat, a: nat, b: nat, g: nat, d: nat)
    requires
        a <= 255 && b <= 255 && g <= 255 && d <= 255,
        dotted(n) == ((decimal(a).push('.') + decimal(b)).push('.') + decimal(g)).push('.')
            + decimal(d),
    ensures
        address_value(dotted(n)) == Some(a * 0x100_0000 + b * 0x1_0000 + g * 0x100 + d),
        !dotted(n).contains('/'),
        dotted(n).len() > 0,
        !white(dotted(n)[0]),
{
    lemma_octet_text(a);
    lemma_octet_text(b);
    lemma_octet_text(g);
    lemma_octet_text(d);
    lemma_dotted_pieces(decimal(a), decimal(b), decimal(g), decimal(d));
    assert(dotted(n)[0] == decimal(a)[0]);
}

proof fn lemma_dotted(n: nat)
    requires
        n < 0x1_0000_0000,
    ensures
        address_value(dotted(n)) == Some(n),
        !dotted(n).contains('/'),
        dotted(n).len() > 0,
        !white(dotted(n)[0]),
{
    lemma_octets(n);
    lemma_dotted_value(
        n,
        n / 0x100_0000,
        n / 0x1_0000 % 0x100,
        n / 0x100 % 0x100,
        n % 0x100,
    );
}

/// Reading the canonical notation of a network gives the network back.
pub proof fn cidr_text_reads_back(c: CidrModel)
    requires
        c.valid(),
    ensures
        cidr_value(cidr_text(c)) == Some(c),
{
    let dot = dotted(c.network as nat);
    let p = decimal(c.prefix as nat);
    let whole = cidr_text(c);
    lemma_dotted(c.network as nat);
    lemma_octet_text(c.prefix as nat);
    lemma_decimal_digits(c.prefix as nat);
    lemma_pieces_single(dot, '/');
    lemma_pieces_push(dot, p, '/');
    assert(pieces(whole, '/') =~= seq![dot, p]);
    assert(whole[0] == dot[0]);
    assert(whole.last() == p.last());
    assert(trimmed_start(whole) == whole);
    assert(trimmed_end(whole) == whole);
}

proof fn lemma_address_bound(s: Seq<char>)
    ensures
        address_value(s) matches Some(address) ==> address < 0x1_0000_0000,
{
}

/// A network that is read starts where its block does: it covers the address it is written with,
/// and with it exactly the addresses that agree with it in the leading bits.
pub proof fn networks_cover_their_block(s: Seq<char>)
    ensures
        cidr_value(s) matches Some(c) ==> {
            let written = address_value(pieces(trimmed(s), '/')[0])->0;
            let size = block((32 - c.prefix) as nat) as int;
            &&& c.valid()
            &&& Some(c.prefix as nat) == digits_up_to(pieces(trimmed(s), '/')[1], 32)
            &&& c.covers(written as int)
            &&& forall|address: int|
                0 <= address < 0x1_0000_0000 ==> (#[trigger] c.covers(address) <==> address / size
                    == written as int / size)
        },
{
    if let Some(c) = cidr_value(s) {
        let parts = pieces(trimmed(s), '/');
        lemma_address_bound(parts[0]);
        let written = address_value(parts[0])->0;
        let prefix = digits_up_to(parts[1], 32)->0;
        let size = block((32 - prefix) as nat) as int;
        lemma_block_start(written, (32 - prefix) as nat);
        let q = written as int / size;
        vstd::arithmetic::div_mod::lemma_fundamental_div_mod(written as int, size);
        vstd::arithmetic::div_mod::lemma_mod_bound(written as int, size);
        assert(c.network == q * size) by (nonlinear_arith)
            requires
                written as int == size * q + written as int % size,
                c.network == written as int - written as int % size,
        ;
        assert forall|address: int| 0 <= address < 0x1_0000_0000 implies (#[trigger] c.covers(
            address,
        ) <==> address / size == q) by {
            vstd::arithmetic::div_mod::lemma_fundamental_div_mod(address, size);
            vstd::arithmetic::div_mod::lemma_mod_bound(address, size);
            let p = address / size;
            if p == q {
                assert(q * size <= address <= q * size + size - 1) by (nonlinear_arith)
                    requires
                        address == size * p + address % size,
                        p == q,
                        0 <= address % size < size,
                ;
            } else if p < q {
                assert(address < q * size) by (nonlinear_arith)
                    requires
                        address == size * p + address % size,
                        p < q,
                        0 <= address % size < size,
                ;
            } else {
                assert(address >= q * size + size) by (nonlinear_arith)
                    requires
                        address == size * p + address % size,
                        p > q,
                        0 <= address % size < size,
                ;
            }
        }
    }
}

/// An address is four numbers of one byte, without needless zeros and separated by points, the first
/// of them the most significant; anything else is none.
pub proof fn addresses_are_four_bytes(s: Seq<char>)
    ensures
        ({
            let parts = pieces(s, '.');
            let byte = |text: Seq<char>|
                text.len() > 0 && all_digits(text) && digits_value(text) <= 255 && (text.len() > 1
                    ==> text[0] != '0');
            &&& address_value(s) is Some <==> parts.len() == 4 && byte(parts[0]) && byte(parts[1])
                && byte(parts[2]) && byte(parts[3])
            &&& address_value(s) matches Some(address) ==> address == digits_value(parts[0])
                * 0x100_0000 + digits_value(parts[1]) * 0x1_0000 + digits_value(parts[2]) * 0x100
                + digits_value(parts[3])
        }),
{
}

} // verus!
