//! Refusal of connections by the network that they come from.

use vstd::arithmetic::power2::{lemma2_to64, pow2};
use vstd::bits::lemma_u32_shr_is_div;
use vstd::prelude::*;

use crate::text::{
    all_digits, decimal_text, decimal_value, is_digit, numbers_are_read_as_written,
    numbers_are_written_digit_by_digit, numbers_are_written_in_digits, parse_unsigned,
    parsed_unsigned, pieces_make_up_the_text, split, split_at_first, split_on, split_once, texts,
    texts_are_split_at_every_separator, texts_are_split_at_the_first_separator, to_chars, trim,
    trimmed, zeros, CharClass,
};

verus! {

/// Whether `s` writes a number up to 255: one to three digits, without leading zeros.
pub open spec fn is_octet(s: Seq<char>) -> bool {
    &&& 1 <= s.len() <= 3
    &&& all_digits(s)
    &&& s.len() > 1 ==> s[0] != '0'
    &&& decimal_value(s) <= 255
}

/// The number of the IPv4 address that `s` writes as four octets between dots.
pub open spec fn ipv4_value(s: Seq<char>) -> Option<nat> {
    let p = split_on(s, '.');
    if p.len() == 4 && is_octet(p[0]) && is_octet(p[1]) && is_octet(p[2]) && is_octet(p[3]) {
        Some(
            decimal_value(p[0]) * 0x100_0000 + decimal_value(p[1]) * 0x1_0000 + decimal_value(p[2])
                * 0x100 + decimal_value(p[3]),
        )
    } else {
        None
    }
}

fn octet(s: &str) -> (r: Option<u64>)
    ensures
        is_octet(s@) ==> r == Some(decimal_value(s@) as u64),
        !is_octet(s@) ==> r is None,
        r matches Some(v) ==> v <= 255,
{
    let cs = to_chars(s);
    let n: usize = cs.len();
    if n == 0 || n > 3 || cs[0] == '+' || (n > 1 && cs[0] == '0') {
        proof {
            if n > 0 && cs@[0] == '+' {
                assert(!is_digit(s@[0]));
            }
        }
        return None;
    }
    parse_unsigned(s, 255)
}

/// Reads an IPv4 address.
pub fn parse_ipv4(s: &str) -> (r: Option<u32>)
    ensures
        match ipv4_value(s@) {
            Some(v) => r == Some(v as u32) && v <= u32::MAX,
            None => r is None,
        },
{
    let p = split(s, '.');
    proof {
        let t = texts(p@);
        assert(t == split_on(s@, '.'));
        assert(t.len() == p@.len());
        assert(forall|i: int| 0 <= i < p@.len() ==> t[i] == p@[i]@);
    }
    if p.len() != 4 {
        return None;
    }
    match (octet(p[0].as_str()), octet(p[1].as_str()), octet(p[2].as_str()), octet(p[3].as_str())) {
        (Some(a), Some(b), Some(c), Some(d)) => {
            Some((a * 0x100_0000 + b * 0x1_0000 + c * 0x100 + d) as u32)
        },
        _ => None,
    }
}

/// The address and the length of the network prefix that a rule writes: an address and a number
/// after a slash, or an address alone, which is a network of its own.
pub open spec fn cidr_parts(s: Seq<char>) -> Option<(nat, nat)> {
    match split_at_first(s, '/') {
        Some((a, b)) => match (ipv4_value(a), parsed_unsigned(b, u32::MAX as nat)) {
            (Some(ip), Some(len)) => Some((ip, len)),
            _ => None,
        },
        None => match ipv4_value(s) {
            Some(ip) => Some((ip, 32)),
            None => None,
        },
    }
}

/// Whether the prefix of a rule is no longer than an address.
pub open spec fn prefix_fits(s: Seq<char>) -> bool {
    cidr_parts(s) matches Some((_, len)) ==> len <= 32
}

/// The bits of an address that a prefix of `len` bits covers.
pub open spec fn prefix_mask(len: nat) -> u32 {
    if len == 0 {
        0
    } else {
        0xffff_ffffu32 << ((32 - len) as u32)
    }
}

/// The network and the mask of a rule.
pub open spec fn rule_of(s: Seq<char>) -> Option<(u32, u32)> {
    match cidr_parts(s) {
        Some((ip, len)) => Some(((ip as u32) & prefix_mask(len), prefix_mask(len))),
        None => None,
    }
}

/// The rules that a list with a comma between each two writes; what writes no rule is left out.
pub open spec fn rules_of(entries: Seq<Seq<char>>) -> Seq<(u32, u32)>
    decreases entries.len(),
{
    if entries.len() == 0 {
        Seq::empty()
    } else {
        let front = rules_of(entries.drop_last());
        match rule_of(trimmed(entries.last(), CharClass::Whitespace)) {
            Some(rule) => front.push(rule),
            None => front,
        }
    }
}

/// Whether one of the rules covers an address.
pub open spec fn refused(rules: Seq<(u32, u32)>, ip: u32) -> bool {
    exists|i: int| 0 <= i < rules.len() && ip & (#[trigger] rules[i]).1 == rules[i].0
}

/// Where a connection comes from.
#[derive(Clone, Copy, PartialEq, Eq, Structural, Debug)]
pub enum PeerAddr {
    /// An IPv4 address.
    V4(u32),
    /// An IPv6 address.
    V6(u128),
}

impl PeerAddr {
    /// The IPv4 address, also where it is written as an IPv6 address of the form `::ffff:a.b.c.d`.
    pub open spec fn ipv4(self) -> Option<u32> {
        match self {
            PeerAddr::V4(v) => Some(v),
            PeerAddr::V6(v) => if v / 0x1_0000_0000 == 0xffff {
                Some((v % 0x1_0000_0000) as u32)
            } else {
                None
            },
        }
    }
}

/// The networks from which no connection is taken.
pub struct IpFilter {
    rules: Vec<(u32, u32)>,
}

impl IpFilter {
    /// The network and the mask of each rule.
    pub closed spec fn rules(self) -> Seq<(u32, u32)> {
        self.rules@
    }

    /// Tells whether the prefix of a rule is no longer than an address.
    pub fn prefix_fits(cidr: &str) -> (r: bool)
        ensures
            r == prefix_fits(cidr@),
    {
        match split_once(cidr, '/') {
            Some((a, b)) => match (parse_ipv4(a.as_str()), parse_unsigned(
                b.as_str(),
                u32::MAX as u64,
            )) {
                (Some(_), Some(len)) => len <= 32,
                _ => true,
            },
            None => true,
        }
    }

    /// Tells whether every rule of a list has a prefix no longer than an address.
    pub fn prefixes_fit(deny_ips: &str) -> (r: bool)
        ensures
            r <==> (forall|i: int|
                0 <= i < split_on(deny_ips@, ',').len() ==> prefix_fits(
                    trimmed(#[trigger] split_on(deny_ips@, ',')[i], CharClass::Whitespace),
                )),
    {
        let entries = split(deny_ips, ',');
        let ghost all = split_on(deny_ips@, ',');
        assert(texts(entries@) == all);
        for i in 0..entries.len()
            invariant
                texts(entries@) == all,
                all == split_on(deny_ips@, ','),
                forall|j: int|
                    0 <= j < i ==> prefix_fits(
                        trimmed(#[trigger] all[j], CharClass::Whitespace),
                    ),
        {
            assert(all[i as int] == entries@[i as int]@);
            let entry = trim(entries[i].as_str(), CharClass::Whitespace);
            if !Self::prefix_fits(entry.as_str()) {
                return false;
            }
        }
        true
    }

    /// Reads a rule.
    pub fn parse_cidr(cidr: &str) -> (r: Option<(u32, u32)>)
        requires
            prefix_fits(cidr@),
        ensures
            r == rule_of(cidr@),
    {
        let (ip, len) = match split_once(cidr, '/') {
            Some((a, b)) => {
                let len = match parse_unsigned(b.as_str(), u32::MAX as u64) {
                    Some(n) => n as u32,
                    None => {
                        return None;
                    },
                };
                match parse_ipv4(a.as_str()) {
                    Some(ip) => (ip, len),
                    None => {
                        return None;
                    },
                }
            },
            None => match parse_ipv4(cidr) {
                Some(ip) => (ip, 32),
                None => {
                    return None;
                },
            },
        };
        let mask: u32 = if len == 0 {
            0
        } else {
            0xffff_ffffu32 << (32 - len)
        };
        Some((ip & mask, mask))
    }

    /// Reads the list of refused networks; without a list none is refused.
    pub fn from_env(deny_ips: &Option<String>) -> (r: IpFilter)
        requires
            deny_ips matches Some(list) ==> forall|i: int|
                0 <= i < split_on(list@, ',').len() ==> prefix_fits(
                    trimmed(#[trigger] split_on(list@, ',')[i], CharClass::Whitespace),
                ),
        ensures
            r.rules() == match deny_ips {
                Some(list) => rules_of(split_on(list@, ',')),
                None => Seq::empty(),
            },
    {
        let mut rules: Vec<(u32, u32)> = Vec::new();
        match deny_ips {
            Some(list) => {
                let entries = split(list.as_str(), ',');
                let ghost all = split_on(list@, ',');
                assert(texts(entries@) == all);
                for i in 0..entries.len()
                    invariant
                        texts(entries@) == all,
                        forall|j: int|
                            0 <= j < all.len() ==> prefix_fits(
                                trimmed(#[trigger] all[j], CharClass::Whitespace),
                            ),
                        rules@ == rules_of(all.take(i as int)),
                {
                    proof {
                        assert(all.take(i + 1).drop_last() =~= all.take(i as int));
                        assert(all.take(i + 1).last() == entries@[i as int]@);
                        assert(all[i as int] == entries@[i as int]@);
                    }
                    let entry = trim(entries[i].as_str(), CharClass::Whitespace);
                    match Self::parse_cidr(entry.as_str()) {
                        Some(rule) => {
                            rules.push(rule);
                        },
                        None => {},
                    }
                }
                assert(all.take(all.len() as int) =~= all);
            },
            None => {},
        }
        IpFilter { rules }
    }

    /// Tells whether connections from `addr` are refused.
    pub fn is_blocked(&self, addr: &PeerAddr) -> (r: bool)
        ensures
            r == match addr.ipv4() {
                Some(ip) => refused(self.rules(), ip),
                None => false,
            },
    {
        let ip: u32 = match addr {
            PeerAddr::V4(v) => *v,
            PeerAddr::V6(v) => {
                if *v / 0x1_0000_0000 == 0xffff {
                    (*v % 0x1_0000_0000) as u32
                } else {
                    return false;
                }
            },
        };
        for i in 0..self.rules.len()
            invariant
                addr.ipv4() == Some(ip),
                forall|j: int|
                    0 <= j < i ==> ip & (#[trigger] self.rules()[j]).1 != self.rules()[j].0,
        {
            let (network, mask) = self.rules[i];
            if ip & mask == network {
                assert(self.rules()[i as int] == (network, mask));
                return true;
            }
        }
        false
    }
}

/// A rule refuses exactly the addresses that begin with the same bits as its own address, as many
/// as its prefix is long.
pub proof fn rule_covers_its_prefix(own: u32, len: nat, ip: u32)
    requires
        len <= 32,
    ensures
        ip & prefix_mask(len) == own & prefix_mask(len) <==> ip as nat / pow2((32 - len) as nat)
            == own as nat / pow2((32 - len) as nat),
{
    if len == 0 {
        assert(ip & 0 == 0 && own & 0 == 0) by (bit_vector);
        lemma2_to64();
        assert(ip as nat / pow2(32) == 0 && own as nat / pow2(32) == 0);
    } else {
        let s = (32 - len) as u32;
        assert((ip & (0xffff_ffffu32 << s) == own & (0xffff_ffffu32 << s)) <==> (ip >> s == own
            >> s)) by (bit_vector)
            requires
                s < 32,
        ;
        lemma_u32_shr_is_div(ip, s);
        lemma_u32_shr_is_div(own, s);
    }
}

/// Whether what stands between two commas writes a rule, and the address begins with the same bits
/// as the address of the rule, as many as its prefix is long.
pub open spec fn entry_covers(entry: Seq<char>, ip: u32) -> bool {
    match cidr_parts(trimmed(entry, CharClass::Whitespace)) {
        Some((own, len)) => ip as nat / pow2((32 - len) as nat) == own / pow2((32 - len) as nat),
        None => false,
    }
}

/// An address is refused exactly when some entry of the list covers it; entries that write no rule
/// make no difference.
pub proof fn refused_by_some_entry(entries: Seq<Seq<char>>, ip: u32)
    requires
        forall|i: int|
            0 <= i < entries.len() ==> prefix_fits(
                trimmed(#[trigger] entries[i], CharClass::Whitespace),
            ),
    ensures
        refused(rules_of(entries), ip) <==> exists|i: int|
            0 <= i < entries.len() && entry_covers(#[trigger] entries[i], ip),
    decreases entries.len(),
{
    if entries.len() > 0 {
        let front = entries.drop_last();
        let last = entries.last();
        let text = trimmed(last, CharClass::Whitespace);
        assert forall|i: int| 0 <= i < front.len() implies prefix_fits(
            trimmed(#[trigger] front[i], CharClass::Whitespace),
        ) by {
            assert(front[i] == entries[i]);
        }
        refused_by_some_entry(front, ip);
        let rules = rules_of(entries);
        let before = rules_of(front);
        assert(prefix_fits(trimmed(entries[entries.len() - 1], CharClass::Whitespace)));
        assert(refused(rules, ip) <==> (refused(before, ip) || entry_covers(last, ip))) by {
            match cidr_parts(text) {
                Some((own, len)) => {
                    lemma_cidr_address(text);
                    rule_covers_its_prefix(own as u32, len, ip);
                    let rule = ((own as u32) & prefix_mask(len), prefix_mask(len));
                    assert(rules == before.push(rule));
                    assert(rules[before.len() as int] == rule);
                    if refused(before, ip) {
                        let i = choose|i: int|
                            0 <= i < before.len() && ip & (#[trigger] before[i]).1 == before[i].0;
                        assert(rules[i] == before[i]);
                    }
                    if refused(rules, ip) && !entry_covers(last, ip) {
                        let i = choose|i: int|
                            0 <= i < rules.len() && ip & (#[trigger] rules[i]).1 == rules[i].0;
                        assert(before[i] == rules[i]);
                    }
                },
                None => {},
            }
        }
        if exists|i: int| 0 <= i < entries.len() && entry_covers(#[trigger] entries[i], ip) {
            let i = choose|i: int|
                0 <= i < entries.len() && entry_covers(#[trigger] entries[i], ip);
            if i < front.len() {
                assert(entry_covers(front[i], ip));
            }
        }
        if entry_covers(last, ip) {
            assert(entry_covers(entries[entries.len() - 1], ip));
        }
        if exists|i: int| 0 <= i < front.len() && entry_covers(#[trigger] front[i], ip) {
            let i = choose|i: int| 0 <= i < front.len() && entry_covers(#[trigger] front[i], ip);
            assert(entry_covers(entries[i], ip));
        }
    }
}

proof fn lemma_cidr_address(s: Seq<char>)
    ensures
        cidr_parts(s) matches Some((own, _)) ==> own <= u32::MAX,
{
}

/// An address alone is a rule for that address and no other.
pub proof fn address_alone_covers_itself(own: u32, ip: u32)
    ensures
        ip & prefix_mask(32) == own & prefix_mask(32) <==> ip == own,
{
    assert(ip & (0xffff_ffffu32 << 0u32) == ip) by (bit_vector);
    assert(own & (0xffff_ffffu32 << 0u32) == own) by (bit_vector);
}

/// An IPv4 address is judged the same when it is written as an IPv6 address.
pub proof fn mapped_address_is_the_address(v: u32)
    ensures
        PeerAddr::V6((0xffff * 0x1_0000_0000 + v) as u128).ipv4() == PeerAddr::V4(v).ipv4(),
{
}

/// The text of an IPv4 address: its four octets in base ten, with dots between them.
pub open spec fn dotted(a: nat, b: nat, c: nat, d: nat) -> Seq<char> {
    decimal_text(a) + seq!['.'] + decimal_text(b) + seq!['.'] + decimal_text(c) + seq!['.']
        + decimal_text(d)
}

proof fn lemma_octet_text(n: nat)
    requires
        n <= 255,
    ensures
        is_octet(decimal_text(n)),
        decimal_value(decimal_text(n)) == n,
        !decimal_text(n).contains('.'),
        !decimal_text(n).contains('/'),
{
    numbers_are_written_in_digits(n);
    let t = decimal_text(n);
    if n >= 10 {
        numbers_are_written_in_digits(n / 10);
        numbers_are_written_digit_by_digit(n / 10, n % 10);
        if n < 100 {
            numbers_are_written_digit_by_digit(0, n / 10);
        } else {
            numbers_are_written_digit_by_digit((n / 100), (n / 10) % 10);
            numbers_are_written_digit_by_digit(0, n / 100);
        }
        assert(t.len() <= 3);
        assert(t[0] != '0');
    } else {
        numbers_are_written_digit_by_digit(0, n);
    }
    assert forall|i: int| 0 <= i < t.len() implies t[i] != '.' && t[i] != '/' by {
        assert(is_digit(t[i]));
    }
}

proof fn lemma_octet_is_text(s: Seq<char>)
    requires
        is_octet(s),
    ensures
        s == decimal_text(decimal_value(s)),
{
    let v = decimal_value(s);
    assert(is_digit(s[0]));
    numbers_are_read_as_written(s, 255, v);
    let k = choose|k: nat|
        #![trigger zeros(k)]
        s == zeros(k) + decimal_text(v) || s == seq!['+'] + zeros(k) + decimal_text(v);
    numbers_are_written_in_digits(v);
    if s == seq!['+'] + zeros(k) + decimal_text(v) {
        assert(s[0] == '+');
    }
    if k > 0 {
        assert(s[0] == zeros(k)[0]);
    }
    assert(zeros(0) + decimal_text(v) =~= decimal_text(v));
}

/// Just the texts of addresses are read as addresses: four numbers up to 255 in base ten, without
/// leading zeros, with dots between them, of which each counts 256 times as much as the next.
pub proof fn addresses_are_read_as_written(s: Seq<char>, v: nat)
    ensures
        ipv4_value(s) == Some(v) <==> exists|a: nat, b: nat, c: nat, d: nat|
            a <= 255 && b <= 255 && c <= 255 && d <= 255 && s == #[trigger] dotted(a, b, c, d) && v
                == ((a * 256 + b) * 256 + c) * 256 + d,
{
    if ipv4_value(s) == Some(v) {
        let p = split_on(s, '.');
        let s3 = pieces_make_up_the_text(s, '.');
        let s2 = pieces_make_up_the_text(s3, '.');
        let s1 = pieces_make_up_the_text(s2, '.');
        pieces_make_up_the_text(s1, '.');
        assert(p.drop_last().last() == p[2]);
        assert(p.drop_last().drop_last().last() == p[1]);
        assert(p.drop_last().drop_last().drop_last()[0] == p[0]);
        assert(s == p[0] + seq!['.'] + p[1] + seq!['.'] + p[2] + seq!['.'] + p[3]);
        lemma_octet_is_text(p[0]);
        lemma_octet_is_text(p[1]);
        lemma_octet_is_text(p[2]);
        lemma_octet_is_text(p[3]);
        let (a, b, c, d) = (
            decimal_value(p[0]),
            decimal_value(p[1]),
            decimal_value(p[2]),
            decimal_value(p[3]),
        );
        assert(s == dotted(a, b, c, d));
    }
    if exists|a: nat, b: nat, c: nat, d: nat|
        a <= 255 && b <= 255 && c <= 255 && d <= 255 && s == #[trigger] dotted(a, b, c, d) && v == (
        (a * 256 + b) * 256 + c) * 256 + d {
        let (a, b, c, d) = choose|a: nat, b: nat, c: nat, d: nat|
            a <= 255 && b <= 255 && c <= 255 && d <= 255 && s == #[trigger] dotted(a, b, c, d) && v
                == ((a * 256 + b) * 256 + c) * 256 + d;
        lemma_dotted(a, b, c, d);
    }
}

proof fn lemma_dotted(a: nat, b: nat, c: nat, d: nat)
    requires
        a <= 255,
        b <= 255,
        c <= 255,
        d <= 255,
    ensures
        ipv4_value(dotted(a, b, c, d)) == Some(((a * 256 + b) * 256 + c) * 256 + d),
        !dotted(a, b, c, d).contains('/'),
{
    let (ta, tb, tc, td) = (decimal_text(a), decimal_text(b), decimal_text(c), decimal_text(d));
    let dot = seq!['.'];
    lemma_octet_text(a);
    lemma_octet_text(b);
    lemma_octet_text(c);
    lemma_octet_text(d);
    texts_are_split_at_every_separator(ta, tb, '.');
    texts_are_split_at_every_separator(tb, tb, '.');
    texts_are_split_at_every_separator(tc, tc, '.');
    texts_are_split_at_every_separator(td, td, '.');
    texts_are_split_at_every_separator(ta + dot + tb, tc, '.');
    texts_are_split_at_every_separator(ta + dot + tb + dot + tc, td, '.');
    let s = dotted(a, b, c, d);
    assert(split_on(s, '.') =~= seq![ta, tb, tc, td]);
    if s.contains('/') {
        let i = s.index_of('/');
        let x = ta.len() as int;
        let y = x + 1 + tb.len();
        let z = y + 1 + tc.len();
        if i < x {
            assert(ta[i] == '/');
        } else if x < i && i < y {
            assert(tb[i - x - 1] == '/');
        } else if y < i && i < z {
            assert(tc[i - y - 1] == '/');
        } else if i > z {
            assert(td[i - z - 1] == '/');
        }
    }
}

/// A rule is an address alone, which is a prefix of 32 bits, or an address and behind a slash the
/// number of bits; what has no address before the first slash or no number behind it is no rule.
pub proof fn prefixes_are_written_behind_a_slash(a: Seq<char>, b: Seq<char>)
    requires
        !a.contains('/'),
    ensures
        cidr_parts(a) is Some <==> ipv4_value(a) is Some,
        cidr_parts(a) matches Some(p) ==> ipv4_value(a) == Some(p.0) && p.1 == 32,
        ({
            let p = cidr_parts(a + seq!['/'] + b);
            let len = parsed_unsigned(b, u32::MAX as nat);
            &&& p is Some <==> ipv4_value(a) is Some && len is Some
            &&& p matches Some(q) ==> ipv4_value(a) == Some(q.0) && len == Some(q.1)
            &&& prefix_fits(a + seq!['/'] + b) <==> !(p is Some && len->Some_0 > 32)
        }),
        prefix_fits(a),
{
    texts_are_split_at_the_first_separator(a, '/');
    let s = a + seq!['/'] + b;
    texts_are_split_at_the_first_separator(s, '/');
    assert(s[a.len() as int] == '/');
    match split_at_first(a, '/') {
        Some((x, y)) => {
            assert(a[x.len() as int] == '/');
        },
        None => {},
    }
    match split_at_first(s, '/') {
        Some((x, y)) => {
            let n = x.len() as int;
            assert(s[n] == '/');
            if n < a.len() {
                assert(a[n] == '/');
            }
            if n > a.len() {
                assert(x[a.len() as int] == s[a.len() as int]);
            }
            assert(s.take(n) =~= x);
            assert(s.take(n) =~= a);
            assert(s.skip(n + 1) =~= y);
            assert(s.skip(n + 1) =~= b);
        },
        None => {},
    }
}

/// The rules of a list are those of its entries, in their order: none for an entry that writes no
/// rule, else its network and its mask.
pub proof fn each_entry_makes_its_rule(
    first: Seq<Seq<char>>,
    later: Seq<Seq<char>>,
    entry: Seq<char>,
)
    ensures
        rules_of(Seq::empty()).len() == 0,
        rules_of(first + later) == rules_of(first) + rules_of(later),
        match cidr_parts(trimmed(entry, CharClass::Whitespace)) {
            Some((ip, len)) => rules_of(seq![entry]) == seq![
                ((ip as u32) & prefix_mask(len), prefix_mask(len)),
            ],
            None => rules_of(seq![entry]).len() == 0,
        },
    decreases later.len(),
{
    assert(seq![entry].drop_last() =~= Seq::empty());
    assert(rules_of(seq![entry].drop_last()) =~= Seq::empty());
    match rule_of(trimmed(entry, CharClass::Whitespace)) {
        Some(rule) => {
            assert(rules_of(seq![entry]) =~= seq![rule]);
        },
        None => {},
    }
    if later.len() == 0 {
        assert(first + later =~= first);
        assert(rules_of(first) + rules_of(later) =~= rules_of(first));
    } else {
        each_entry_makes_its_rule(first, later.drop_last(), entry);
        assert((first + later).drop_last() =~= first + later.drop_last());
        assert(rules_of(first + later) =~= rules_of(first) + rules_of(later));
    }
}

/// Only an IPv6 address that stands for an IPv4 address is judged as one.
pub proof fn only_mapped_addresses_are_judged(v: u128, w: u32)
    ensures
        PeerAddr::V4(w).ipv4() == Some(w),
        PeerAddr::V6(v).ipv4() == Some(w) <==> v == 0xffff * 0x1_0000_0000 + w,
{
    assert(v == (v / 0x1_0000_0000) * 0x1_0000_0000 + v % 0x1_0000_0000);
    if v == 0xffff * 0x1_0000_0000 + w {
        assert(v / 0x1_0000_0000 == 0xffff);
    }
}

} // verus!
