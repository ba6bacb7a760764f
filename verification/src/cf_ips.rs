//! The published address ranges, and the test whether an IPv4 address lies
//! in one of them.

use crate::helpers::{binary_digits, bytes_to_binary, split_to_string_vec};
use crate::text::{chars_of, rows, split, split_chars, texts};
use vstd::prelude::*;

verus! {

/// Whether `c` is one of the ten decimal digits.
pub open spec fn is_digit(c: char) -> bool {
    '0' <= c <= '9'
}

/// Whether `s` is made of decimal digits only.
pub open spec fn all_digits(s: Seq<char>) -> bool {
    forall|i: int| 0 <= i < s.len() ==> is_digit(#[trigger] s[i])
}

/// The number that the decimal digits of `s` write.
pub open spec fn decimal_value(s: Seq<char>) -> nat
    decreases s.len(),
{
    if s.len() == 0 {
        0
    } else {
        (10 * decimal_value(s.drop_last()) + (s.last() as u32 - '0' as u32)) as nat
    }
}

/// The octet that `s` writes: one or more decimal digits with a value of at
/// most 255.
pub open spec fn octet_value(s: Seq<char>) -> Option<u8> {
    if s.len() > 0 && all_digits(s) && decimal_value(s) <= 255 {
        Some(decimal_value(s) as u8)
    } else {
        None
    }
}

/// The number that `s` writes as a prefix length: an octet, which a single
/// `+` may precede.
pub open spec fn parse_u8(s: Seq<char>) -> Option<u8> {
    if s.len() > 0 && s[0] == '+' {
        octet_value(s.drop_first())
    } else {
        octet_value(s)
    }
}

/// The four octets of a dotted IPv4 address.
pub open spec fn ipv4_octets(s: Seq<char>) -> Option<Seq<u8>> {
    let parts = split(s, seq!['.']);
    if parts.len() == 4 && (forall|i: int| 0 <= i < 4 ==> (#[trigger] octet_value(parts[i])) is Some) {
        Some(Seq::new(4, |i: int| octet_value(parts[i])->0))
    } else {
        None
    }
}

/// How many leading bits a range with the prefix text `s` compares: the
/// number written, at most 32, and 0 where `s` writes no number.
pub open spec fn prefix_length(s: Seq<char>) -> nat {
    match parse_u8(s) {
        Some(p) => if p > 32 {
            32
        } else {
            p as nat
        },
        None => 0,
    }
}

/// Whether the address `ip` lies in the range `cidr`, written as a network
/// address, `/` and a prefix length. Both addresses must have four octets;
/// then their 32 binary digits must agree on the leading `prefix_length`.
/// A range without `/` holds no address.
pub open spec fn cidr_contains(cidr: Seq<char>, ip: Seq<char>) -> bool {
    let parts = split(cidr, seq!['/']);
    &&& parts.len() >= 2
    &&& ipv4_octets(ip) is Some
    &&& ipv4_octets(parts[0]) is Some
    &&& binary_digits(ipv4_octets(ip)->0).take(prefix_length(parts[1]) as int) == binary_digits(
        ipv4_octets(parts[0])->0,
    ).take(prefix_length(parts[1]) as int)
}

/// Whether one of `ranges` holds the address `ip`.
pub open spec fn ranges_contain(ranges: Seq<Seq<char>>, ip: Seq<char>) -> bool {
    exists|i: int| 0 <= i < ranges.len() && cidr_contains(#[trigger] ranges[i], ip)
}

/// A well-formed range: a network address of four octets, `/`, and a
/// prefix length of at most 32.
pub open spec fn valid_cidr(cidr: Seq<char>) -> bool {
    let parts = split(cidr, seq!['/']);
    &&& parts.len() == 2
    &&& ipv4_octets(parts[0]) is Some
    &&& parse_u8(parts[1]) is Some
    &&& parse_u8(parts[1])->0 <= 32
}

/// The octets of a well-formed range's network address.
pub open spec fn cidr_network(cidr: Seq<char>) -> Seq<u8> {
    ipv4_octets(split(cidr, seq!['/'])[0])->0
}

/// The prefix length of a well-formed range.
pub open spec fn cidr_prefix(cidr: Seq<char>) -> nat {
    parse_u8(split(cidr, seq!['/'])[1])->0 as nat
}

/// Whether two addresses have the same first `n` binary digits.
pub open spec fn leading_bits_agree(a: Seq<u8>, b: Seq<u8>, n: nat) -> bool {
    forall|k: int| 0 <= k < n ==> binary_digits(a)[k] == binary_digits(b)[k]
}

/// A well-formed range holds a well-formed address exactly where the
/// binary digits of the address and of the network agree on the leading
/// digits that the prefix length counts.
pub proof fn lemma_range_holds_matching_prefix(cidr: Seq<char>, ip: Seq<char>)
    requires
        valid_cidr(cidr),
        ipv4_octets(ip) is Some,
    ensures
        cidr_contains(cidr, ip) == leading_bits_agree(
            ipv4_octets(ip)->0,
            cidr_network(cidr),
            cidr_prefix(cidr),
        ),
{
    let a = binary_digits(ipv4_octets(ip)->0);
    let b = binary_digits(cidr_network(cidr));
    let n = cidr_prefix(cidr) as int;
    assert(prefix_length(split(cidr, seq!['/'])[1]) == n);
    assert(a.len() == 32 && b.len() == 32);
    if leading_bits_agree(ipv4_octets(ip)->0, cidr_network(cidr), cidr_prefix(cidr)) {
        assert(a.take(n) =~= b.take(n));
    }
    if a.take(n) == b.take(n) {
        assert forall|k: int| 0 <= k < n implies a[k] == b[k] by {
            assert(a.take(n)[k] == b.take(n)[k]);
        }
    }
}

/// The number that four octets write, the first octet counting most.
pub open spec fn address_number(octets: Seq<u8>) -> u32 {
    ((octets[0] as u32) << 24) | ((octets[1] as u32) << 16) | ((octets[2] as u32) << 8) | (
    octets[3] as u32)
}

/// Binary digit `k` of a 32-bit number, counted from the most significant.
pub open spec fn number_bit(v: u32, k: int) -> bool {
    (v >> ((31 - k) as u32)) & 1 == 1
}

/// Digit `k` of an address's binary digits is digit `k` of its number.
pub proof fn lemma_digit_of_number(octets: Seq<u8>, k: int)
    requires
        octets.len() == 4,
        0 <= k < 32,
    ensures
        (binary_digits(octets)[k] == '1') == number_bit(address_number(octets), k),
        binary_digits(octets)[k] == '1' || binary_digits(octets)[k] == '0',
{
    let a: u8 = octets[0];
    let b: u8 = octets[1];
    let c: u8 = octets[2];
    let d: u8 = octets[3];
    let v: u32 = address_number(octets);
    let t: u8 = (7 - k % 8) as u8;
    let s: u32 = (31 - k) as u32;
    if k / 8 == 0 {
        assert(((a >> t) & 1 == 1) == ((v >> s) & 1 == 1)) by (bit_vector)
            requires
                v == ((a as u32) << 24) | ((b as u32) << 16) | ((c as u32) << 8) | (d as u32),
                t < 8,
                s == (t as u32) + 24,
        ;
    } else if k / 8 == 1 {
        assert(((b >> t) & 1 == 1) == ((v >> s) & 1 == 1)) by (bit_vector)
            requires
                v == ((a as u32) << 24) | ((b as u32) << 16) | ((c as u32) << 8) | (d as u32),
                t < 8,
                s == (t as u32) + 16,
        ;
    } else if k / 8 == 2 {
        assert(((c >> t) & 1 == 1) == ((v >> s) & 1 == 1)) by (bit_vector)
            requires
                v == ((a as u32) << 24) | ((b as u32) << 16) | ((c as u32) << 8) | (d as u32),
                t < 8,
                s == (t as u32) + 8,
        ;
    } else {
        assert(((d >> t) & 1 == 1) == ((v >> s) & 1 == 1)) by (bit_vector)
            requires
                v == ((a as u32) << 24) | ((b as u32) << 16) | ((c as u32) << 8) | (d as u32),
                t < 8,
                s == (t as u32),
        ;
    }
}

/// Two numbers have the same leading `n` binary digits exactly where they
/// are equal after the other `32 - n` digits are shifted out.
pub proof fn lemma_leading_digits_of_numbers(v: u32, w: u32, n: nat)
    requires
        1 <= n <= 32,
    ensures
        (forall|k: int| 0 <= k < n ==> number_bit(v, k) == number_bit(w, k)) == (v >> ((32
            - n) as u32) == w >> ((32 - n) as u32)),
    decreases n,
{
    let m: u32 = (32 - n) as u32;
    if n == 1 {
        assert((((v >> 31) & 1 == 1) == ((w >> 31) & 1 == 1)) == (v >> 31 == w >> 31))
            by (bit_vector);
        assert(number_bit(v, 0) == ((v >> 31) & 1 == 1));
        assert(number_bit(w, 0) == ((w >> 31) & 1 == 1));
    } else {
        lemma_leading_digits_of_numbers(v, w, (n - 1) as nat);
        let up: u32 = (m + 1) as u32;
        assert((v >> m == w >> m) == ((v >> up == w >> up) && (((v >> m) & 1 == 1) == ((w >> m) & 1
            == 1)))) by (bit_vector)
            requires
                m < 31,
                up == m + 1,
        ;
        assert(number_bit(v, n - 1) == ((v >> m) & 1 == 1));
        assert(number_bit(w, n - 1) == ((w >> m) & 1 == 1));
        assert((32 - (n - 1)) as u32 == up);
    }
}

/// Two addresses agree on their leading `n` binary digits exactly where
/// their numbers are equal after the other `32 - n` digits are shifted out.
pub proof fn lemma_leading_bits_are_a_shift(a: Seq<u8>, b: Seq<u8>, n: nat)
    requires
        a.len() == 4,
        b.len() == 4,
        1 <= n <= 32,
    ensures
        leading_bits_agree(a, b, n) == (address_number(a) >> ((32 - n) as u32) == address_number(
            b,
        ) >> ((32 - n) as u32)),
{
    lemma_leading_digits_of_numbers(address_number(a), address_number(b), n);
    assert forall|k: int| 0 <= k < n implies (binary_digits(a)[k] == binary_digits(b)[k]) == (
    number_bit(address_number(a), k) == number_bit(address_number(b), k)) by {
        lemma_digit_of_number(a, k);
        lemma_digit_of_number(b, k);
    }
}

/// An address whose leading digits agree with those of one well-formed
/// range among `ranges` is found.
pub proof fn lemma_matching_address_is_found(ranges: Seq<Seq<char>>, i: int, ip: Seq<char>)
    requires
        0 <= i < ranges.len(),
        valid_cidr(ranges[i]),
        ipv4_octets(ip) is Some,
        leading_bits_agree(ipv4_octets(ip)->0, cidr_network(ranges[i]), cidr_prefix(ranges[i])),
    ensures
        ranges_contain(ranges, ip),
{
    lemma_range_holds_matching_prefix(ranges[i], ip);
}

/// An address that differs from every one of the well-formed `ranges`
/// within its prefix is not found.
pub proof fn lemma_differing_address_is_not_found(ranges: Seq<Seq<char>>, ip: Seq<char>)
    requires
        ipv4_octets(ip) is Some,
        forall|i: int|
            0 <= i < ranges.len() ==> valid_cidr(#[trigger] ranges[i]) && !leading_bits_agree(
                ipv4_octets(ip)->0,
                cidr_network(ranges[i]),
                cidr_prefix(ranges[i]),
            ),
    ensures
        !ranges_contain(ranges, ip),
{
    assert forall|i: int| 0 <= i < ranges.len() implies !cidr_contains(#[trigger] ranges[i], ip) by {
        lemma_range_holds_matching_prefix(ranges[i], ip);
    }
}

/// A longer run of digits writes no smaller number.
pub proof fn lemma_decimal_value_grows(s: Seq<char>, k: int)
    requires
        all_digits(s),
        0 <= k <= s.len(),
    ensures
        decimal_value(s.take(k)) <= decimal_value(s),
    decreases s.len() - k,
{
    if k < s.len() {
        lemma_decimal_value_grows(s, k + 1);
        assert(s.take(k + 1).drop_last() =~= s.take(k));
        assert(is_digit(s[k]));
    } else {
        assert(s.take(k) =~= s);
    }
}

/// Reads an octet from the characters `s[from..]`.
pub(crate) fn read_octet(s: &Vec<char>, from: usize) -> (r: Option<u8>)
    requires
        from <= s.len(),
    ensures
        r == octet_value(s@.skip(from as int)),
{
    let ghost t = s@.skip(from as int);
    if from == s.len() {
        return None;
    }
    let mut i: usize = from;
    while i < s.len()
        invariant
            from <= i <= s.len(),
            t == s@.skip(from as int),
            forall|j: int| 0 <= j < i - from ==> is_digit(#[trigger] t[j]),
        decreases s.len() - i,
    {
        let c: char = s[i];
        if !('0' <= c && c <= '9') {
            assert(!is_digit(t[i - from]));
            return None;
        }
        i += 1;
    }
    let mut value: u32 = 0;
    let mut k: usize = from;
    assert(t.take(0) =~= Seq::<char>::empty());
    while k < s.len()
        invariant
            from <= k <= s.len(),
            t == s@.skip(from as int),
            all_digits(t),
            value <= 255,
            value == decimal_value(t.take(k - from)),
        decreases s.len() - k,
    {
        let c: char = s[k];
        assert(is_digit(t[k - from]));
        assert(t.take(k - from + 1).drop_last() =~= t.take(k - from));
        value = 10 * value + (c as u32 - '0' as u32);
        k += 1;
        if value > 255 {
            proof {
                lemma_decimal_value_grows(t, k - from);
            }
            return None;
        }
    }
    assert(t.take(k - from) =~= t);
    Some(value as u8)
}

/// Reads a prefix length as written: an octet after an optional `+`.
pub fn read_u8(s: &Vec<char>) -> (r: Option<u8>)
    ensures
        r == parse_u8(s@),
{
    if s.len() > 0 && s[0] == '+' {
        assert(s@.skip(1) =~= s@.drop_first());
        read_octet(s, 1)
    } else {
        assert(s@.skip(0) =~= s@);
        read_octet(s, 0)
    }
}

/// Reads the four octets of a dotted IPv4 address.
pub fn read_ipv4(s: &Vec<char>) -> (r: Option<Vec<u8>>)
    ensures
        match r {
            Some(v) => ipv4_octets(s@) == Some(v@),
            None => ipv4_octets(s@) is None,
        },
{
    let dot: Vec<char> = vec!['.'];
    assert(dot@ =~= seq!['.']);
    let parts = split_chars(s, &dot);
    if parts.len() != 4 {
        return None;
    }
    let ghost texts = split(s@, seq!['.']);
    let mut octets: Vec<u8> = Vec::new();
    let mut i: usize = 0;
    while i < 4
        invariant
            i <= 4,
            parts.len() == 4,
            texts == split(s@, seq!['.']),
            rows(parts@) == texts,
            octets.len() == i,
            forall|j: int| 0 <= j < i ==> octet_value(texts[j]) == Some(#[trigger] octets@[j]),
        decreases 4 - i,
    {
        assert(rows(parts@)[i as int] == parts@[i as int]@);
        assert(parts@[i as int]@.skip(0) =~= parts@[i as int]@);
        match read_octet(&parts[i], 0) {
            Some(o) => {
                octets.push(o);
            },
            None => {
                assert(octet_value(texts[i as int]) is None);
                return None;
            },
        }
        i += 1;
    }
    assert forall|j: int| 0 <= j < 4 implies (#[trigger] octet_value(texts[j])) is Some by {
        assert(octet_value(texts[j]) == Some(octets@[j]));
    }
    assert(octets@ =~= Seq::new(4, |i: int| octet_value(texts[i])->0));
    Some(octets)
}

/// Tests whether `a` and `b` agree on their first `n` characters.
pub(crate) fn leading_agree(a: &Vec<char>, b: &Vec<char>, n: usize) -> (same: bool)
    requires
        n <= a.len(),
        n <= b.len(),
    ensures
        same == (a@.take(n as int) == b@.take(n as int)),
{
    let mut k: usize = 0;
    while k < n
        invariant
            k <= n,
            n <= a.len(),
            n <= b.len(),
            forall|j: int| 0 <= j < k ==> a@[j] == b@[j],
        decreases n - k,
    {
        if a[k] != b[k] {
            assert(a@.take(n as int)[k as int] != b@.take(n as int)[k as int]);
            return false;
        }
        k += 1;
    }
    assert(a@.take(n as int) =~= b@.take(n as int));
    true
}

/// The published IPv4 and IPv6 ranges, one text for each range.
#[derive(Debug)]
pub struct CFIPs {
    pub ipsv4: Vec<String>,
    pub ipsv6: Vec<String>,
}

impl CFIPs {
    /// Takes the two published lists as they were fetched, one range on
    /// each line. Nothing is checked here: a line that is no range holds no
    /// address.
    pub fn load(v4_text: String, v6_text: String) -> (ips: Self)
        ensures
            texts(ips.ipsv4@) == split(v4_text@, seq!['\n']),
            texts(ips.ipsv6@) == split(v6_text@, seq!['\n']),
    {
        proof {
            reveal_strlit("\n");
            assert("\n"@ =~= seq!['\n']);
        }
        let ipsv4 = split_to_string_vec(v4_text, "\n");
        let ipsv6 = split_to_string_vec(v6_text, "\n");
        CFIPs { ipsv4, ipsv6 }
    }

    /// Tests whether one of the IPv4 ranges holds `ip`.
    pub fn check_ip_v4(&self, ip: &str) -> (found: bool)
        ensures
            found == ranges_contain(texts(self.ipsv4@), ip@),
    {
        let mut i: usize = 0;
        while i < self.ipsv4.len()
            invariant
                i <= self.ipsv4.len(),
                forall|j: int| 0 <= j < i ==> !cidr_contains(#[trigger] texts(self.ipsv4@)[j], ip@),
            decreases self.ipsv4.len() - i,
        {
            if Self::check_ip_in_cidr(ip, self.ipsv4[i].as_str()) {
                assert(cidr_contains(texts(self.ipsv4@)[i as int], ip@));
                return true;
            }
            i += 1;
        }
        false
    }

    /// Tests whether the range `cidr_range` holds the address `ip`.
    pub fn check_ip_in_cidr(ip: &str, cidr_range: &str) -> (inside: bool)
        ensures
            inside == cidr_contains(cidr_range@, ip@),
    {
        let ip_chars = chars_of(ip);
        let cidr_chars = chars_of(cidr_range);
        let slash: Vec<char> = vec!['/'];
        assert(slash@ =~= seq!['/']);
        let cidr_parts = split_chars(&cidr_chars, &slash);
        if cidr_parts.len() < 2 {
            return false;
        }
        assert(rows(cidr_parts@)[0] == cidr_parts@[0]@);
        assert(rows(cidr_parts@)[1] == cidr_parts@[1]@);
        let mask_size: usize = match read_u8(&cidr_parts[1]) {
            Some(p) => if p > 32 {
                32
            } else {
                p as usize
            },
            None => 0,
        };
        let address = match read_ipv4(&ip_chars) {
            Some(a) => a,
            None => {
                return false;
            },
        };
        let network = match read_ipv4(&cidr_parts[0]) {
            Some(n) => n,
            None => {
                return false;
            },
        };
        let ip_bin = bytes_to_binary(&address);
        let cidr_bin = bytes_to_binary(&network);
        leading_agree(&ip_bin, &cidr_bin, mask_size)
    }
}

} // verus!
