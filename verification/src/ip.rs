//! The detected external address: exactly one address family per detection.

use vstd::prelude::*;

verus! {

/// One externally detected address, tagged by family. A detection call
/// produces either an IPv4 or an IPv6 address, never both.
///
/// An IPv4 address is carried as its 32-bit big-endian numeric value, an
/// IPv6 address as its 128-bit numeric value.
#[derive(Clone, Copy, Debug, PartialEq, Eq, Structural)]
pub enum Ip {
    V4(u32),
    V6(u128),
}

impl Ip {
    /// Whether this address belongs to the IPv4 family.
    pub fn is_v4(&self) -> (r: bool)
        ensures
            r == (self is V4),
    {
        match self {
            Ip::V4(_) => true,
            Ip::V6(_) => false,
        }
    }
}

/// The numeric value of the IPv4 address written `a.b.c.d`.
pub open spec fn ipv4_value(a: u8, b: u8, c: u8, d: u8) -> u32 {
    (a * 0x100_0000 + b * 0x1_0000 + c * 0x100 + d) as u32
}

/// Packs the four octets of a dotted-quad IPv4 address into its numeric value.
pub fn ipv4_from_octets(a: u8, b: u8, c: u8, d: u8) -> (r: u32)
    ensures
        r == ipv4_value(a, b, c, d),
{
    (a as u32) * 0x100_0000 + (b as u32) * 0x1_0000 + (c as u32) * 0x100 + (d as u32)
}

/// The numeric value of the IPv6 address with the given eight 16-bit groups,
/// leftmost group first.
pub open spec fn ipv6_value(groups: [u16; 8]) -> u128 {
    ((((groups[0] * 0x1_0000 + groups[1]) * 0x1_0000 + groups[2]) * 0x1_0000 + groups[3])
        * 0x1_0000_0000_0000_0000
        + ((groups[4] * 0x1_0000 + groups[5]) * 0x1_0000 + groups[6]) * 0x1_0000
        + groups[7]) as u128
}

/// Packs the eight colon-separated 16-bit groups of an IPv6 address into its
/// numeric value.
pub fn ipv6_from_groups(groups: [u16; 8]) -> (r: u128)
    ensures
        r == ipv6_value(groups),
{
    let hi: u128 = ((groups[0] as u128) * 0x1_0000 + (groups[1] as u128)) * 0x1_0000 * 0x1_0000
        + (groups[2] as u128) * 0x1_0000 + (groups[3] as u128);
    let lo: u128 = ((groups[4] as u128) * 0x1_0000 + (groups[5] as u128)) * 0x1_0000 * 0x1_0000
        + (groups[6] as u128) * 0x1_0000 + (groups[7] as u128);
    hi * 0x1_0000_0000_0000_0000 + lo
}

/// Whether `c` is a decimal digit.
pub open spec fn is_digit(c: char) -> bool {
    48 <= c as u32 <= 57
}

/// The numeric value of a string of decimal digits, most significant first.
pub open spec fn field_value(f: Seq<char>) -> int
    decreases f.len(),
{
    if f.len() == 0 {
        0
    } else {
        field_value(f.drop_last()) * 10 + (f.last() as u32 - 48)
    }
}

/// The fields of `s` between occurrences of `c`, empty fields kept: one more
/// field than there are occurrences.
pub open spec fn split_on(s: Seq<char>, c: char) -> Seq<Seq<char>>
    decreases s.len(),
{
    if s.len() == 0 {
        seq![Seq::<char>::empty()]
    } else if s[0] == c {
        seq![Seq::<char>::empty()] + split_on(s.drop_first(), c)
    } else {
        let rest = split_on(s.drop_first(), c);
        seq![seq![s[0]] + rest[0]] + rest.drop_first()
    }
}

/// A valid dotted-quad octet field: one to three decimal digits, no leading
/// zero unless the field is exactly `0`, value at most 255.
pub open spec fn valid_octet(f: Seq<char>) -> bool {
    &&& 1 <= f.len() <= 3
    &&& (forall|j: int| 0 <= j < f.len() ==> is_digit(#[trigger] f[j]))
    &&& (f.len() > 1 ==> f[0] != '0')
    &&& field_value(f) <= 255
}

/// What parsing a dotted-quad IPv4 literal yields: the packed numeric value
/// when `s` is exactly four valid octet fields separated by dots, nothing
/// otherwise.
pub open spec fn parse_ipv4_spec(s: Seq<char>) -> Option<u32> {
    let fields = split_on(s, '.');
    if fields.len() == 4 && (forall|j: int| 0 <= j < 4 ==> valid_octet(#[trigger] fields[j])) {
        Some(
            (field_value(fields[0]) * 0x100_0000 + field_value(fields[1]) * 0x1_0000 + field_value(
                fields[2],
            ) * 0x100 + field_value(fields[3])) as u32,
        )
    } else {
        None
    }
}

proof fn lemma_split_no_sep(s: Seq<char>, c: char)
    requires
        forall|j: int| 0 <= j < s.len() ==> s[j] != c,
    ensures
        split_on(s, c) =~~= seq![s],
    decreases s.len(),
{
    if s.len() == 0 {
        assert(s =~= Seq::<char>::empty());
    } else {
        lemma_split_no_sep(s.drop_first(), c);
        assert(seq![s[0]] + s.drop_first() =~= s);
    }
}

proof fn lemma_split_at_first(s: Seq<char>, c: char, i: int)
    requires
        0 <= i < s.len(),
        s[i] == c,
        forall|j: int| 0 <= j < i ==> s[j] != c,
    ensures
        split_on(s, c) =~~= seq![s.take(i)] + split_on(s.skip(i + 1), c),
    decreases i,
{
    if i == 0 {
        assert(s.take(0) =~= Seq::<char>::empty());
        assert(s.skip(1) =~= s.drop_first());
    } else {
        lemma_split_at_first(s.drop_first(), c, i - 1);
        assert(s.drop_first().skip(i) =~= s.skip(i + 1));
        assert(seq![s[0]] + s.drop_first().take(i - 1) =~= s.take(i));
        let rest = split_on(s.drop_first(), c);
        assert(rest == seq![s.drop_first().take(i - 1)] + split_on(s.skip(i + 1), c));
        assert(rest.drop_first() =~~= split_on(s.skip(i + 1), c));
    }
}

/// The index of the first occurrence of `c` in `s` at or after `from`.
fn find_char_from(s: &str, c: char, from: usize) -> (r: Option<usize>)
    requires
        from <= s@.len(),
    ensures
        match r {
            Some(i) => {
                &&& from <= i < s@.len()
                &&& s@[i as int] == c
                &&& forall|j: int| from <= j < i ==> s@[j] != c
            },
            None => forall|j: int| from <= j < s@.len() ==> s@[j] != c,
        },
{
    let n = s.unicode_len();
    let mut i: usize = from;
    while i < n
        invariant
            from <= i <= n,
            n == s@.len(),
            forall|j: int| from <= j < i ==> s@[j] != c,
        decreases n - i,
    {
        if s.get_char(i) == c {
            return Some(i);
        }
        i = i + 1;
    }
    None
}

/// Parses one octet field: one to three decimal digits, no leading zero,
/// value at most 255.
fn parse_octet(f: &str) -> (r: Option<u32>)
    ensures
        match r {
            Some(v) => valid_octet(f@) && v as int == field_value(f@),
            None => !valid_octet(f@),
        },
{
    let n = f.unicode_len();
    if n == 0 || n > 3 {
        return None;
    }
    if n > 1 && f.get_char(0) == '0' {
        return None;
    }
    let mut value: u32 = 0;
    let mut i: usize = 0;
    proof {
        assert(f@.take(0) =~= Seq::<char>::empty());
    }
    while i < n
        invariant
            i <= n,
            n == f@.len(),
            1 <= n <= 3,
            forall|j: int| 0 <= j < i ==> is_digit(#[trigger] f@[j]),
            value as int == field_value(f@.take(i as int)),
            value < 1000,
        decreases n - i,
    {
        let code = f.get_char(i) as u32;
        if code < 48 || code > 57 {
            return None;
        }
        proof {
            let taken = f@.take(i as int + 1);
            assert(taken.drop_last() =~= f@.take(i as int));
            assert(taken.last() == f@[i as int]);
            lemma_field_value_bound(f@.take(i as int));
        }
        value = value * 10 + (code - 48);
        i = i + 1;
    }
    proof {
        assert(f@.take(n as int) =~= f@);
    }
    if value > 255 {
        return None;
    }
    Some(value)
}

/// Bounds a digit string's value by its length: each digit multiplies the
/// reachable range by ten.
proof fn lemma_field_value_bound(f: Seq<char>)
    requires
        forall|j: int| 0 <= j < f.len() ==> is_digit(#[trigger] f[j]),
    ensures
        0 <= field_value(f),
        f.len() <= 1 ==> field_value(f) < 10,
        f.len() <= 2 ==> field_value(f) < 100,
        f.len() <= 3 ==> field_value(f) < 1000,
    decreases f.len(),
{
    if f.len() > 0 {
        lemma_field_value_bound(f.drop_last());
    }
}

/// Parses a dotted-quad IPv4 literal into its packed numeric value: exactly
/// the address [`parse_ipv4_spec`] gives, nothing for any other text.
#[verifier::rlimit(50)]
pub fn parse_ipv4(s: &str) -> (r: Option<u32>)
    ensures
        r == parse_ipv4_spec(s@),
{
    let n = s.unicode_len();
    let d1 = match find_char_from(s, '.', 0) {
        Some(i) => i,
        None => {
            proof {
                lemma_split_no_sep(s@, '.');
            }
            return None;
        },
    };
    proof {
        lemma_split_at_first(s@, '.', d1 as int);
    }
    let ghost tail1 = s@.skip(d1 as int + 1);
    let d2 = match find_char_from(s, '.', d1 + 1) {
        Some(i) => i,
        None => {
            proof {
                assert(forall|j: int| 0 <= j < tail1.len() ==> tail1[j] != '.');
                lemma_split_no_sep(tail1, '.');
            }
            return None;
        },
    };
    proof {
        assert(forall|j: int| 0 <= j < d2 - d1 - 1 ==> tail1[j] != '.');
        assert(tail1[d2 - d1 - 1] == '.');
        lemma_split_at_first(tail1, '.', d2 - d1 - 1);
        assert(tail1.skip(d2 - d1) =~= s@.skip(d2 as int + 1));
    }
    let ghost tail2 = s@.skip(d2 as int + 1);
    let d3 = match find_char_from(s, '.', d2 + 1) {
        Some(i) => i,
        None => {
            proof {
                assert(forall|j: int| 0 <= j < tail2.len() ==> tail2[j] != '.');
                lemma_split_no_sep(tail2, '.');
            }
            return None;
        },
    };
    proof {
        assert(forall|j: int| 0 <= j < d3 - d2 - 1 ==> tail2[j] != '.');
        assert(tail2[d3 - d2 - 1] == '.');
        lemma_split_at_first(tail2, '.', d3 - d2 - 1);
        assert(tail2.skip(d3 - d2) =~= s@.skip(d3 as int + 1));
    }
    let ghost tail3 = s@.skip(d3 as int + 1);
    if let Some(d4) = find_char_from(s, '.', d3 + 1) {
        proof {
            assert(forall|j: int| 0 <= j < d4 - d3 - 1 ==> tail3[j] != '.');
            assert(tail3[d4 - d3 - 1] == '.');
            lemma_split_at_first(tail3, '.', d4 - d3 - 1);
        }
        return None;
    }
    proof {
        assert(forall|j: int| 0 <= j < tail3.len() ==> tail3[j] != '.');
        lemma_split_no_sep(tail3, '.');
    }

    let f0 = s.substring_char(0, d1);
    let f1 = s.substring_char(d1 + 1, d2);
    let f2 = s.substring_char(d2 + 1, d3);
    let f3 = s.substring_char(d3 + 1, n);
    proof {
        assert(f0@ =~= s@.take(d1 as int));
        assert(f1@ =~= tail1.take(d2 - d1 - 1));
        assert(f2@ =~= tail2.take(d3 - d2 - 1));
        assert(f3@ =~= tail3);
        assert(split_on(s@, '.') =~~= seq![f0@, f1@, f2@, f3@]);
    }

    let v0 = match parse_octet(f0) {
        Some(v) => v,
        None => {
            return None;
        },
    };
    let v1 = match parse_octet(f1) {
        Some(v) => v,
        None => {
            return None;
        },
    };
    let v2 = match parse_octet(f2) {
        Some(v) => v,
        None => {
            return None;
        },
    };
    let v3 = match parse_octet(f3) {
        Some(v) => v,
        None => {
            return None;
        },
    };
    Some(v0 * 0x100_0000 + v1 * 0x1_0000 + v2 * 0x100 + v3)
}

} // verus!
