//! Port specification expansion.
//!
//! A port specification is a comma-separated list of tokens, each either a
//! single decimal port or an inclusive ascending range written
//! `start-end`.  Expansion concatenates each token's ports in order.
//! Malformed tokens (non-numeric, reversed range, out-of-range value,
//! wrong arity) are skipped; they never abort expansion of the remaining
//! tokens.  Duplicates are preserved, not deduplicated.

use vstd::prelude::*;

verus! {

/// Separator between tokens of a port specification.
pub const TOKEN_SEPARATOR: u8 = 44;

/// Separator between the two bounds of a range token.
pub const RANGE_SEPARATOR: u8 = 45;

/// The largest valid port number.
pub const PORT_MAX: u32 = 65535;

pub open spec fn is_ascii_digit(c: u8) -> bool {
    48 <= c <= 57
}

pub open spec fn digit_value(c: u8) -> nat {
    if is_ascii_digit(c) {
        (c - 48) as nat
    } else {
        0
    }
}

pub open spec fn all_digits(s: Seq<u8>) -> bool {
    forall|i: int| 0 <= i < s.len() ==> is_ascii_digit(s[i])
}

/// Value of a decimal digit string, most significant digit first.
pub open spec fn digits_value(s: Seq<u8>) -> nat
    decreases s.len(),
{
    if s.len() == 0 {
        0
    } else {
        digits_value(s.drop_last()) * 10 + digit_value(s.last())
    }
}

/// What a numeric token denotes: a port if it is nonempty, all digits and
/// in range, nothing otherwise.
pub open spec fn spec_parse_port(s: Seq<u8>) -> Option<u16> {
    if s.len() > 0 && all_digits(s) && digits_value(s) <= PORT_MAX {
        Some(digits_value(s) as u16)
    } else {
        None
    }
}

pub open spec fn contains_byte(s: Seq<u8>, b: u8) -> bool {
    exists|i: int| 0 <= i < s.len() && s[i] == b
}

/// Index of the first occurrence of `b` in `s`, or `s.len()` if absent.
pub open spec fn first_index(s: Seq<u8>, b: u8) -> int
    decreases s.len(),
{
    if s.len() == 0 {
        0
    } else if s[0] == b {
        0
    } else {
        1 + first_index(s.drop_first(), b)
    }
}

pub proof fn lemma_first_index(s: Seq<u8>, b: u8)
    ensures
        0 <= first_index(s, b) <= s.len(),
        first_index(s, b) < s.len() ==> s[first_index(s, b)] == b,
        forall|j: int| 0 <= j < first_index(s, b) ==> s[j] != b,
        first_index(s, b) == s.len() ==> !contains_byte(s, b),
    decreases s.len(),
{
    if s.len() > 0 && s[0] != b {
        lemma_first_index(s.drop_first(), b);
        assert forall|j: int| 0 <= j < first_index(s, b) implies s[j] != b by {
            if j > 0 {
                assert(s.drop_first()[j - 1] == s[j]);
            }
        }
        if first_index(s, b) == s.len() {
            assert forall|i: int| 0 <= i < s.len() implies s[i] != b by {
                if i > 0 {
                    assert(s.drop_first()[i - 1] == s[i]);
                }
            }
        }
    }
}

/// The value of a digit string never falls when more digits are appended.
proof fn lemma_digits_value_prefix(s: Seq<u8>, i: int)
    requires
        0 <= i <= s.len(),
    ensures
        digits_value(s.take(i)) <= digits_value(s),
    decreases s.len() - i,
{
    if i < s.len() {
        assert(s.take(i + 1).drop_last() =~= s.take(i));
        assert(s.take(i + 1).last() == s[i]);
        lemma_digits_value_prefix(s, i + 1);
    } else {
        assert(s.take(i) =~= s);
    }
}

/// Parses one decimal token as a port number.  Returns the port exactly
/// when the token is nonempty, all digits, and at most 65535.
pub fn parse_port(token: &[u8]) -> (r: Option<u16>)
    ensures
        r == spec_parse_port(token@),
{
    if token.len() == 0 {
        return None;
    }
    let n = token.len();
    let mut value: u32 = 0;
    let mut i: usize = 0;
    while i < n
        invariant
            n == token@.len(),
            0 <= i <= n,
            all_digits(token@.take(i as int)),
            value == digits_value(token@.take(i as int)),
            value <= PORT_MAX,
        decreases n - i,
    {
        let c = token[i];
        if c < 48 || c > 57 {
            assert(!is_ascii_digit(token@[i as int]));
            assert(!all_digits(token@));
            return None;
        }
        proof {
            assert(token@.take(i as int + 1).drop_last() =~= token@.take(i as int));
            assert(token@.take(i as int + 1).last() == token@[i as int]);
        }
        value = value * 10 + ((c - 48) as u32);
        i = i + 1;
        if value > PORT_MAX {
            proof {
                lemma_digits_value_prefix(token@, i as int);
            }
            return None;
        }
    }
    proof {
        assert(token@.take(n as int) =~= token@);
    }
    Some(value as u16)
}

/// Finds the first occurrence of `b` in `s`; returns `s.len()` if absent.
pub fn find_byte(s: &[u8], b: u8) -> (r: usize)
    ensures
        r == first_index(s@, b),
{
    proof {
        lemma_first_index(s@, b);
    }
    let n = s.len();
    let mut i: usize = 0;
    while i < n
        invariant
            n == s@.len(),
            0 <= i <= n,
            forall|j: int| 0 <= j < i ==> s@[j] != b,
            0 <= first_index(s@, b) <= n,
            first_index(s@, b) < n ==> s@[first_index(s@, b)] == b,
            forall|j: int| 0 <= j < first_index(s@, b) ==> s@[j] != b,
        decreases n - i,
    {
        if s[i] == b {
            return i;
        }
        i = i + 1;
    }
    i
}

/// The inclusive ascending range of ports from `lo` to `hi`.
pub open spec fn spec_port_range(lo: u16, hi: u16) -> Seq<u16> {
    Seq::new((hi - lo + 1) as nat, |i: int| (lo + i) as u16)
}

/// The ports one token contributes: a single port, an inclusive ascending
/// range, or nothing when the token is malformed in any way.
pub open spec fn spec_expand_token(t: Seq<u8>) -> Seq<u16> {
    let d = first_index(t, RANGE_SEPARATOR);
    if d == t.len() {
        match spec_parse_port(t) {
            Some(p) => seq![p],
            None => Seq::empty(),
        }
    } else {
        let rest = t.skip(d + 1);
        if contains_byte(rest, RANGE_SEPARATOR) {
            Seq::empty()
        } else {
            match (spec_parse_port(t.take(d)), spec_parse_port(rest)) {
                (Some(lo), Some(hi)) => if lo <= hi {
                    spec_port_range(lo, hi)
                } else {
                    Seq::empty()
                },
                _ => Seq::empty(),
            }
        }
    }
}

/// Expands one comma-free token.
pub fn expand_token(token: &[u8]) -> (ports: Vec<u16>)
    ensures
        ports@ == spec_expand_token(token@),
{
    let mut ports: Vec<u16> = Vec::new();
    let d = find_byte(token, RANGE_SEPARATOR);
    proof {
        lemma_first_index(token@, RANGE_SEPARATOR);
    }
    if d == token.len() {
        match parse_port(token) {
            Some(p) => {
                ports.push(p);
                assert(ports@ =~= spec_expand_token(token@));
            },
            None => {
                assert(ports@ =~= spec_expand_token(token@));
            },
        }
        return ports;
    }
    let start = vstd::slice::slice_subrange(token, 0, d);
    let rest = vstd::slice::slice_subrange(token, d + 1, token.len());
    assert(start@ =~= token@.take(d as int));
    assert(rest@ =~= token@.skip(d as int + 1));
    let second_dash = find_byte(rest, RANGE_SEPARATOR);
    proof {
        lemma_first_index(rest@, RANGE_SEPARATOR);
    }
    if second_dash < rest.len() {
        assert(contains_byte(rest@, RANGE_SEPARATOR));
        return ports;
    }
    let lo_opt = parse_port(start);
    let hi_opt = parse_port(rest);
    match (lo_opt, hi_opt) {
        (Some(lo), Some(hi)) => {
            if lo <= hi {
                let mut p: u32 = lo as u32;
                while p <= hi as u32
                    invariant
                        lo <= hi,
                        lo as u32 <= p <= hi as u32 + 1,
                        ports@ =~= spec_port_range(lo, hi).take(p - lo),
                    decreases hi as u32 + 1 - p,
                {
                    ports.push(p as u16);
                    p = p + 1;
                    assert(ports@ =~= spec_port_range(lo, hi).take(p - lo));
                }
                assert(ports@ =~= spec_port_range(lo, hi));
            }
        },
        _ => {},
    }
    ports
}

/// The full expansion of a port specification: the current token is
/// accumulated byte by byte, closed at each separator, and the last token
/// is closed at the end of the input.
pub open spec fn spec_expand_rec(s: Seq<u8>, token: Seq<u8>) -> Seq<u16>
    decreases s.len(),
{
    if s.len() == 0 {
        spec_expand_token(token)
    } else if s[0] == TOKEN_SEPARATOR {
        spec_expand_token(token) + spec_expand_rec(s.drop_first(), Seq::empty())
    } else {
        spec_expand_rec(s.drop_first(), token.push(s[0]))
    }
}

/// The ordered ports denoted by a whole port specification.
pub open spec fn spec_expand_ports(s: Seq<u8>) -> Seq<u16> {
    spec_expand_rec(s, Seq::empty())
}

/// A separator-free remainder is consumed into the pending token, which
/// is then closed at the end of the input.
proof fn lemma_expand_rec_no_separator(s: Seq<u8>, token: Seq<u8>)
    requires
        !contains_byte(s, TOKEN_SEPARATOR),
    ensures
        spec_expand_rec(s, token) == spec_expand_token(token + s),
    decreases s.len(),
{
    if s.len() == 0 {
        assert(token + s =~= token);
    } else {
        assert(s[0] != TOKEN_SEPARATOR);
        assert forall|i: int|
            0 <= i < s.drop_first().len() implies s.drop_first()[i] != TOKEN_SEPARATOR by {
            assert(s.drop_first()[i] == s[i + 1]);
        }
        lemma_expand_rec_no_separator(s.drop_first(), token.push(s[0]));
        assert(token.push(s[0]) + s.drop_first() =~= token + s);
    }
}

/// A separator-free head before a separator is one closed token, and the
/// remainder expands on its own.
proof fn lemma_expand_rec_split(s: Seq<u8>, token: Seq<u8>, rest: Seq<u8>)
    requires
        !contains_byte(s, TOKEN_SEPARATOR),
    ensures
        spec_expand_rec(s + seq![TOKEN_SEPARATOR] + rest, token) == spec_expand_token(token + s)
            + spec_expand_rec(rest, Seq::empty()),
    decreases s.len(),
{
    let joined = s + seq![TOKEN_SEPARATOR] + rest;
    if s.len() == 0 {
        assert(joined[0] == TOKEN_SEPARATOR);
        assert(joined.drop_first() =~= rest);
        assert(token + s =~= token);
    } else {
        assert(joined[0] == s[0]);
        assert(s[0] != TOKEN_SEPARATOR);
        assert forall|i: int|
            0 <= i < s.drop_first().len() implies s.drop_first()[i] != TOKEN_SEPARATOR by {
            assert(s.drop_first()[i] == s[i + 1]);
        }
        lemma_expand_rec_split(s.drop_first(), token.push(s[0]), rest);
        assert(joined.drop_first() =~= s.drop_first() + seq![TOKEN_SEPARATOR] + rest);
        assert(token.push(s[0]) + s.drop_first() =~= token + s);
    }
}

/// Expansion law: the expansion of a port specification is the ordered
/// concatenation of each comma-separated token's expansion — a
/// separator-free specification is one token, and a separator-free head
/// followed by a separator contributes its ports before everything the
/// remainder contributes.
pub proof fn lemma_expand_ports_tokenwise(head: Seq<u8>, rest: Seq<u8>)
    requires
        !contains_byte(head, TOKEN_SEPARATOR),
    ensures
        spec_expand_ports(head) == spec_expand_token(head),
        spec_expand_ports(head + seq![TOKEN_SEPARATOR] + rest) == spec_expand_token(head)
            + spec_expand_ports(rest),
{
    lemma_expand_rec_no_separator(head, Seq::empty());
    lemma_expand_rec_split(head, Seq::empty(), rest);
    assert(Seq::<u8>::empty() + head =~= head);
}

/// Expands a comma-separated port specification into the ordered
/// concatenation of each token's ports.  Malformed tokens contribute
/// nothing; an input whose every token is malformed yields an empty
/// sequence, which callers must treat as a configuration error.
pub fn parse_port_ranges(port_spec: &[u8]) -> (ports: Vec<u16>)
    ensures
        ports@ == spec_expand_ports(port_spec@),
{
    let n = port_spec.len();
    let mut ports: Vec<u16> = Vec::new();
    let mut token: Vec<u8> = Vec::new();
    let mut i: usize = 0;
    proof {
        assert(port_spec@.skip(0) =~= port_spec@);
        assert(ports@ + spec_expand_rec(port_spec@, token@) =~= spec_expand_rec(
            port_spec@,
            token@,
        ));
    }
    while i < n
        invariant
            n == port_spec@.len(),
            0 <= i <= n,
            spec_expand_ports(port_spec@) == ports@ + spec_expand_rec(
                port_spec@.skip(i as int),
                token@,
            ),
        decreases n - i,
    {
        let ghost pre_rest = port_spec@.skip(i as int);
        proof {
            assert(pre_rest[0] == port_spec@[i as int]);
            assert(pre_rest.drop_first() =~= port_spec@.skip(i as int + 1));
        }
        let c = port_spec[i];
        if c == TOKEN_SEPARATOR {
            let mut expanded = expand_token(token.as_slice());
            ports.append(&mut expanded);
            token = Vec::new();
        } else {
            token.push(c);
        }
        i = i + 1;
    }
    proof {
        assert(port_spec@.skip(n as int) =~= Seq::<u8>::empty());
    }
    let mut expanded = expand_token(token.as_slice());
    ports.append(&mut expanded);
    ports
}

} // verus!
