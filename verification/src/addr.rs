//! Candidate address construction.
//!
//! A host specification resolves (outside this crate) to an ordered list of
//! IP addresses; this module filters that list by the requested address
//! family and pairs it with the expanded ports into the ordered candidate
//! sequence the session tries.  Pairing is address-major: every port is
//! tried against one address before the next address is considered.  Zero
//! candidates is never returned silently; it is a resolution error.

use vstd::prelude::*;

use crate::errors::ResolutionError;
use crate::AddressType;

verus! {

/// One concrete IP address: a v4 address as its 32-bit numeric value or a
/// v6 address as its 128-bit numeric value (both big-endian, as std's
/// conversions from the socket address types produce).
#[derive(Debug, Clone, Copy, PartialEq, Eq, Structural)]
pub enum IpAddress {
    V4(u32),
    V6(u128),
}

/// One resolved `(IP, port)` pair, eligible for a single connection
/// attempt.
#[derive(Debug, Clone, Copy, PartialEq, Eq, Structural)]
pub struct CandidateAddress {
    pub ip: IpAddress,
    pub port: u16,
}

/// Whether an address belongs to the requested family.
pub open spec fn family_matches(ip: IpAddress, family: AddressType) -> bool {
    match family {
        AddressType::IP => true,
        AddressType::IPv4 => ip is V4,
        AddressType::IPv6 => ip is V6,
    }
}

/// Runtime test matching [`family_matches`].
pub fn matches_family(ip: IpAddress, family: AddressType) -> (r: bool)
    ensures
        r == family_matches(ip, family),
{
    match family {
        AddressType::IP => true,
        AddressType::IPv4 => matches!(ip, IpAddress::V4(_)),
        AddressType::IPv6 => matches!(ip, IpAddress::V6(_)),
    }
}

/// The subsequence of `ips` in the requested family, order kept.
pub open spec fn spec_filter_family(ips: Seq<IpAddress>, family: AddressType) -> Seq<IpAddress>
    decreases ips.len(),
{
    if ips.len() == 0 {
        Seq::empty()
    } else {
        let rest = spec_filter_family(ips.drop_last(), family);
        if family_matches(ips.last(), family) {
            rest.push(ips.last())
        } else {
            rest
        }
    }
}

/// All requested ports paired with one address, in port order.
pub open spec fn spec_candidate_row(ip: IpAddress, ports: Seq<u16>) -> Seq<CandidateAddress> {
    Seq::new(ports.len(), |i: int| CandidateAddress { ip: ip, port: ports[i] })
}

/// The candidate sequence: the rows of all addresses in order, so ports
/// vary fastest.
pub open spec fn spec_pair_candidates(ips: Seq<IpAddress>, ports: Seq<u16>) -> Seq<
    CandidateAddress,
>
    decreases ips.len(),
{
    if ips.len() == 0 {
        Seq::empty()
    } else {
        spec_candidate_row(ips[0], ports) + spec_pair_candidates(ips.drop_first(), ports)
    }
}

pub proof fn lemma_pair_candidates_len(ips: Seq<IpAddress>, ports: Seq<u16>)
    ensures
        spec_pair_candidates(ips, ports).len() == ips.len() * ports.len(),
    decreases ips.len(),
{
    if ips.len() > 0 {
        lemma_pair_candidates_len(ips.drop_first(), ports);
        assert(ports.len() + (ips.len() - 1) * ports.len() == ips.len() * ports.len())
            by (nonlinear_arith);
    }
}

/// Pairing order law: the candidate at position `i * |ports| + j` pairs
/// the `i`-th address with the `j`-th port, so for each address all ports
/// are tried, in order, before the next address is considered.
pub proof fn lemma_pair_candidates_index(ips: Seq<IpAddress>, ports: Seq<u16>, i: int, j: int)
    requires
        0 <= i < ips.len(),
        0 <= j < ports.len(),
    ensures
        0 <= i * ports.len() + j < spec_pair_candidates(ips, ports).len(),
        spec_pair_candidates(ips, ports)[i * ports.len() + j] == (CandidateAddress {
            ip: ips[i],
            port: ports[j],
        }),
    decreases i,
{
    lemma_pair_candidates_len(ips, ports);
    let plen = ports.len() as int;
    assert(0 <= i * plen + j && (i * plen + j) < ips.len() * plen) by (nonlinear_arith)
        requires
            0 <= i < ips.len(),
            0 <= j < plen,
    ;
    if i == 0 {
        assert(i * plen + j == j) by (nonlinear_arith)
            requires
                i == 0,
        ;
        assert(spec_pair_candidates(ips, ports)[j] == spec_candidate_row(ips[0], ports)[j]);
        assert(spec_candidate_row(ips[0], ports)[j] == (CandidateAddress {
            ip: ips[0],
            port: ports[j],
        }));
    } else {
        lemma_pair_candidates_index(ips.drop_first(), ports, i - 1, j);
        assert(plen <= i * plen) by (nonlinear_arith)
            requires
                1 <= i,
                0 <= plen,
        ;
        assert((i - 1) * plen + j == i * plen + j - plen) by (nonlinear_arith);
        assert(spec_pair_candidates(ips, ports)[i * plen + j] == spec_pair_candidates(
            ips.drop_first(),
            ports,
        )[i * plen + j - plen]);
        assert(ips.drop_first()[i - 1] == ips[i]);
    }
}

/// Appending one address appends its row of candidates.
proof fn lemma_pair_candidates_snoc(ips: Seq<IpAddress>, ports: Seq<u16>)
    requires
        ips.len() > 0,
    ensures
        spec_pair_candidates(ips, ports) == spec_pair_candidates(ips.drop_last(), ports)
            + spec_candidate_row(ips.last(), ports),
    decreases ips.len(),
{
    if ips.len() == 1 {
        assert(spec_pair_candidates(ips.drop_first(), ports) =~= Seq::<CandidateAddress>::empty());
        assert(spec_pair_candidates(ips, ports) =~= spec_candidate_row(ips.last(), ports));
        assert(spec_pair_candidates(ips.drop_last(), ports) + spec_candidate_row(ips.last(), ports)
            =~= spec_candidate_row(ips.last(), ports));
    } else {
        let rest = ips.drop_first();
        lemma_pair_candidates_snoc(rest, ports);
        assert(rest.drop_last() =~= ips.drop_last().drop_first());
        assert(rest.last() == ips.last());
        assert(ips.drop_last()[0] == ips[0]);
        assert(spec_pair_candidates(ips, ports) =~= spec_pair_candidates(ips.drop_last(), ports)
            + spec_candidate_row(ips.last(), ports));
    }
}

/// What resolution yields for given addresses, ports and family: the
/// paired candidates, or the error naming what was missing.
pub open spec fn spec_resolve(ips: Seq<IpAddress>, ports: Seq<u16>, family: AddressType) -> Result<
    Seq<CandidateAddress>,
    ResolutionError,
> {
    if ips.len() == 0 {
        Err(ResolutionError::NoAddresses)
    } else if spec_filter_family(ips, family).len() == 0 {
        Err(ResolutionError::FamilyMismatch)
    } else if ports.len() == 0 {
        Err(ResolutionError::NoPorts)
    } else {
        Ok(spec_pair_candidates(spec_filter_family(ips, family), ports))
    }
}

/// The subsequence of `ips` in the requested family, order kept.
pub fn filter_family(ips: &Vec<IpAddress>, family: AddressType) -> (r: Vec<IpAddress>)
    ensures
        r@ == spec_filter_family(ips@, family),
{
    let n = ips.len();
    let mut out: Vec<IpAddress> = Vec::new();
    let mut i: usize = 0;
    while i < n
        invariant
            n == ips@.len(),
            0 <= i <= n,
            out@ == spec_filter_family(ips@.take(i as int), family),
        decreases n - i,
    {
        proof {
            assert(ips@.take(i as int + 1).drop_last() =~= ips@.take(i as int));
            assert(ips@.take(i as int + 1).last() == ips@[i as int]);
        }
        if matches_family(ips[i], family) {
            out.push(ips[i]);
        }
        i = i + 1;
    }
    proof {
        assert(ips@.take(n as int) =~= ips@);
    }
    out
}

/// Builds the ordered candidate sequence from the resolved addresses and
/// the expanded ports.  Fails, rather than returning an empty sequence,
/// when no address was resolved, when the family restriction rules every
/// address out, or when no port was requested.
pub fn resolve(ips: &Vec<IpAddress>, ports: &Vec<u16>, family: AddressType) -> (r: Result<
    Vec<CandidateAddress>,
    ResolutionError,
>)
    ensures
        (match spec_resolve(ips@, ports@, family) {
            Ok(c) => r matches Ok(v) && v@ == c,
            Err(e) => r matches Err(e2) && e2 == e,
        }),
        r matches Ok(v) ==> v@.len() > 0,
{
    if ips.len() == 0 {
        return Err(ResolutionError::NoAddresses);
    }
    let filtered = filter_family(ips, family);
    if filtered.len() == 0 {
        return Err(ResolutionError::FamilyMismatch);
    }
    if ports.len() == 0 {
        return Err(ResolutionError::NoPorts);
    }
    let fn_ = filtered.len();
    let pn = ports.len();
    let mut out: Vec<CandidateAddress> = Vec::new();
    let mut i: usize = 0;
    proof {
        assert(spec_pair_candidates(filtered@.take(0), ports@) =~= Seq::<
            CandidateAddress,
        >::empty());
    }
    while i < fn_
        invariant
            fn_ == filtered@.len(),
            pn == ports@.len(),
            0 <= i <= fn_,
            out@ == spec_pair_candidates(filtered@.take(i as int), ports@),
        decreases fn_ - i,
    {
        let ip = filtered[i];
        let mut j: usize = 0;
        proof {
            assert(spec_candidate_row(ip, ports@.take(0)) =~= Seq::<CandidateAddress>::empty());
            assert(out@ + spec_candidate_row(ip, ports@.take(0)) =~= out@);
        }
        let ghost row_base = out@;
        while j < pn
            invariant
                fn_ == filtered@.len(),
                pn == ports@.len(),
                0 <= i < fn_,
                0 <= j <= pn,
                ip == filtered@[i as int],
                row_base == spec_pair_candidates(filtered@.take(i as int), ports@),
                out@ == row_base + spec_candidate_row(ip, ports@.take(j as int)),
            decreases pn - j,
        {
            out.push(CandidateAddress { ip: ip, port: ports[j] });
            proof {
                assert(spec_candidate_row(ip, ports@.take(j as int + 1)) =~= spec_candidate_row(
                    ip,
                    ports@.take(j as int),
                ).push(CandidateAddress { ip: ip, port: ports@[j as int] }));
            }
            j = j + 1;
        }
        proof {
            assert(ports@.take(pn as int) =~= ports@);
            assert(filtered@.take(i as int + 1).drop_last() =~= filtered@.take(i as int));
            assert(filtered@.take(i as int + 1).last() == filtered@[i as int]);
            lemma_pair_candidates_snoc(filtered@.take(i as int + 1), ports@);
        }
        i = i + 1;
    }
    proof {
        assert(filtered@.take(fn_ as int) =~= filtered@);
        lemma_pair_candidates_len(filtered@, ports@);
        assert(filtered@.len() * ports@.len() > 0) by (nonlinear_arith)
            requires
                filtered@.len() > 0,
                ports@.len() > 0,
        ;
    }
    Ok(out)
}

} // verus!
