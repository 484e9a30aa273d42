//! The server blocklist: a set of SHA-1 digests of blocked address patterns,
//! and the membership test that checks an address and all of its wildcard
//! generalizations against it.
//!
//! An address is split on dots. A dotted quad of decimal numbers up to 255 is
//! generalized from the right (`1.2.3.4`, `1.2.3.*`, `1.2.*`, `1.*`); anything
//! else counts as a hostname and is generalized from the left (`a.b.c`,
//! `*.b.c`, `*.c`). The address is blocked when the lowercase hex SHA-1
//! digest of any of these candidate patterns is in the set.

use vstd::prelude::*;

use crate::hashing::{hash_hex, lower_of, spec_hash_hex, to_lowercase_str};
use crate::text::{
    join_dot, lemma_join_of_split, lemma_split_at_least_one, lemma_split_of_join, spec_join,
    spec_split, split_on,
};

verus! {

/// The hashes of all blocked address patterns.
#[derive(Debug, Clone)]
pub struct BlockedServers {
    /// Lowercase hex SHA-1 digests, one per blocked pattern.
    pub hashes: Vec<String>,
}

impl View for BlockedServers {
    type V = Seq<Seq<char>>;

    open spec fn view(&self) -> Seq<Seq<char>> {
        self.hashes.deep_view()
    }
}

/// A decimal digit.
pub open spec fn spec_is_digit(c: char) -> bool {
    '0' <= c && c <= '9'
}

/// The numeric value of a string of decimal digits.
pub open spec fn spec_digits_val(p: Seq<char>) -> int
    decreases p.len(),
{
    if p.len() == 0 {
        0
    } else {
        spec_digits_val(p.drop_last()) * 10 + (p.last() as int - '0' as int)
    }
}

/// A valid dotted-quad component: decimal digits only, value at most 255.
pub open spec fn spec_is_octet(p: Seq<char>) -> bool {
    &&& p.len() > 0
    &&& forall|i: int| 0 <= i < p.len() ==> spec_is_digit(#[trigger] p[i])
    &&& spec_digits_val(p) <= 255
}

/// Whether the dot-separated pieces of an address form an IPv4 literal:
/// exactly four pieces, each a valid octet.
pub open spec fn spec_is_ipv4(parts: Seq<Seq<char>>) -> bool {
    parts.len() == 4 && (forall|i: int| 0 <= i < parts.len() ==> spec_is_octet(#[trigger] parts[i]))
}

/// The candidate patterns for an IPv4 literal, most specific first: the full
/// literal, then each proper prefix of octets followed by `.*`.
pub open spec fn spec_ipv4_candidates(parts: Seq<Seq<char>>) -> Seq<Seq<char>> {
    Seq::new(
        parts.len(),
        |j: int|
            if j == 0 {
                spec_join(parts, '.')
            } else {
                spec_join(parts.take(parts.len() - j), '.') + seq!['.', '*']
            },
    )
}

/// The candidate patterns for a hostname, most specific first: the full name,
/// then `*.` followed by each proper suffix of labels.
pub open spec fn spec_host_candidates(parts: Seq<Seq<char>>) -> Seq<Seq<char>> {
    Seq::new(
        parts.len(),
        |j: int|
            if j == 0 {
                spec_join(parts, '.')
            } else {
                seq!['*', '.'] + spec_join(parts.skip(j), '.')
            },
    )
}

/// All candidate patterns derived from dot-separated pieces.
pub open spec fn spec_candidates(parts: Seq<Seq<char>>) -> Seq<Seq<char>> {
    if spec_is_ipv4(parts) {
        spec_ipv4_candidates(parts)
    } else {
        spec_host_candidates(parts)
    }
}

/// Whether `address` is blocked by `hashes`: some candidate pattern derived
/// from it hashes to a member of the set.
pub open spec fn spec_blocked(hashes: Seq<Seq<char>>, address: Seq<char>) -> bool {
    let cands = spec_candidates(spec_split(address, '.'));
    exists|k: int| 0 <= k < cands.len() && hashes.contains(spec_hash_hex(#[trigger] cands[k]))
}

/// An empty set blocks no address at all.
pub proof fn lemma_empty_set_blocks_nothing(address: Seq<char>)
    ensures
        !spec_blocked(Seq::<Seq<char>>::empty(), address),
{
    let cands = spec_candidates(spec_split(address, '.'));
    assert forall|k: int| 0 <= k < cands.len() implies !Seq::<Seq<char>>::empty().contains(
        spec_hash_hex(cands[k]),
    ) by {
        assert(Seq::<Seq<char>>::empty().len() == 0);
    }
}

/// The matcher is a function of the set's contents and the address alone:
/// equal inputs always give the same verdict.
pub proof fn lemma_blocked_deterministic(
    hashes1: Seq<Seq<char>>,
    hashes2: Seq<Seq<char>>,
    address1: Seq<char>,
    address2: Seq<char>,
)
    requires
        hashes1 == hashes2,
        address1 == address2,
    ensures
        spec_blocked(hashes1, address1) == spec_blocked(hashes2, address2),
{
}

/// The verdict depends on the set of hashes alone: two lists with the same
/// members block the same addresses, whatever their order or multiplicity.
pub proof fn lemma_blocked_depends_on_membership(
    hashes1: Seq<Seq<char>>,
    hashes2: Seq<Seq<char>>,
    address: Seq<char>,
)
    requires
        forall|x: Seq<char>| hashes1.contains(x) <==> hashes2.contains(x),
    ensures
        spec_blocked(hashes1, address) == spec_blocked(hashes2, address),
{
    let cands = spec_candidates(spec_split(address, '.'));
    assert forall|k: int| 0 <= k < cands.len() implies (hashes1.contains(
        spec_hash_hex(cands[k]),
    ) == hashes2.contains(spec_hash_hex(cands[k]))) by {
        assert(hashes1.contains(spec_hash_hex(cands[k])) <==> hashes2.contains(
            spec_hash_hex(cands[k]),
        ));
    }
}

/// An address whose own hash is in the set is blocked: the full literal is
/// always the first candidate pattern.
pub proof fn lemma_exact_hash_blocked(hashes: Seq<Seq<char>>, address: Seq<char>)
    requires
        hashes.contains(spec_hash_hex(address)),
    ensures
        spec_blocked(hashes, address),
{
    lemma_split_at_least_one(address, '.');
    lemma_join_of_split(address, '.');
    let parts = spec_split(address, '.');
    let cands = spec_candidates(parts);
    assert(cands[0] == spec_join(parts, '.'));
    assert(hashes.contains(spec_hash_hex(cands[0])));
}

/// Pieces made of decimal digits never contain a dot.
proof fn lemma_octets_dot_free(parts: Seq<Seq<char>>)
    requires
        forall|i: int| 0 <= i < parts.len() ==> spec_is_octet(#[trigger] parts[i]),
    ensures
        forall|i: int| 0 <= i < parts.len() ==> !(#[trigger] parts[i]).contains('.'),
{
    assert forall|i: int| 0 <= i < parts.len() implies !(#[trigger] parts[i]).contains('.') by {
        assert forall|j: int| 0 <= j < parts[i].len() implies parts[i][j] != '.' by {
            assert(spec_is_digit(parts[i][j]));
        }
    }
}

/// A dotted quad is blocked whenever the set holds the hash of one of its
/// wildcard generalizations: the first `4 - j` octets followed by `.*` —
/// whatever the remaining octets are.
pub proof fn lemma_ipv4_wildcard_blocked(hashes: Seq<Seq<char>>, parts: Seq<Seq<char>>, j: int)
    requires
        spec_is_ipv4(parts),
        1 <= j <= 3,
        hashes.contains(spec_hash_hex(spec_join(parts.take(4 - j), '.') + seq!['.', '*'])),
    ensures
        spec_blocked(hashes, spec_join(parts, '.')),
{
    lemma_octets_dot_free(parts);
    lemma_split_of_join(parts, '.');
    let cands = spec_candidates(parts);
    assert(cands[j] == spec_join(parts.take(4 - j), '.') + seq!['.', '*']);
    assert(hashes.contains(spec_hash_hex(cands[j])));
}

/// A hostname is blocked whenever the set holds the hash of one of its
/// wildcard generalizations: `*.` followed by its labels from position `j`
/// on — whatever the leading labels are.
pub proof fn lemma_hostname_wildcard_blocked(hashes: Seq<Seq<char>>, parts: Seq<Seq<char>>, j: int)
    requires
        !spec_is_ipv4(parts),
        1 <= j < parts.len(),
        forall|i: int| 0 <= i < parts.len() ==> !(#[trigger] parts[i]).contains('.'),
        hashes.contains(spec_hash_hex(seq!['*', '.'] + spec_join(parts.skip(j), '.'))),
    ensures
        spec_blocked(hashes, spec_join(parts, '.')),
{
    lemma_split_of_join(parts, '.');
    let cands = spec_candidates(parts);
    assert(cands[j] == seq!['*', '.'] + spec_join(parts.skip(j), '.'));
    assert(hashes.contains(spec_hash_hex(cands[j])));
}

/// An address that does not split into four valid octets — a wrong piece
/// count, a non-numeric piece, or a number over 255 — is matched with
/// hostname patterns only.
pub proof fn lemma_not_ipv4_uses_hostname_patterns(address: Seq<char>)
    requires
        !spec_is_ipv4(spec_split(address, '.')),
    ensures
        spec_candidates(spec_split(address, '.')) == spec_host_candidates(spec_split(address, '.')),
{
}

fn is_octet(p: &String) -> (r: bool)
    ensures
        r == spec_is_octet(p@),
{
    let n = p.as_str().unicode_len();
    if n == 0 {
        return false;
    }
    let mut val: u32 = 0;
    let mut i: usize = 0;
    proof {
        assert(p@.take(0) =~= Seq::<char>::empty());
    }
    while i < n
        invariant
            i <= n,
            n == p@.len(),
            forall|j: int| 0 <= j < i ==> spec_is_digit(#[trigger] p@[j]),
            spec_digits_val(p@.take(i as int)) <= 255 ==> val == spec_digits_val(p@.take(i as int)),
            spec_digits_val(p@.take(i as int)) > 255 ==> val > 255,
            val <= 2559,
        decreases n - i,
    {
        let c = p.as_str().get_char(i);
        if c < '0' || c > '9' {
            assert(!spec_is_digit(p@[i as int]));
            return false;
        }
        let d = (c as u32) - ('0' as u32);
        if val <= 255 {
            val = val * 10 + d;
        }
        proof {
            assert(p@.take(i + 1).drop_last() =~= p@.take(i as int));
            assert(p@.take(i + 1).last() == p@[i as int]);
        }
        i += 1;
    }
    proof {
        assert(p@.take(n as int) =~= p@);
    }
    val <= 255
}

/// Whether the dot-separated pieces form an IPv4 literal.
pub fn is_v4_ip(ip: &Vec<String>) -> (r: bool)
    ensures
        r == spec_is_ipv4(ip.deep_view()),
{
    if ip.len() != 4 {
        return false;
    }
    let mut i: usize = 0;
    while i < ip.len()
        invariant
            i <= ip.len() == 4,
            forall|j: int| 0 <= j < i ==> spec_is_octet(#[trigger] ip.deep_view()[j]),
        decreases ip.len() - i,
    {
        if !is_octet(&ip[i]) {
            assert(!spec_is_octet(ip.deep_view()[i as int]));
            return false;
        }
        i += 1;
    }
    true
}

fn contains_hash(hashes: &Vec<String>, h: &String) -> (r: bool)
    ensures
        r == hashes.deep_view().contains(h@),
{
    let mut k: usize = 0;
    while k < hashes.len()
        invariant
            k <= hashes.len(),
            forall|t: int| 0 <= t < k ==> hashes.deep_view()[t] != h@,
        decreases hashes.len() - k,
    {
        let entry = &hashes[k];
        if entry.eq(h) {
            assert(hashes.deep_view()[k as int] == h@);
            return true;
        }
        k += 1;
    }
    false
}

fn candidate_at(parts: &Vec<String>, j: usize, v4: bool) -> (c: String)
    requires
        j < parts.len(),
        v4 == spec_is_ipv4(parts.deep_view()),
    ensures
        c@ == spec_candidates(parts.deep_view())[j as int],
{
    if j == 0 {
        let c = join_dot(parts, 0, parts.len());
        proof {
            assert(parts.deep_view().subrange(0, parts.len() as int) =~= parts.deep_view());
        }
        c
    } else if v4 {
        let mut c = join_dot(parts, 0, parts.len() - j);
        c.append(".*");
        proof {
            reveal_strlit(".*");
            assert(".*"@ =~= seq!['.', '*']);
            assert(parts.deep_view().subrange(0, parts.len() - j) =~= parts.deep_view().take(
                parts.deep_view().len() - j,
            ));
        }
        c
    } else {
        let mut c = String::from_str("*.");
        let rest = join_dot(parts, j, parts.len());
        c.append(rest.as_str());
        proof {
            reveal_strlit("*.");
            assert("*."@ =~= seq!['*', '.']);
            assert(parts.deep_view().subrange(j as int, parts.len() as int)
                =~= parts.deep_view().skip(j as int));
        }
        c
    }
}

/// Checks whether an address in its final, lowercase form is blocked by the
/// given list of hashes.
pub fn blocked_exact_by(hashes: &Vec<String>, server: &str) -> (r: bool)
    ensures
        r == spec_blocked(hashes.deep_view(), server@),
{
    let parts = split_on(server, '.');
    proof {
        lemma_split_at_least_one(server@, '.');
    }
    let v4 = is_v4_ip(&parts);
    let n = parts.len();
    let mut found = false;
    let mut j: usize = 0;
    while j < n
        invariant
            n == parts.len(),
            parts.len() >= 1,
            parts.deep_view() == spec_split(server@, '.'),
            v4 == spec_is_ipv4(parts.deep_view()),
            j <= n,
            spec_candidates(parts.deep_view()).len() == n,
            found == exists|k: int|
                0 <= k < j && hashes.deep_view().contains(
                    spec_hash_hex(#[trigger] spec_candidates(parts.deep_view())[k]),
                ),
        decreases n - j,
    {
        let cand = candidate_at(&parts, j, v4);
        let h = hash_hex(cand.as_str());
        let hit = contains_hash(hashes, &h);
        proof {
            let cands = spec_candidates(parts.deep_view());
            if hit {
                assert(hashes.deep_view().contains(spec_hash_hex(cands[j as int])));
            }
        }
        found = found || hit;
        j += 1;
    }
    found
}

impl BlockedServers {
    /// Builds the set from the raw blocklist text, one hash per line. Lines
    /// are kept exactly as they stand; a malformed line never matches any
    /// candidate hash and is harmless.
    pub fn new(raw: &str) -> (r: BlockedServers)
        ensures
            r@ == spec_split(raw@, '\n'),
    {
        BlockedServers { hashes: split_on(raw, '\n') }
    }

    /// Checks whether an address in its final, lowercase form is blocked.
    pub fn blocked_exact(&self, server: &str) -> (r: bool)
        ensures
            r == spec_blocked(self@, server@),
    {
        blocked_exact_by(&self.hashes, server)
    }

    /// Checks whether the supplied hostname or IPv4 address is blocked. The
    /// address is folded to lowercase before matching.
    pub fn blocked(&self, server: &str) -> (r: bool)
        ensures
            r == spec_blocked(self@, lower_of(server@)),
    {
        let lowered = to_lowercase_str(server);
        self.blocked_exact(lowered.as_str())
    }
}

} // verus!
