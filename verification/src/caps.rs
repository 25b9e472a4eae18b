//! Capability model: deny-by-default, explicit grants only.
//!
//! Each capability is a typed token listed in the manifest. The sandbox host
//! checks capabilities before allowing any operation.

use vstd::prelude::*;
use crate::text::{compare_text, text_lt, TextOrder, lemma_text_lt_irreflexive,
    lemma_text_lt_transitive, lemma_text_lt_total, lemma_text_lt_asymmetric};

verus! {

/// A single capability granted to a workload.
#[derive(Debug, PartialEq, Eq, PartialOrd, Ord, Hash)]
pub enum Capability {
    /// Read files under a specific glob path inside the VFS.
    FsRead(String),
    /// Write to the scratch/tmp directory (with quota from limits).
    FsTmp(String),
    /// Read from stdin.
    Stdin,
    /// Write to stdout (subject to byte cap in limits).
    Stdout,
    /// Write to stderr (subject to byte cap in limits).
    Stderr,
    /// Read from an immutable KV store addressed by CID.
    KvRead(String),
}

/// The mathematical value of a capability: its kind and its text argument.
pub enum CapModel {
    FsRead(Seq<char>),
    FsTmp(Seq<char>),
    Stdin,
    Stdout,
    Stderr,
    KvRead(Seq<char>),
}

impl View for Capability {
    type V = CapModel;

    open spec fn view(&self) -> CapModel {
        match self {
            Capability::FsRead(p) => CapModel::FsRead(p@),
            Capability::FsTmp(p) => CapModel::FsTmp(p@),
            Capability::Stdin => CapModel::Stdin,
            Capability::Stdout => CapModel::Stdout,
            Capability::Stderr => CapModel::Stderr,
            Capability::KvRead(c) => CapModel::KvRead(c@),
        }
    }
}

/// Position of a capability's kind in the canonical order (declaration order).
pub open spec fn cap_rank(c: CapModel) -> int {
    match c {
        CapModel::FsRead(_) => 0,
        CapModel::FsTmp(_) => 1,
        CapModel::Stdin => 2,
        CapModel::Stdout => 3,
        CapModel::Stderr => 4,
        CapModel::KvRead(_) => 5,
    }
}

/// The text argument of a capability (empty for stdio capabilities).
pub open spec fn cap_arg(c: CapModel) -> Seq<char> {
    match c {
        CapModel::FsRead(p) => p,
        CapModel::FsTmp(p) => p,
        CapModel::KvRead(p) => p,
        _ => Seq::empty(),
    }
}

/// Canonical order of capabilities: by kind in declaration order, then by
/// argument in lexicographic order.
pub open spec fn cap_lt(a: CapModel, b: CapModel) -> bool {
    cap_rank(a) < cap_rank(b) || (cap_rank(a) == cap_rank(b) && text_lt(cap_arg(a), cap_arg(b)))
}

/// `s` lists capabilities in strictly increasing canonical order.
pub open spec fn strictly_sorted(s: Seq<CapModel>) -> bool {
    forall|i: int, j: int| 0 <= i < j < s.len() ==> cap_lt(#[trigger] s[i], #[trigger] s[j])
}

/// `s` is the canonical listing of the set `caps`: every member once, in order.
pub open spec fn is_canonical_listing(s: Seq<CapModel>, caps: Set<CapModel>) -> bool {
    strictly_sorted(s) && s.to_set() == caps
}

/// Kind and argument determine a capability.
pub proof fn lemma_cap_model_determined(a: CapModel, b: CapModel)
    requires
        cap_rank(a) == cap_rank(b),
        cap_arg(a) == cap_arg(b),
    ensures
        a == b,
{
}

/// The canonical order is irreflexive.
pub proof fn lemma_cap_lt_irreflexive(a: CapModel)
    ensures
        !cap_lt(a, a),
{
    lemma_text_lt_irreflexive(cap_arg(a));
}

/// The canonical order is transitive.
pub proof fn lemma_cap_lt_transitive(a: CapModel, b: CapModel, c: CapModel)
    requires
        cap_lt(a, b),
        cap_lt(b, c),
    ensures
        cap_lt(a, c),
{
    if cap_rank(a) == cap_rank(b) && cap_rank(b) == cap_rank(c) {
        lemma_text_lt_transitive(cap_arg(a), cap_arg(b), cap_arg(c));
    }
}

/// The canonical order is total.
pub proof fn lemma_cap_lt_total(a: CapModel, b: CapModel)
    ensures
        a == b || cap_lt(a, b) || cap_lt(b, a),
{
    lemma_text_lt_total(cap_arg(a), cap_arg(b));
    if cap_rank(a) == cap_rank(b) && cap_arg(a) == cap_arg(b) {
        lemma_cap_model_determined(a, b);
    }
}

/// The canonical order is asymmetric.
pub proof fn lemma_cap_lt_asymmetric(a: CapModel, b: CapModel)
    requires
        cap_lt(a, b),
    ensures
        !cap_lt(b, a),
{
    if cap_rank(a) == cap_rank(b) {
        lemma_text_lt_asymmetric(cap_arg(a), cap_arg(b));
    }
}

fn kind_rank(c: &Capability) -> (r: u8)
    ensures
        r as int == cap_rank(c@),
{
    match c {
        Capability::FsRead(_) => 0,
        Capability::FsTmp(_) => 1,
        Capability::Stdin => 2,
        Capability::Stdout => 3,
        Capability::Stderr => 4,
        Capability::KvRead(_) => 5,
    }
}

/// Compare two capabilities in the canonical order.
pub fn compare_caps(a: &Capability, b: &Capability) -> (r: TextOrder)
    ensures
        (r == TextOrder::Less) == cap_lt(a@, b@),
        (r == TextOrder::Equal) == (a@ == b@),
        (r == TextOrder::Greater) == cap_lt(b@, a@),
{
    let ra = kind_rank(a);
    let rb = kind_rank(b);
    if ra < rb {
        return TextOrder::Less;
    }
    if rb < ra {
        return TextOrder::Greater;
    }
    let r = match (a, b) {
        (Capability::FsRead(x), Capability::FsRead(y)) => compare_text(x.as_str(), y.as_str()),
        (Capability::FsTmp(x), Capability::FsTmp(y)) => compare_text(x.as_str(), y.as_str()),
        (Capability::KvRead(x), Capability::KvRead(y)) => compare_text(x.as_str(), y.as_str()),
        _ => compare_text("", ""),
    };
    proof {
        if r == TextOrder::Equal {
            lemma_cap_model_determined(a@, b@);
        }
        lemma_text_lt_irreflexive(cap_arg(a@));
    }
    r
}

impl Clone for Capability {
    fn clone(&self) -> (r: Self)
        ensures
            r@ == self@,
    {
        match self {
            Capability::FsRead(p) => Capability::FsRead(p.clone()),
            Capability::FsTmp(p) => Capability::FsTmp(p.clone()),
            Capability::Stdin => Capability::Stdin,
            Capability::Stdout => Capability::Stdout,
            Capability::Stderr => Capability::Stderr,
            Capability::KvRead(c) => Capability::KvRead(c.clone()),
        }
    }
}

/// The set of capabilities granted to a sandbox execution, kept as a list in
/// canonical order without repetition.
#[derive(Debug)]
pub struct CapabilitySet {
    caps: Vec<Capability>,
}

impl CapabilitySet {
    /// The capabilities in stored (canonical) order.
    pub closed spec fn listing(self) -> Seq<CapModel> {
        self.caps@.map_values(|c: Capability| c@)
    }

    #[verifier::type_invariant]
    closed spec fn sorted_inv(self) -> bool {
        strictly_sorted(self.listing())
    }

    /// Where `cap` stands or would stand in the canonical listing: the
    /// number of members ordered before it, and whether it is a member.
    fn locate(&self, cap: &Capability) -> (r: (usize, bool))
        ensures
            r.0 <= self.listing().len(),
            forall|k: int| 0 <= k < r.0 ==> cap_lt(#[trigger] self.listing()[k], cap@),
            r.1 ==> r.0 < self.listing().len() && self.listing()[r.0 as int] == cap@,
            !r.1 ==> (r.0 < self.listing().len() ==> cap_lt(cap@, self.listing()[r.0 as int])),
    {
        let n = self.caps.len();
        let mut i: usize = 0;
        while i < n
            invariant
                n == self.caps@.len(),
                n == self.listing().len(),
                i <= n,
                forall|k: int| 0 <= k < i ==> cap_lt(#[trigger] self.listing()[k], cap@),
            decreases n - i,
        {
            let o = compare_caps(&self.caps[i], cap);
            proof {
                assert(self.listing()[i as int] == self.caps@[i as int]@);
            }
            match o {
                TextOrder::Less => {
                    i = i + 1;
                },
                TextOrder::Equal => {
                    return (i, true);
                },
                TextOrder::Greater => {
                    return (i, false);
                },
            }
        }
        (i, false)
    }

    /// Outcome of `locate` in terms of membership.
    proof fn lemma_locate_membership(self, cap: CapModel, pos: int, found: bool)
        requires
            strictly_sorted(self.listing()),
            0 <= pos <= self.listing().len(),
            forall|k: int| 0 <= k < pos ==> cap_lt(#[trigger] self.listing()[k], cap),
            found ==> pos < self.listing().len() && self.listing()[pos] == cap,
            !found ==> (pos < self.listing().len() ==> cap_lt(cap, self.listing()[pos])),
        ensures
            found == self@.contains(cap),
    {
        let s = self.listing();
        if found {
            assert(s.contains(cap));
        } else {
            assert forall|k: int| 0 <= k < s.len() implies s[k] != cap by {
                if k < pos {
                    lemma_cap_lt_irreflexive(cap);
                } else {
                    if k > pos {
                        assert(cap_lt(s[pos], s[k]));
                        lemma_cap_lt_transitive(cap, s[pos], s[k]);
                    }
                    lemma_cap_lt_irreflexive(cap);
                }
            }
            assert(!s.contains(cap));
        }
    }
}

/// The capabilities of the standard WASI set.
pub open spec fn standard_wasi_caps() -> Set<CapModel> {
    set![
        CapModel::Stdin,
        CapModel::Stdout,
        CapModel::Stderr,
        CapModel::FsRead("/inputs/**"@),
        CapModel::FsTmp("/scratch"@),
    ]
}

impl CapabilitySet {
    /// Create an empty (deny-all) capability set.
    pub fn empty() -> (r: Self)
        ensures
            r@ == Set::<CapModel>::empty(),
    {
        let r = CapabilitySet { caps: Vec::new() };
        proof {
            assert(r@ =~= Set::<CapModel>::empty());
        }
        r
    }

    /// Standard set for WASI/command workloads: stdin + stdout + stderr +
    /// fs.read:/inputs/** + fs.tmp:/scratch.
    pub fn standard_wasi() -> (r: Self)
        ensures
            r@ == standard_wasi_caps(),
    {
        let mut caps = Self::empty();
        caps.grant(Capability::Stdin);
        caps.grant(Capability::Stdout);
        caps.grant(Capability::Stderr);
        caps.grant(Capability::FsRead(String::from_str("/inputs/**")));
        caps.grant(Capability::FsTmp(String::from_str("/scratch")));
        proof {
            assert(caps@ =~= standard_wasi_caps());
        }
        caps
    }

    /// Insert a capability.
    pub fn grant(&mut self, cap: Capability)
        ensures
            final(self)@ == old(self)@.insert(cap@),
    {
        proof {
            use_type_invariant(&*self);
        }
        let (pos, found) = self.locate(&cap);
        proof {
            self.lemma_locate_membership(cap@, pos as int, found);
        }
        if found {
            proof {
                assert(self@.insert(cap@) =~= self@);
            }
            return;
        }
        let ghost old_listing = self.listing();
        let ghost old_set = self@;
        let ghost c = cap@;
        let mut v: Vec<Capability> = Vec::new();
        std::mem::swap(&mut v, &mut self.caps);
        v.insert(pos, cap);
        proof {
            let nl = v@.map_values(|x: Capability| x@);
            assert(nl =~= old_listing.insert(pos as int, c));
            assert forall|i: int, j: int| 0 <= i < j < nl.len() implies cap_lt(
                #[trigger] nl[i],
                #[trigger] nl[j],
            ) by {
                if j < pos {
                } else if j == pos {
                } else if i < pos {
                    assert(cap_lt(old_listing[i], c));
                    assert(old_listing[pos as int] == old_listing[j - 1] || cap_lt(
                        old_listing[pos as int],
                        old_listing[j - 1],
                    ));
                    lemma_cap_lt_transitive(old_listing[i], c, old_listing[pos as int]);
                    if old_listing[pos as int] != old_listing[j - 1] {
                        lemma_cap_lt_transitive(
                            old_listing[i],
                            old_listing[pos as int],
                            old_listing[j - 1],
                        );
                    }
                } else if i == pos {
                    if j - 1 > pos {
                        lemma_cap_lt_transitive(c, old_listing[pos as int], old_listing[j - 1]);
                    }
                } else {
                }
            }
            assert(nl.to_set() =~= old_set.insert(c)) by {
                assert forall|x: CapModel| nl.contains(x) <==> old_listing.contains(x) || x == c by {
                    if nl.contains(x) {
                        let k = choose|k: int| 0 <= k < nl.len() && nl[k] == x;
                        if k < pos {
                            assert(old_listing[k] == x);
                        } else if k > pos {
                            assert(old_listing[k - 1] == x);
                        }
                    }
                    if old_listing.contains(x) {
                        let k = choose|k: int| 0 <= k < old_listing.len() && old_listing[k] == x;
                        if k < pos {
                            assert(nl[k] == x);
                        } else {
                            assert(nl[k + 1] == x);
                        }
                    }
                    if x == c {
                        assert(nl[pos as int] == x);
                    }
                }
            }
        }
        self.caps = v;
    }

    /// Check if a capability is granted.
    pub fn has(&self, cap: &Capability) -> (r: bool)
        ensures
            r == self@.contains(cap@),
    {
        proof {
            use_type_invariant(self);
        }
        let (pos, found) = self.locate(cap);
        proof {
            self.lemma_locate_membership(cap@, pos as int, found);
        }
        found
    }

    fn any_kind(&self, rank: u8) -> (r: bool)
        ensures
            r == exists|c: CapModel| self@.contains(c) && cap_rank(c) == rank as int,
    {
        let n = self.caps.len();
        let mut i: usize = 0;
        while i < n
            invariant
                n == self.caps@.len(),
                i <= n,
                forall|k: int| 0 <= k < i ==> cap_rank(#[trigger] self.caps@[k]@) != rank as int,
            decreases n - i,
        {
            if kind_rank(&self.caps[i]) == rank {
                proof {
                    assert(self.listing()[i as int] == self.caps@[i as int]@);
                    assert(self@.contains(self.caps@[i as int]@));
                }
                return true;
            }
            i = i + 1;
        }
        proof {
            assert forall|c: CapModel| self@.contains(c) implies cap_rank(c) != rank as int by {
                let k = choose|k: int| 0 <= k < self.listing().len() && self.listing()[k] == c;
                assert(self.caps@[k]@ == c);
            }
        }
        false
    }

    /// Check if any fs.read capability is granted.
    pub fn can_read_fs(&self) -> (r: bool)
        ensures
            r == exists|c: CapModel| self@.contains(c) && c is FsRead,
    {
        let r = self.any_kind(0);
        proof {
            if r {
                let c = choose|c: CapModel| self@.contains(c) && cap_rank(c) == 0;
                assert(c is FsRead);
            } else {
                assert forall|c: CapModel| self@.contains(c) implies !(c is FsRead) by {
                    assert(cap_rank(c) != 0);
                }
            }
        }
        r
    }

    /// Check if stdin is granted.
    pub fn can_stdin(&self) -> (r: bool)
        ensures
            r == self@.contains(CapModel::Stdin),
    {
        self.has(&Capability::Stdin)
    }

    /// Check if stdout is granted.
    pub fn can_stdout(&self) -> (r: bool)
        ensures
            r == self@.contains(CapModel::Stdout),
    {
        self.has(&Capability::Stdout)
    }

    /// Check if stderr is granted.
    pub fn can_stderr(&self) -> (r: bool)
        ensures
            r == self@.contains(CapModel::Stderr),
    {
        self.has(&Capability::Stderr)
    }

    /// Check if scratch/tmp writing is granted.
    pub fn can_tmp(&self) -> (r: bool)
        ensures
            r == exists|c: CapModel| self@.contains(c) && c is FsTmp,
    {
        let r = self.any_kind(1);
        proof {
            if r {
                let c = choose|c: CapModel| self@.contains(c) && cap_rank(c) == 1;
                assert(c is FsTmp);
            } else {
                assert forall|c: CapModel| self@.contains(c) implies !(c is FsTmp) by {
                    assert(cap_rank(c) != 1);
                }
            }
        }
        r
    }

    /// Get the canonical sorted list (for hashing into CID).
    pub fn sorted_caps(&self) -> (r: Vec<&Capability>)
        ensures
            is_canonical_listing(r@.map_values(|c: &Capability| c@), self@),
    {
        proof {
            use_type_invariant(self);
        }
        let mut r: Vec<&Capability> = Vec::new();
        let n = self.caps.len();
        let mut i: usize = 0;
        while i < n
            invariant
                n == self.caps@.len(),
                i <= n,
                r@.len() == i,
                forall|k: int| 0 <= k < i ==> (#[trigger] r@[k])@ == self.caps@[k]@,
            decreases n - i,
        {
            r.push(&self.caps[i]);
            i = i + 1;
        }
        proof {
            assert(r@.map_values(|c: &Capability| c@) =~= self.listing());
        }
        r
    }

    /// Number of granted capabilities.
    pub fn len(&self) -> (r: usize)
        ensures
            self@.finite(),
            r == self@.len(),
    {
        proof {
            use_type_invariant(self);
            self.lemma_listing_no_duplicates();
            self.listing().unique_seq_to_set();
        }
        self.caps.len()
    }

    /// Whether no capabilities are granted (deny-all).
    pub fn is_empty(&self) -> (r: bool)
        ensures
            self@.finite(),
            r == (self@ == Set::<CapModel>::empty()),
    {
        proof {
            use_type_invariant(self);
            self.lemma_listing_no_duplicates();
            self.listing().unique_seq_to_set();
            if self@ == Set::<CapModel>::empty() {
                assert(self@.len() == 0);
            }
            if self.caps@.len() == 0 {
                assert(self@ =~= Set::<CapModel>::empty());
            }
        }
        self.caps.len() == 0
    }

    proof fn lemma_listing_no_duplicates(self)
        requires
            strictly_sorted(self.listing()),
        ensures
            self.listing().no_duplicates(),
    {
        let s = self.listing();
        assert forall|i: int, j: int| 0 <= i < s.len() && 0 <= j < s.len() && i != j implies s[i]
            != s[j] by {
            if i < j {
                assert(cap_lt(s[i], s[j]));
                lemma_cap_lt_irreflexive(s[i]);
            } else {
                assert(cap_lt(s[j], s[i]));
                lemma_cap_lt_irreflexive(s[j]);
            }
        }
    }
}

impl Default for CapabilitySet {
    fn default() -> (r: Self)
        ensures
            r@ == Set::<CapModel>::empty(),
    {
        Self::empty()
    }
}

/// Law: the canonical listing of a set of capabilities is unique, so two
/// capability sets with the same members list them (and hash) identically.
pub proof fn lemma_canonical_listing_unique(s1: Seq<CapModel>, s2: Seq<CapModel>, caps: Set<CapModel>)
    requires
        is_canonical_listing(s1, caps),
        is_canonical_listing(s2, caps),
    ensures
        s1 == s2,
    decreases s1.len(),
{
    if s1.len() == 0 {
        if s2.len() > 0 {
            assert(s2.to_set().contains(s2[0]));
            assert(!s1.to_set().contains(s2[0]));
        }
        assert(s1 =~= s2);
    } else if s2.len() == 0 {
        assert(s1.to_set().contains(s1[0]));
    } else {
        let a = s1[0];
        let b = s2[0];
        // The first element of a strictly sorted listing is its minimum.
        assert(s1.to_set().contains(b));
        assert(s2.to_set().contains(a));
        let ka = choose|k: int| 0 <= k < s2.len() && s2[k] == a;
        let kb = choose|k: int| 0 <= k < s1.len() && s1[k] == b;
        if a != b {
            if ka > 0 {
                assert(cap_lt(b, a));
            }
            if kb > 0 {
                assert(cap_lt(a, b));
            }
            if ka > 0 && kb > 0 {
                lemma_cap_lt_asymmetric(a, b);
            }
        }
        assert(a == b);
        let t1 = s1.drop_first();
        let t2 = s2.drop_first();
        let rest = caps.remove(a);
        assert forall|i: int, j: int| 0 <= i < j < t1.len() implies cap_lt(
            #[trigger] t1[i],
            #[trigger] t1[j],
        ) by {
            assert(cap_lt(s1[i + 1], s1[j + 1]));
        }
        assert forall|i: int, j: int| 0 <= i < j < t2.len() implies cap_lt(
            #[trigger] t2[i],
            #[trigger] t2[j],
        ) by {
            assert(cap_lt(s2[i + 1], s2[j + 1]));
        }
        assert(t1.to_set() =~= rest) by {
            assert forall|x: CapModel| t1.contains(x) <==> rest.contains(x) by {
                if t1.contains(x) {
                    let k = choose|k: int| 0 <= k < t1.len() && t1[k] == x;
                    assert(s1[k + 1] == x);
                    assert(cap_lt(s1[0], s1[k + 1]));
                    lemma_cap_lt_irreflexive(a);
                    assert(s1.contains(x));
                }
                if rest.contains(x) {
                    assert(s1.contains(x));
                    let k = choose|k: int| 0 <= k < s1.len() && s1[k] == x;
                    assert(k != 0);
                    assert(t1[k - 1] == x);
                }
            }
        }
        assert(t2.to_set() =~= rest) by {
            assert forall|x: CapModel| t2.contains(x) <==> rest.contains(x) by {
                if t2.contains(x) {
                    let k = choose|k: int| 0 <= k < t2.len() && t2[k] == x;
                    assert(s2[k + 1] == x);
                    assert(cap_lt(s2[0], s2[k + 1]));
                    lemma_cap_lt_irreflexive(a);
                    assert(s2.contains(x));
                }
                if rest.contains(x) {
                    assert(s2.contains(x));
                    let k = choose|k: int| 0 <= k < s2.len() && s2[k] == x;
                    assert(k != 0);
                    assert(t2[k - 1] == x);
                }
            }
        }
        lemma_canonical_listing_unique(t1, t2, rest);
        assert(s1 =~= seq![a] + t1);
        assert(s2 =~= seq![b] + t2);
    }
}

/// Errors related to capability checks.
#[derive(Debug)]
pub enum CapError {
    Denied(String),
}

/// Law: granting a capability makes it held, granting it again changes
/// nothing, and no other membership changes (deny by default: only what is
/// granted is held).
pub proof fn lemma_grant_laws(caps: Set<CapModel>, c: CapModel, other: CapModel)
    ensures
        caps.insert(c).contains(c),
        caps.insert(c).insert(c) == caps.insert(c),
        other != c ==> (caps.insert(c).contains(other) == caps.contains(other)),
{
    assert(caps.insert(c).insert(c) =~= caps.insert(c));
}

/// The capabilities held after granting `grants`, in order, to a set that
/// held `start` (each `grant` inserts its capability).
pub open spec fn granted_from(start: Set<CapModel>, grants: Seq<CapModel>) -> Set<CapModel>
    decreases grants.len(),
{
    if grants.len() == 0 {
        start
    } else {
        granted_from(start, grants.drop_last()).insert(grants.last())
    }
}

/// Law: after `empty` and the grants `grants[0]`, .., `grants[k-1]`, a
/// capability is held exactly when one of the grants equals it (compared by
/// full value, path text included), and the number held is the number of
/// distinct grants: at most `k`, and exactly `k` when no grant repeats.
pub proof fn lemma_grants_hold_exactly_granted(grants: Seq<CapModel>)
    ensures
        granted_from(Set::<CapModel>::empty(), grants) == grants.to_set(),
        forall|c: CapModel|
            #![trigger granted_from(Set::<CapModel>::empty(), grants).contains(c)]
            granted_from(Set::<CapModel>::empty(), grants).contains(c) <==> exists|i: int|
                0 <= i < grants.len() && grants[i] == c,
        granted_from(Set::<CapModel>::empty(), grants).finite(),
        granted_from(Set::<CapModel>::empty(), grants).len() <= grants.len(),
        grants.no_duplicates() ==> granted_from(Set::<CapModel>::empty(), grants).len()
            == grants.len(),
    decreases grants.len(),
{
    if grants.len() == 0 {
        assert(grants.to_set() =~= Set::<CapModel>::empty());
    } else {
        let init = grants.drop_last();
        lemma_grants_hold_exactly_granted(init);
        assert(grants.to_set() =~= init.to_set().insert(grants.last())) by {
            assert forall|x: CapModel| grants.contains(x) <==> init.contains(x) || x
                == grants.last() by {
                if grants.contains(x) {
                    let k = choose|k: int| 0 <= k < grants.len() && grants[k] == x;
                    if k < grants.len() - 1 {
                        assert(init[k] == x);
                    }
                }
                if init.contains(x) {
                    let k = choose|k: int| 0 <= k < init.len() && init[k] == x;
                    assert(grants[k] == x);
                }
                if x == grants.last() {
                    assert(grants[grants.len() - 1] == x);
                }
            }
        }
    }
    grants.lemma_cardinality_of_set();
    if grants.no_duplicates() {
        grants.unique_seq_to_set();
    }
    assert forall|c: CapModel|
        #![trigger granted_from(Set::<CapModel>::empty(), grants).contains(c)]
        granted_from(Set::<CapModel>::empty(), grants).contains(c) <==> exists|i: int|
            0 <= i < grants.len() && grants[i] == c by {
        if grants.contains(c) {
            let k = choose|k: int| 0 <= k < grants.len() && grants[k] == c;
            assert(0 <= k < grants.len() && grants[k] == c);
        }
    }
}

impl Clone for CapabilitySet {
    fn clone(&self) -> (r: Self)
        ensures
            r@ == self@,
    {
        proof {
            use_type_invariant(self);
        }
        let mut caps: Vec<Capability> = Vec::new();
        let mut i: usize = 0;
        while i < self.caps.len()
            invariant
                i <= self.caps@.len(),
                caps@.len() == i,
                forall|k: int| 0 <= k < i ==> (#[trigger] caps@[k])@ == self.caps@[k]@,
            decreases self.caps@.len() - i,
        {
            let c = self.caps[i].clone();
            caps.push(c);
            i = i + 1;
        }
        proof {
            assert(caps@.map_values(|c: Capability| c@) =~= self.listing());
        }
        CapabilitySet { caps }
    }
}

impl View for CapabilitySet {
    type V = Set<CapModel>;

    closed spec fn view(&self) -> Set<CapModel> {
        self.listing().to_set()
    }
}

} // verus!
