//! Capability announcements and the negotiation of what two nodes share.

use vstd::prelude::*;
use vstd::utf8::encode_utf8;

verus! {

/// A sub-protocol that a node claims to support, in one version.
#[derive(Debug, PartialEq, Eq)]
pub struct Capability {
    pub name: String,
    pub version: usize,
}

impl View for Capability {
    type V = (Seq<char>, nat);

    open spec fn view(&self) -> (Seq<char>, nat) {
        (self.name@, self.version as nat)
    }
}

impl Clone for Capability {
    fn clone(&self) -> (r: Self)
        ensures
            r@ == self@,
    {
        Capability { name: self.name.clone(), version: self.version }
    }
}

/// The announcements of a list, in order, as pairs of name and version.
pub open spec fn capabilities_view(list: Seq<Capability>) -> Seq<(Seq<char>, nat)> {
    list.map_values(|c: Capability| c@)
}

/// A copy of a list of announcements.
pub fn clone_capabilities(list: &Vec<Capability>) -> (r: Vec<Capability>)
    ensures
        capabilities_view(r@) == capabilities_view(list@),
{
    let mut copy: Vec<Capability> = Vec::new();
    let mut i: usize = 0;
    while i < list.len()
        invariant
            i <= list@.len(),
            copy@.len() == i,
            forall|k: int| 0 <= k < i ==> (#[trigger] copy@[k])@ == list@[k]@,
        decreases list@.len() - i,
    {
        copy.push(list[i].clone());
        i += 1;
    }
    assert(capabilities_view(copy@) =~= capabilities_view(list@));
    copy
}

/// Lexicographic order on byte strings: a proper prefix comes first, and
/// otherwise the first byte that differs decides.
pub open spec fn bytes_lt(a: Seq<u8>, b: Seq<u8>) -> bool
    decreases a.len(),
{
    if b.len() == 0 {
        false
    } else if a.len() == 0 {
        true
    } else if a[0] != b[0] {
        a[0] < b[0]
    } else {
        bytes_lt(a.drop_first(), b.drop_first())
    }
}

/// The order of protocol names: that of their UTF-8 encodings.
pub open spec fn name_lt(a: Seq<char>, b: Seq<char>) -> bool {
    bytes_lt(encode_utf8(a), encode_utf8(b))
}

/// No byte string comes before itself.
pub proof fn lemma_bytes_lt_irreflexive(a: Seq<u8>)
    ensures
        !bytes_lt(a, a),
    decreases a.len(),
{
    if a.len() > 0 {
        lemma_bytes_lt_irreflexive(a.drop_first());
    }
}

/// The order on byte strings is transitive.
pub proof fn lemma_bytes_lt_transitive(a: Seq<u8>, b: Seq<u8>, c: Seq<u8>)
    requires
        bytes_lt(a, b),
        bytes_lt(b, c),
    ensures
        bytes_lt(a, c),
    decreases a.len(),
{
    if a.len() > 0 && b.len() > 0 && c.len() > 0 && a[0] == b[0] && b[0] == c[0] {
        lemma_bytes_lt_transitive(a.drop_first(), b.drop_first(), c.drop_first());
    }
}

/// Of two different byte strings one comes before the other.
pub proof fn lemma_bytes_lt_total(a: Seq<u8>, b: Seq<u8>)
    ensures
        a == b || bytes_lt(a, b) || bytes_lt(b, a),
    decreases a.len(),
{
    if a.len() > 0 && b.len() > 0 {
        if a[0] == b[0] {
            lemma_bytes_lt_total(a.drop_first(), b.drop_first());
            if a.drop_first() == b.drop_first() {
                assert(a =~= seq![a[0]] + a.drop_first());
                assert(b =~= seq![b[0]] + b.drop_first());
            }
        }
    } else if a.len() == 0 && b.len() == 0 {
        assert(a =~= b);
    }
}

/// Names are strictly and totally ordered by [`name_lt`].
pub proof fn lemma_name_order(a: Seq<char>, b: Seq<char>, c: Seq<char>)
    ensures
        !name_lt(a, a),
        name_lt(a, b) && name_lt(b, c) ==> name_lt(a, c),
        a == b || name_lt(a, b) || name_lt(b, a),
{
    lemma_bytes_lt_irreflexive(encode_utf8(a));
    if name_lt(a, b) && name_lt(b, c) {
        lemma_bytes_lt_transitive(encode_utf8(a), encode_utf8(b), encode_utf8(c));
    }
    lemma_bytes_lt_total(encode_utf8(a), encode_utf8(b));
    if encode_utf8(a) == encode_utf8(b) {
        vstd::utf8::encode_utf8_decode_utf8(a);
        vstd::utf8::encode_utf8_decode_utf8(b);
    }
}

/// Whether the name `a` comes before the name `b`.
pub fn name_precedes(a: &str, b: &str) -> (r: bool)
    ensures
        r == name_lt(a@, b@),
{
    let x = a.as_bytes();
    let y = b.as_bytes();
    let mut i: usize = 0;
    proof {
        assert(x@.skip(0) =~= x@);
        assert(y@.skip(0) =~= y@);
    }
    while i < x.len() && i < y.len()
        invariant
            i <= x@.len(),
            i <= y@.len(),
            x@ == encode_utf8(a@),
            y@ == encode_utf8(b@),
            bytes_lt(x@, y@) == bytes_lt(x@.skip(i as int), y@.skip(i as int)),
        decreases x@.len() - i,
    {
        proof {
            assert(x@.skip(i as int).drop_first() =~= x@.skip(i + 1));
            assert(y@.skip(i as int).drop_first() =~= y@.skip(i + 1));
        }
        if x[i] != y[i] {
            return x[i] < y[i];
        }
        i += 1;
    }
    i < y.len()
}

/// Whether two names are the same.
pub fn same_name(a: &str, b: &str) -> (r: bool)
    ensures
        r == (a@ == b@),
{
    let x = a.as_bytes();
    let y = b.as_bytes();
    proof {
        vstd::utf8::encode_utf8_decode_utf8(a@);
        vstd::utf8::encode_utf8_decode_utf8(b@);
    }
    if x.len() != y.len() {
        return false;
    }
    let mut i: usize = 0;
    while i < x.len()
        invariant
            i <= x@.len(),
            x@.len() == y@.len(),
            x@ == encode_utf8(a@),
            y@ == encode_utf8(b@),
            forall|k: int| 0 <= k < i ==> x@[k] == y@[k],
        decreases x@.len() - i,
    {
        if x[i] != y[i] {
            return false;
        }
        i += 1;
    }
    assert(x@ =~= y@);
    true
}

/// Both lists announce `name` in `version`.
pub open spec fn mutual(
    local: Seq<(Seq<char>, nat)>,
    remote: Seq<(Seq<char>, nat)>,
    name: Seq<char>,
    version: nat,
) -> bool {
    local.contains((name, version)) && remote.contains((name, version))
}

/// `version` is the highest version of `name` that both lists announce.
pub open spec fn shared_version(
    local: Seq<(Seq<char>, nat)>,
    remote: Seq<(Seq<char>, nat)>,
    name: Seq<char>,
    version: nat,
) -> bool {
    &&& mutual(local, remote, name, version)
    &&& forall|w: nat| mutual(local, remote, name, w) ==> w <= version
}

/// The pairs that two nodes share: each name that both announce in a common
/// version, with the highest such version.
pub open spec fn shared_pairs(local: Seq<(Seq<char>, nat)>, remote: Seq<(Seq<char>, nat)>) -> Set<
    (Seq<char>, nat),
> {
    Set::new(|p: (Seq<char>, nat)| shared_version(local, remote, p.0, p.1))
}

/// Pairs in strictly ascending order of their names.
pub open spec fn ascending_names(list: Seq<(Seq<char>, nat)>) -> bool {
    forall|i: int, j: int| 0 <= i < j < list.len() ==> name_lt(list[i].0, list[j].0)
}

/// Whether `list` announces `name` in `version`.
pub fn announces(list: &Vec<Capability>, name: &String, version: usize) -> (r: bool)
    ensures
        r == capabilities_view(list@).contains((name@, version as nat)),
{
    let mut i: usize = 0;
    while i < list.len()
        invariant
            i <= list@.len(),
            forall|k: int| 0 <= k < i ==> capabilities_view(list@)[k] != (name@, version as nat),
        decreases list@.len() - i,
    {
        if list[i].version == version && list[i].name == *name {
            assert(capabilities_view(list@)[i as int] == (name@, version as nat));
            return true;
        }
        i += 1;
    }
    false
}

/// Whether both lists announce `name` in a version above `version`.
fn has_newer_mutual(
    local: &Vec<Capability>,
    remote: &Vec<Capability>,
    name: &String,
    version: usize,
) -> (r: bool)
    ensures
        r == exists|w: nat|
            w > version && #[trigger] mutual(
                capabilities_view(local@),
                capabilities_view(remote@),
                name@,
                w,
            ),
{
    let ghost lv = capabilities_view(local@);
    let ghost rv = capabilities_view(remote@);
    let mut i: usize = 0;
    while i < local.len()
        invariant
            i <= local@.len(),
            lv == capabilities_view(local@),
            rv == capabilities_view(remote@),
            forall|k: int|
                0 <= k < i && lv[k].0 == name@ && lv[k].1 > version ==> !rv.contains(#[trigger] lv[k]),
        decreases local@.len() - i,
    {
        let c = &local[i];
        if c.version > version && c.name == *name && announces(remote, name, c.version) {
            assert(lv[i as int] == (name@, c.version as nat));
            assert(mutual(lv, rv, name@, c.version as nat));
            return true;
        }
        i += 1;
    }
    proof {
        assert forall|w: nat| w > version implies !#[trigger] mutual(lv, rv, name@, w) by {
            if mutual(lv, rv, name@, w) {
                let k = choose|k: int| 0 <= k < lv.len() && lv[k] == (name@, w);
                assert(rv.contains(lv[k]));
            }
        }
    }
    false
}

/// Puts `c` at its place in a list ordered by name, unless the list holds
/// it already.
fn insert_by_name(best: &mut Vec<Capability>, c: &Capability)
    requires
        ascending_names(capabilities_view(old(best)@)),
        forall|k: int|
            0 <= k < old(best)@.len() && (#[trigger] capabilities_view(old(best)@)[k]).0 == c@.0
                ==> capabilities_view(old(best)@)[k].1 == c@.1,
    ensures
        ascending_names(capabilities_view(final(best)@)),
        forall|p: (Seq<char>, nat)|
            capabilities_view(final(best)@).contains(p) <==> capabilities_view(
                old(best)@,
            ).contains(p) || p == c@,
{
    let ghost before = capabilities_view(best@);
    let mut at: usize = 0;
    while at < best.len() && name_precedes(best[at].name.as_str(), c.name.as_str())
        invariant
            at <= best@.len(),
            before == capabilities_view(best@),
            forall|k: int| 0 <= k < at ==> name_lt(#[trigger] before[k].0, c@.0),
        decreases best@.len() - at,
    {
        at += 1;
    }
    if at < best.len() && best[at].name == c.name {
        assert(before[at as int] == c@);
        assert(before.contains(c@));
        return ;
    }
    let entry = c.clone();
    best.insert(at, entry);
    proof {
        let after = capabilities_view(best@);
        assert(after =~= before.insert(at as int, c@));
        assert forall|i: int, j: int| 0 <= i < j < after.len() implies name_lt(
            after[i].0,
            after[j].0,
        ) by {
            if i == at {
                lemma_name_order(c@.0, before[at as int].0, before[j - 1].0);
                lemma_name_order(before[at as int].0, c@.0, c@.0);
            } else if j == at {
            } else {
                let oi = if i < at { i } else { i - 1 };
                let oj = if j < at { j } else { j - 1 };
                assert(name_lt(before[oi].0, before[oj].0));
            }
        }
        assert forall|p: (Seq<char>, nat)| after.contains(p) <==> before.contains(p) || p
            == c@ by {
            if after.contains(p) {
                let k = choose|k: int| 0 <= k < after.len() && after[k] == p;
                if k < at {
                    assert(before[k] == p);
                } else if k > at {
                    assert(before[k - 1] == p);
                }
            }
            if before.contains(p) {
                let k = choose|k: int| 0 <= k < before.len() && before[k] == p;
                if k < at {
                    assert(after[k] == p);
                } else {
                    assert(after[k + 1] == p);
                }
            }
            if p == c@ {
                assert(after[at as int] == p);
            }
        }
    }
}

/// A sub-protocol that two nodes share, at the highest version both
/// announce, and its offset among the shared ones.
#[derive(Debug, PartialEq, Eq)]
pub struct SharedCapability {
    pub name: String,
    pub version: usize,
    pub offset: usize,
}

/// What a [`SharedCapability`] holds, as plain values.
pub struct SharedCapabilityView {
    pub name: Seq<char>,
    pub version: nat,
    pub offset: nat,
}

impl View for SharedCapability {
    type V = SharedCapabilityView;

    open spec fn view(&self) -> SharedCapabilityView {
        SharedCapabilityView {
            name: self.name@,
            version: self.version as nat,
            offset: self.offset as nat,
        }
    }
}

/// Entries in strictly ascending order of their names.
pub open spec fn ascending_entries(entries: Seq<SharedCapabilityView>) -> bool {
    forall|i: int, j: int|
        0 <= i < j < entries.len() ==> name_lt(entries[i].name, entries[j].name)
}

/// The pairs of name and version that entries hold.
pub open spec fn entry_pairs(entries: Seq<SharedCapabilityView>) -> Set<(Seq<char>, nat)> {
    Set::new(
        |p: (Seq<char>, nat)|
            exists|i: int|
                0 <= i < entries.len() && entries[i].name == p.0 && entries[i].version == p.1,
    )
}

/// The outcome of a negotiation: the shared sub-protocols in ascending
/// order of their names, each at the offset that is its position.
#[derive(Debug, PartialEq, Eq)]
pub struct SharedCapabilities {
    entries: Vec<SharedCapability>,
}

impl View for SharedCapabilities {
    type V = Seq<SharedCapabilityView>;

    closed spec fn view(&self) -> Seq<SharedCapabilityView> {
        self.entries@.map_values(|e: SharedCapability| e@)
    }
}

impl SharedCapabilities {
    /// The entries are in strictly ascending order of their names, so that
    /// no name occurs twice, and the offsets count up from zero.
    pub open spec fn wf(&self) -> bool {
        &&& ascending_entries(self@)
        &&& forall|i: int| 0 <= i < self@.len() ==> self@[i].offset == i
    }

    /// The shared pairs of name and version, without order or offsets.
    pub open spec fn pairs(&self) -> Set<(Seq<char>, nat)> {
        entry_pairs(self@)
    }

    /// How many sub-protocols are shared.
    pub fn len(&self) -> (n: usize)
        ensures
            n == self@.len(),
    {
        self.entries.len()
    }

    /// Whether nothing is shared.
    pub fn is_empty(&self) -> (r: bool)
        ensures
            r == (self@.len() == 0),
    {
        self.entries.len() == 0
    }

    /// The entries, in the order of their offsets.
    pub fn entries(&self) -> (r: &Vec<SharedCapability>)
        ensures
            r@.map_values(|e: SharedCapability| e@) == self@,
    {
        &self.entries
    }

    /// The shared version of the sub-protocol `name`, if it is shared.
    pub fn version_of(&self, name: &str) -> (r: Option<usize>)
        ensures
            match r {
                Some(v) => self.pairs().contains((name@, v as nat)),
                None => forall|v: nat| !self.pairs().contains((name@, v)),
            },
    {
        let mut i: usize = 0;
        while i < self.entries.len()
            invariant
                i <= self@.len(),
                forall|k: int| 0 <= k < i ==> (#[trigger] self@[k]).name != name@,
            decreases self@.len() - i,
        {
            if same_name(self.entries[i].name.as_str(), name) {
                assert(self@[i as int].name == name@);
                return Some(self.entries[i].version);
            }
            i += 1;
        }
        None
    }
}

/// The sub-protocols that the two lists share. A name is shared when both
/// lists announce it in a common version, and its shared version is the
/// highest such version. The result is ordered by name, and each entry has
/// its position as offset. Lists with nothing in common give an empty
/// result.
pub fn negotiate(local: &Vec<Capability>, remote: &Vec<Capability>) -> (shared: SharedCapabilities)
    ensures
        shared.wf(),
        shared.pairs() == shared_pairs(capabilities_view(local@), capabilities_view(remote@)),
{
    let ghost lv = capabilities_view(local@);
    let ghost rv = capabilities_view(remote@);
    let mut best: Vec<Capability> = Vec::new();
    let mut i: usize = 0;
    while i < local.len()
        invariant
            i <= local@.len(),
            lv == capabilities_view(local@),
            rv == capabilities_view(remote@),
            ascending_names(capabilities_view(best@)),
            forall|p: (Seq<char>, nat)| #[trigger]
                capabilities_view(best@).contains(p) ==> shared_version(lv, rv, p.0, p.1),
            forall|k: int|
                0 <= k < i && shared_version(lv, rv, (#[trigger] lv[k]).0, lv[k].1)
                    ==> capabilities_view(best@).contains(lv[k]),
        decreases local@.len() - i,
    {
        let c = &local[i];
        assert(lv[i as int] == c@);
        if announces(remote, &c.name, c.version) && !has_newer_mutual(
            local,
            remote,
            &c.name,
            c.version,
        ) {
            proof {
                assert(lv.contains(c@));
                assert(shared_version(lv, rv, c@.0, c@.1)) by {
                    assert forall|w: nat| mutual(lv, rv, c@.0, w) implies w <= c@.1 by {}
                }
                let bv = capabilities_view(best@);
                assert forall|k: int| 0 <= k < bv.len() && (#[trigger] bv[k]).0 == c@.0 implies bv[k].1
                    == c@.1 by {
                    assert(bv.contains(bv[k]));
                }
            }
            insert_by_name(&mut best, c);
        }
        i += 1;
    }
    let mut entries: Vec<SharedCapability> = Vec::new();
    let mut k: usize = 0;
    while k < best.len()
        invariant
            k <= best@.len(),
            entries@.len() == k,
            forall|m: int|
                0 <= m < k ==> (#[trigger] entries@[m])@ == (SharedCapabilityView {
                    name: best@[m]@.0,
                    version: best@[m]@.1,
                    offset: m as nat,
                }),
        decreases best@.len() - k,
    {
        entries.push(
            SharedCapability { name: best[k].name.clone(), version: best[k].version, offset: k },
        );
        k += 1;
    }
    let shared = SharedCapabilities { entries };
    proof {
        let bv = capabilities_view(best@);
        assert(shared@.len() == bv.len());
        assert forall|m: int| 0 <= m < shared@.len() implies (#[trigger] shared@[m]).name == bv[m].0
            && shared@[m].version == bv[m].1 && shared@[m].offset == m by {
            assert(shared@[m] == entries@[m]@);
        }
        assert(shared.pairs() =~= shared_pairs(lv, rv)) by {
            assert forall|p: (Seq<char>, nat)| shared.pairs().contains(p) implies shared_pairs(
                lv,
                rv,
            ).contains(p) by {
                let m = choose|m: int|
                    0 <= m < shared@.len() && shared@[m].name == p.0 && shared@[m].version == p.1;
                assert(bv[m] == p);
                assert(bv.contains(p));
            }
            assert forall|p: (Seq<char>, nat)| shared_pairs(lv, rv).contains(
                p,
            ) implies shared.pairs().contains(p) by {
                let j = choose|j: int| 0 <= j < lv.len() && lv[j] == p;
                assert(bv.contains(lv[j]));
                let m = choose|m: int| 0 <= m < bv.len() && bv[m] == p;
                assert(shared@[m].name == p.0 && shared@[m].version == p.1);
            }
        }
    }
    shared
}

/// Negotiation yields the same pairs whichever side is taken as local.
pub proof fn negotiation_commutes(a: Seq<(Seq<char>, nat)>, b: Seq<(Seq<char>, nat)>)
    ensures
        shared_pairs(a, b) == shared_pairs(b, a),
{
    assert(shared_pairs(a, b) =~= shared_pairs(b, a)) by {
        assert forall|p: (Seq<char>, nat)|
            shared_version(a, b, p.0, p.1) == shared_version(b, a, p.0, p.1) by {
            assert(forall|w: nat| mutual(a, b, p.0, w) == mutual(b, a, p.0, w));
        }
    }
}

/// No name occurs twice among the shared capabilities, and no offset does.
pub proof fn shared_names_unique(shared: SharedCapabilities, i: int, j: int)
    requires
        shared.wf(),
        0 <= i < shared@.len(),
        0 <= j < shared@.len(),
        i != j,
    ensures
        shared@[i].name != shared@[j].name,
        shared@[i].offset != shared@[j].offset,
{
    lemma_name_order(shared@[i].name, shared@[j].name, shared@[i].name);
    lemma_name_order(shared@[j].name, shared@[i].name, shared@[j].name);
    if i < j {
        assert(name_lt(shared@[i].name, shared@[j].name));
    } else {
        assert(name_lt(shared@[j].name, shared@[i].name));
    }
}

/// Two ascending runs of entries that hold the same pairs hold them at the
/// same places.
proof fn lemma_same_pairs_same_places(u: Seq<SharedCapabilityView>, v: Seq<SharedCapabilityView>)
    requires
        ascending_entries(u),
        ascending_entries(v),
        entry_pairs(u) == entry_pairs(v),
    ensures
        u.len() == v.len(),
        forall|k: int|
            0 <= k < u.len() ==> u[k].name == v[k].name && u[k].version == v[k].version,
    decreases u.len(),
{
    if u.len() == 0 {
        if v.len() > 0 {
            assert(entry_pairs(v).contains((v[0].name, v[0].version)));
            assert(entry_pairs(u).contains((v[0].name, v[0].version)));
        }
    } else {
        let ul = u.last();
        let up = (ul.name, ul.version);
        assert(entry_pairs(u).contains(up));
        assert(entry_pairs(v).contains(up));
        let j = choose|j: int| 0 <= j < v.len() && v[j].name == up.0 && v[j].version == up.1;
        let vl = v.last();
        let vp = (vl.name, vl.version);
        assert(entry_pairs(v).contains(vp));
        assert(entry_pairs(u).contains(vp));
        let i = choose|i: int| 0 <= i < u.len() && u[i].name == vp.0 && u[i].version == vp.1;
        lemma_name_order(ul.name, vl.name, ul.name);
        if j < v.len() - 1 {
            assert(name_lt(v[j].name, vl.name));
            if i < u.len() - 1 {
                assert(name_lt(u[i].name, ul.name));
            }
        }
        assert(j == v.len() - 1);
        let us = u.drop_last();
        let vs = v.drop_last();
        assert(entry_pairs(us) =~= entry_pairs(vs)) by {
            assert forall|p: (Seq<char>, nat)| entry_pairs(us).contains(p) implies entry_pairs(
                vs,
            ).contains(p) by {
                let k = choose|k: int|
                    0 <= k < us.len() && us[k].name == p.0 && us[k].version == p.1;
                assert(u[k].name == p.0 && u[k].version == p.1);
                assert(entry_pairs(u).contains(p));
                assert(entry_pairs(v).contains(p));
                let m = choose|m: int| 0 <= m < v.len() && v[m].name == p.0 && v[m].version == p.1;
                assert(name_lt(u[k].name, ul.name));
                lemma_name_order(ul.name, ul.name, ul.name);
                assert(vs[m].name == p.0 && vs[m].version == p.1);
            }
            assert forall|p: (Seq<char>, nat)| entry_pairs(vs).contains(p) implies entry_pairs(
                us,
            ).contains(p) by {
                let k = choose|k: int|
                    0 <= k < vs.len() && vs[k].name == p.0 && vs[k].version == p.1;
                assert(v[k].name == p.0 && v[k].version == p.1);
                assert(entry_pairs(v).contains(p));
                assert(entry_pairs(u).contains(p));
                let m = choose|m: int| 0 <= m < u.len() && u[m].name == p.0 && u[m].version == p.1;
                assert(name_lt(v[k].name, vl.name));
                lemma_name_order(vl.name, vl.name, vl.name);
                assert(us[m].name == p.0 && us[m].version == p.1);
            }
        }
        assert(ascending_entries(us)) by {
            assert forall|a: int, b: int| 0 <= a < b < us.len() implies name_lt(
                us[a].name,
                us[b].name,
            ) by {
                assert(name_lt(u[a].name, u[b].name));
            }
        }
        assert(ascending_entries(vs)) by {
            assert forall|a: int, b: int| 0 <= a < b < vs.len() implies name_lt(
                vs[a].name,
                vs[b].name,
            ) by {
                assert(name_lt(v[a].name, v[b].name));
            }
        }
        lemma_same_pairs_same_places(us, vs);
        assert forall|k: int| 0 <= k < u.len() implies u[k].name == v[k].name && u[k].version
            == v[k].version by {
            if k < u.len() - 1 {
                assert(us[k].name == vs[k].name && us[k].version == vs[k].version);
            }
        }
    }
}

/// What two nodes share determines the outcome of their negotiation: two
/// well-formed outcomes with the same pairs are the same, entry by entry,
/// offsets included.
pub proof fn negotiation_determined(x: SharedCapabilities, y: SharedCapabilities)
    requires
        x.wf(),
        y.wf(),
        x.pairs() == y.pairs(),
    ensures
        x@ == y@,
{
    lemma_same_pairs_same_places(x@, y@);
    assert(x@ =~= y@);
}

} // verus!
