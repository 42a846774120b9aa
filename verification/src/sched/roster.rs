//! The admitted VMs, kept in the order of their names.
use crate::sched::account::VmAccount;
use vstd::prelude::*;
use vstd::string::StringSliceAdditionalSpecFns;
use vstd::utf8::encode_utf8;

verus! {

/// `a` comes before `b` byte by byte, and they part at `k`.
pub open spec fn parts_at(a: Seq<u8>, b: Seq<u8>, k: int) -> bool {
    &&& 0 <= k <= a.len()
    &&& k < b.len()
    &&& forall|i: int| 0 <= i < k ==> a[i] == b[i]
    &&& k < a.len() ==> a[k] < b[k]
}

/// The lexicographic order on bytes.
pub open spec fn bytes_before(a: Seq<u8>, b: Seq<u8>) -> bool {
    exists|k: int| parts_at(a, b, k)
}

/// The order of names: that of their bytes.
pub open spec fn name_before(a: Seq<char>, b: Seq<char>) -> bool {
    bytes_before(encode_utf8(a), encode_utf8(b))
}

proof fn lemma_before_strict(a: Seq<u8>)
    ensures
        !bytes_before(a, a),
{
    if bytes_before(a, a) {
        let k = choose|k: int| parts_at(a, a, k);
        assert(false);
    }
}

proof fn lemma_before_transitive(a: Seq<u8>, b: Seq<u8>, c: Seq<u8>)
    requires
        bytes_before(a, b),
        bytes_before(b, c),
    ensures
        bytes_before(a, c),
{
    let j = choose|k: int| parts_at(a, b, k);
    let k = choose|k: int| parts_at(b, c, k);
    let m = if j <= k {
        j
    } else {
        k
    };
    assert(parts_at(a, c, m));
}

/// How two names stand to each other.
pub enum NameOrder {
    Before,
    Same,
    After,
}

/// Compares two names byte by byte.
pub fn order_names(a: &str, b: &str) -> (o: NameOrder)
    ensures
        match o {
            NameOrder::Before => name_before(a@, b@),
            NameOrder::Same => a@ == b@,
            NameOrder::After => name_before(b@, a@),
        },
{
    let x: &[u8] = a.as_bytes();
    let y: &[u8] = b.as_bytes();
    let mut i: usize = 0;
    while i < x.len() && i < y.len() && x[i] == y[i]
        invariant
            i <= x.len(),
            i <= y.len(),
            forall|j: int| 0 <= j < i ==> x@[j] == y@[j],
        decreases x.len() - i,
    {
        i = i + 1;
    }
    if i < y.len() && (i == x.len() || x[i] < y[i]) {
        assert(parts_at(x@, y@, i as int));
        NameOrder::Before
    } else if i < x.len() {
        assert(parts_at(y@, x@, i as int));
        NameOrder::After
    } else {
        assert(x@ =~= y@);
        proof {
            vstd::utf8::encode_utf8_decode_utf8(a@);
            vstd::utf8::encode_utf8_decode_utf8(b@);
        }
        NameOrder::Same
    }
}

/// An admitted VM.
pub struct VmEntry {
    pub vm_id: String,
    pub account: VmAccount,
}

/// Whether the names go strictly upwards.
pub open spec fn in_order(s: Seq<VmEntry>) -> bool {
    forall|i: int, j: int|
        0 <= i < j < s.len() ==> name_before(#[trigger] s[i].vm_id@, #[trigger] s[j].vm_id@)
}

/// Whether a VM of this name stands at `i`.
pub open spec fn stands_at(s: Seq<VmEntry>, id: Seq<char>, i: int) -> bool {
    0 <= i < s.len() && s[i].vm_id@ == id
}

/// The accounts by name.
pub open spec fn by_name(s: Seq<VmEntry>) -> Map<Seq<char>, VmAccount> {
    Map::new(
        |id: Seq<char>| exists|i: int| stands_at(s, id, i),
        |id: Seq<char>| s[choose|i: int| stands_at(s, id, i)].account,
    )
}

/// A quantity of the accounts, summed.
pub open spec fn tally(s: Seq<VmEntry>, f: spec_fn(VmAccount) -> int) -> int
    decreases s.len(),
{
    if s.len() == 0 {
        0
    } else {
        tally(s.drop_last(), f) + f(s.last().account)
    }
}

/// The VRAM reserved, in all.
pub open spec fn reserved(s: Seq<VmEntry>) -> int {
    tally(s, |a: VmAccount| a.vram_reserved_mb as int)
}

/// The encode sessions held, in all.
pub open spec fn encoders(s: Seq<VmEntry>) -> int {
    tally(
        s,
        |a: VmAccount|
            if a.holds_encoder {
                1int
            } else {
                0int
            },
    )
}

pub proof fn lemma_names_distinct(s: Seq<VmEntry>, i: int, j: int)
    requires
        in_order(s),
        0 <= i < s.len(),
        0 <= j < s.len(),
        s[i].vm_id@ == s[j].vm_id@,
    ensures
        i == j,
{
    lemma_before_strict(encode_utf8(s[i].vm_id@));
    if i < j {
        assert(name_before(s[i].vm_id@, s[j].vm_id@));
    } else if j < i {
        assert(name_before(s[j].vm_id@, s[i].vm_id@));
    }
}

/// Every entry is found under its name.
pub proof fn lemma_by_name(s: Seq<VmEntry>)
    requires
        in_order(s),
    ensures
        forall|i: int|
            0 <= i < s.len() ==> {
                &&& by_name(s).dom().contains(#[trigger] s[i].vm_id@)
                &&& by_name(s)[s[i].vm_id@] == s[i].account
            },
{
    assert forall|i: int| 0 <= i < s.len() implies {
        &&& by_name(s).dom().contains(#[trigger] s[i].vm_id@)
        &&& by_name(s)[s[i].vm_id@] == s[i].account
    } by {
        let id = s[i].vm_id@;
        assert(stands_at(s, id, i));
        let j = choose|j: int| stands_at(s, id, j);
        lemma_names_distinct(s, i, j);
    }
}

/// There are as many names as entries.
pub proof fn lemma_count(s: Seq<VmEntry>)
    requires
        in_order(s),
    ensures
        by_name(s).dom().finite(),
        by_name(s).dom().len() == s.len(),
{
    let ids = s.map_values(|e: VmEntry| e.vm_id@);
    assert(ids.no_duplicates()) by {
        assert forall|i: int, j: int|
            0 <= i < ids.len() && 0 <= j < ids.len() && i != j implies ids[i] != ids[j] by {
            if ids[i] == ids[j] {
                lemma_names_distinct(s, i, j);
            }
        }
    }
    ids.unique_seq_to_set();
    assert(by_name(s).dom() =~= ids.to_set()) by {
        assert forall|id: Seq<char>| by_name(s).dom().contains(id) == ids.to_set().contains(id) by {
            if by_name(s).dom().contains(id) {
                let i = choose|i: int| stands_at(s, id, i);
                assert(ids[i] == id);
            }
            if ids.to_set().contains(id) {
                let i = choose|i: int| 0 <= i < ids.len() && ids[i] == id;
                assert(stands_at(s, id, i));
            }
        }
    }
}

pub proof fn lemma_tally_nonneg(s: Seq<VmEntry>, f: spec_fn(VmAccount) -> int)
    requires
        forall|a: VmAccount| #[trigger] f(a) >= 0,
    ensures
        tally(s, f) >= 0,
        forall|i: int| 0 <= i < s.len() ==> f((#[trigger] s[i]).account) <= tally(s, f),
    decreases s.len(),
{
    if s.len() > 0 {
        lemma_tally_nonneg(s.drop_last(), f);
        assert forall|i: int| 0 <= i < s.len() implies f((#[trigger] s[i]).account) <= tally(
            s,
            f,
        ) by {
            if i < s.len() - 1 {
                assert(s.drop_last()[i] == s[i]);
            }
        }
    }
}

proof fn lemma_tally_at_most(s: Seq<VmEntry>, f: spec_fn(VmAccount) -> int)
    requires
        forall|a: VmAccount| #[trigger] f(a) <= 1,
    ensures
        tally(s, f) <= s.len(),
    decreases s.len(),
{
    if s.len() > 0 {
        lemma_tally_at_most(s.drop_last(), f);
    }
}

proof fn lemma_tally_join(s: Seq<VmEntry>, t: Seq<VmEntry>, f: spec_fn(VmAccount) -> int)
    ensures
        tally(s + t, f) == tally(s, f) + tally(t, f),
    decreases t.len(),
{
    if t.len() == 0 {
        assert(s + t =~= s);
    } else {
        assert((s + t).drop_last() =~= s + t.drop_last());
        lemma_tally_join(s, t.drop_last(), f);
    }
}

proof fn lemma_tally_insert(s: Seq<VmEntry>, i: int, e: VmEntry, f: spec_fn(VmAccount) -> int)
    requires
        0 <= i <= s.len(),
    ensures
        tally(s.insert(i, e), f) == tally(s, f) + f(e.account),
{
    let left = s.subrange(0, i);
    let right = s.subrange(i, s.len() as int);
    assert(s =~= left + right);
    assert(s.insert(i, e) =~= left.push(e) + right);
    lemma_tally_join(left, right, f);
    lemma_tally_join(left.push(e), right, f);
    assert(left.push(e).drop_last() =~= left);
}

/// A new entry in its place: the order holds, the name is found, the sums grow by its share.
pub proof fn lemma_insert(s: Seq<VmEntry>, i: int, e: VmEntry)
    requires
        in_order(s),
        0 <= i <= s.len(),
        i > 0 ==> name_before(s[i - 1].vm_id@, e.vm_id@),
        i < s.len() ==> name_before(e.vm_id@, s[i].vm_id@),
    ensures
        in_order(s.insert(i, e)),
        !by_name(s).dom().contains(e.vm_id@),
        by_name(s.insert(i, e)) == by_name(s).insert(e.vm_id@, e.account),
        reserved(s.insert(i, e)) == reserved(s) + e.account.vram_reserved_mb,
        encoders(s.insert(i, e)) == encoders(s) + if e.account.holds_encoder {
            1int
        } else {
            0
        },
{
    let t = s.insert(i, e);
    let x = encode_utf8(e.vm_id@);
    assert forall|j: int| 0 <= j < i implies name_before(#[trigger] s[j].vm_id@, e.vm_id@) by {
        if j < i - 1 {
            assert(name_before(s[j].vm_id@, s[i - 1].vm_id@));
            lemma_before_transitive(encode_utf8(s[j].vm_id@), encode_utf8(s[i - 1].vm_id@), x);
        }
    }
    assert forall|j: int| i <= j < s.len() implies name_before(
        e.vm_id@,
        #[trigger] s[j].vm_id@,
    ) by {
        if i < j {
            assert(name_before(s[i].vm_id@, s[j].vm_id@));
            lemma_before_transitive(x, encode_utf8(s[i].vm_id@), encode_utf8(s[j].vm_id@));
        }
    }
    assert forall|a: int, b: int| 0 <= a < b < t.len() implies name_before(
        #[trigger] t[a].vm_id@,
        #[trigger] t[b].vm_id@,
    ) by {
        let a0 = if a < i {
            a
        } else {
            a - 1
        };
        let b0 = if b < i {
            b
        } else {
            b - 1
        };
        if a != i && b != i {
            assert(name_before(s[a0].vm_id@, s[b0].vm_id@));
        } else if a == i {
            assert(name_before(e.vm_id@, s[b0].vm_id@));
        } else {
            assert(name_before(s[a0].vm_id@, e.vm_id@));
        }
    }
    lemma_before_strict(x);
    if by_name(s).dom().contains(e.vm_id@) {
        let j = choose|j: int| stands_at(s, e.vm_id@, j);
        assert(name_before(s[j].vm_id@, e.vm_id@) || name_before(e.vm_id@, s[j].vm_id@));
        assert(false);
    }
    lemma_by_name(s);
    lemma_by_name(t);
    let m = by_name(s).insert(e.vm_id@, e.account);
    assert forall|id: Seq<char>| by_name(t).dom().contains(id) == m.dom().contains(id) by {
        if by_name(t).dom().contains(id) {
            let j = choose|j: int| stands_at(t, id, j);
            if j < i {
                assert(stands_at(s, id, j));
            } else if j > i {
                assert(stands_at(s, id, j - 1));
            }
        }
        if by_name(s).dom().contains(id) {
            let j = choose|j: int| stands_at(s, id, j);
            if j < i {
                assert(stands_at(t, id, j));
            } else {
                assert(stands_at(t, id, j + 1));
            }
        }
        if id == e.vm_id@ {
            assert(stands_at(t, id, i));
        }
    }
    assert forall|id: Seq<char>| by_name(t).dom().contains(id) implies by_name(t)[id] == m[id] by {
        let j = choose|j: int| stands_at(t, id, j);
        if j < i {
            assert(stands_at(s, id, j));
            assert(s[j].vm_id@ == id);
            assert(t[j].vm_id@ == id);
        } else if j > i {
            assert(stands_at(s, id, j - 1));
            assert(s[j - 1].vm_id@ == id);
            assert(t[j].vm_id@ == id);
        } else {
            assert(t[i].vm_id@ == id);
        }
    }
    assert(by_name(t) =~= m);
    lemma_tally_insert(s, i, e, |a: VmAccount| a.vram_reserved_mb as int);
    lemma_tally_insert(
        s,
        i,
        e,
        |a: VmAccount|
            if a.holds_encoder {
                1int
            } else {
                0int
            },
    );
}

/// An entry taken out: the order holds, the name is gone, the sums shrink by its share.
pub proof fn lemma_remove(s: Seq<VmEntry>, i: int)
    requires
        in_order(s),
        0 <= i < s.len(),
    ensures
        in_order(s.remove(i)),
        by_name(s.remove(i)) == by_name(s).remove(s[i].vm_id@),
        reserved(s.remove(i)) == reserved(s) - s[i].account.vram_reserved_mb,
        encoders(s.remove(i)) == encoders(s) - if s[i].account.holds_encoder {
            1int
        } else {
            0
        },
{
    let t = s.remove(i);
    assert forall|a: int, b: int| 0 <= a < b < t.len() implies name_before(
        #[trigger] t[a].vm_id@,
        #[trigger] t[b].vm_id@,
    ) by {
        let a0 = if a < i {
            a
        } else {
            a + 1
        };
        let b0 = if b < i {
            b
        } else {
            b + 1
        };
        assert(name_before(s[a0].vm_id@, s[b0].vm_id@));
    }
    assert(t.insert(i, s[i]) =~= s);
    assert(i > 0 ==> name_before(t[i - 1].vm_id@, s[i].vm_id@)) by {
        if i > 0 {
            assert(name_before(s[i - 1].vm_id@, s[i].vm_id@));
        }
    }
    assert(i < t.len() ==> name_before(s[i].vm_id@, t[i].vm_id@)) by {
        if i < t.len() {
            assert(name_before(s[i].vm_id@, s[i + 1].vm_id@));
        }
    }
    lemma_insert(t, i, s[i]);
    assert(by_name(t) =~= by_name(s).remove(s[i].vm_id@));
}

/// An entry's account changed: the order holds, the name leads to the new account, the sums
/// move by the difference.
pub proof fn lemma_update(s: Seq<VmEntry>, i: int, e: VmEntry)
    requires
        in_order(s),
        0 <= i < s.len(),
        e.vm_id@ == s[i].vm_id@,
    ensures
        in_order(s.update(i, e)),
        by_name(s.update(i, e)) == by_name(s).insert(e.vm_id@, e.account),
        reserved(s.update(i, e)) == reserved(s) - s[i].account.vram_reserved_mb
            + e.account.vram_reserved_mb,
        e.account.holds_encoder == s[i].account.holds_encoder ==> encoders(s.update(i, e))
            == encoders(s),
{
    lemma_remove(s, i);
    let t = s.remove(i);
    assert(t.insert(i, e) =~= s.update(i, e));
    assert(i > 0 ==> name_before(t[i - 1].vm_id@, e.vm_id@)) by {
        if i > 0 {
            assert(name_before(s[i - 1].vm_id@, s[i].vm_id@));
        }
    }
    assert(i < t.len() ==> name_before(e.vm_id@, t[i].vm_id@)) by {
        if i < t.len() {
            assert(name_before(s[i].vm_id@, s[i + 1].vm_id@));
        }
    }
    lemma_insert(t, i, e);
    assert(by_name(s.update(i, e)) =~= by_name(s).insert(e.vm_id@, e.account));
}

/// The sums are no less than nothing, and no more encode sessions are held than VMs are there.
pub proof fn lemma_sums(s: Seq<VmEntry>)
    ensures
        reserved(s) >= 0,
        0 <= encoders(s) <= s.len(),
        forall|i: int|
            0 <= i < s.len() ==> (#[trigger] s[i]).account.vram_reserved_mb <= reserved(s),
        forall|i: int|
            0 <= i < s.len() && (#[trigger] s[i]).account.holds_encoder ==> encoders(s) >= 1,
{
    let f = |a: VmAccount| a.vram_reserved_mb as int;
    let g = |a: VmAccount|
        if a.holds_encoder {
            1int
        } else {
            0int
        };
    lemma_tally_nonneg(s, f);
    lemma_tally_nonneg(s, g);
    lemma_tally_at_most(s, g);
    assert forall|i: int| 0 <= i < s.len() implies (#[trigger] s[i]).account.vram_reserved_mb
        <= reserved(s) by {
        assert(f(s[i].account) <= tally(s, f));
    }
    assert forall|i: int|
        0 <= i < s.len() && (#[trigger] s[i]).account.holds_encoder implies encoders(s) >= 1 by {
        assert(g(s[i].account) <= tally(s, g));
    }
}

/// The names of those that hold an encode session.
pub open spec fn holders(m: Map<Seq<char>, VmAccount>) -> Set<Seq<char>> {
    m.dom().filter(|id: Seq<char>| m[id].holds_encoder)
}

/// As many encode sessions are held as there are VMs that hold one.
pub proof fn lemma_holders(s: Seq<VmEntry>)
    requires
        in_order(s),
    ensures
        holders(by_name(s)).finite(),
        holders(by_name(s)).len() == encoders(s),
    decreases s.len(),
{
    if s.len() == 0 {
        assert(holders(by_name(s)) =~= Set::empty());
    } else {
        let t = s.drop_last();
        let e = s.last();
        assert(in_order(t));
        lemma_holders(t);
        if t.len() > 0 {
            assert(name_before(s[s.len() - 2].vm_id@, s[s.len() - 1].vm_id@));
        }
        assert(t.insert(t.len() as int, e) =~= s);
        lemma_insert(t, t.len() as int, e);
        let before = holders(by_name(t));
        let after = holders(by_name(s));
        if e.account.holds_encoder {
            assert(after =~= before.insert(e.vm_id@));
            assert(!before.contains(e.vm_id@));
        } else {
            assert(after =~= before);
        }
    }
}

/// Where a name stands, or where it would have to stand.
pub enum Place {
    Found(usize),
    Free(usize),
}

/// Looks a name up.
pub fn locate(s: &Vec<VmEntry>, id: &str) -> (p: Place)
    requires
        in_order(s@),
    ensures
        match p {
            Place::Found(i) => stands_at(s@, id@, i as int) && by_name(s@).dom().contains(id@)
                && by_name(s@)[id@] == s@[i as int].account,
            Place::Free(i) => {
                &&& i <= s@.len()
                &&& i > 0 ==> name_before(s@[i - 1].vm_id@, id@)
                &&& i < s@.len() ==> name_before(id@, s@[i as int].vm_id@)
                &&& !by_name(s@).dom().contains(id@)
            },
        },
{
    let mut i: usize = 0;
    while i < s.len()
        invariant
            in_order(s@),
            i <= s@.len(),
            forall|j: int| 0 <= j < i ==> name_before(#[trigger] s@[j].vm_id@, id@),
        decreases s.len() - i,
    {
        match order_names(s[i].vm_id.as_str(), id) {
            NameOrder::Before => {
                i = i + 1;
            },
            NameOrder::Same => {
                proof {
                    lemma_by_name(s@);
                    assert(stands_at(s@, id@, i as int));
                }
                return Place::Found(i);
            },
            NameOrder::After => {
                proof {
                    lemma_absent(s@, i as int, id@);
                }
                return Place::Free(i);
            },
        }
    }
    proof {
        lemma_absent(s@, i as int, id@);
    }
    Place::Free(i)
}

proof fn lemma_absent(s: Seq<VmEntry>, i: int, id: Seq<char>)
    requires
        in_order(s),
        0 <= i <= s.len(),
        i > 0 ==> name_before(s[i - 1].vm_id@, id),
        i < s.len() ==> name_before(id, s[i].vm_id@),
    ensures
        !by_name(s).dom().contains(id),
{
    if by_name(s).dom().contains(id) {
        let j = choose|j: int| stands_at(s, id, j);
        lemma_insert(s, i, VmEntry { vm_id: s[j].vm_id, account: s[j].account });
    }
}

/// Names stand in the order of their bytes: of two that first differ in one byte, the one with the
/// smaller byte comes first, and a name comes before all that go on from it. Comparing tells so.
pub proof fn law_names_are_ordered(
    common: Seq<u8>,
    x: u8,
    y: u8,
    a: Seq<u8>,
    b: Seq<u8>,
    s: &str,
    t: &str,
    o: NameOrder,
)
    requires
        x < y,
        call_ensures(order_names, (s, t), o),
    ensures
        bytes_before(common.push(x) + a, common.push(y) + b),
        !bytes_before(common.push(y) + b, common.push(x) + a),
        bytes_before(common, common.push(x) + a),
        !bytes_before(common.push(x) + a, common),
        o is Same <==> s@ == t@,
        o is Before ==> bytes_before(encode_utf8(s@), encode_utf8(t@)),
        o is After ==> bytes_before(encode_utf8(t@), encode_utf8(s@)),
{
    let p = common.push(x) + a;
    let q = common.push(y) + b;
    let n = common.len() as int;
    assert(parts_at(p, q, n)) by {
        assert forall|i: int| 0 <= i < n implies p[i] == q[i] by {
            assert(p[i] == common[i] && q[i] == common[i]);
        }
        assert(p[n] == x && q[n] == y);
    }
    assert(parts_at(common, p, n)) by {
        assert forall|i: int| 0 <= i < n implies common[i] == p[i] by {}
    }
    if bytes_before(q, p) {
        lemma_before_transitive(p, q, p);
        lemma_before_strict(p);
    }
    if bytes_before(p, common) {
        lemma_before_transitive(common, p, common);
        lemma_before_strict(common);
    }
    if s@ == t@ {
        lemma_before_strict(encode_utf8(s@));
    }
}

} // verus!
