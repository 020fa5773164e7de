use std::collections::HashMap;
use vstd::prelude::*;
use vstd::std_specs::hash::spec_hash_map_iter;
use vstd::std_specs::iter::IteratorSpec;

verus! {

broadcast use vstd::std_specs::hash::group_hash_axioms;

/// The flag a plain user holds.
pub const USER_BIT: u32 = 0b0001;

/// The flag an administrator holds.
pub const ADMIN_BIT: u32 = 0b0010;

/// The flag the owner holds.
pub const OWNER_BIT: u32 = 0b0100;

/// Every flag that has a meaning.
pub const ALL_BITS: u32 = 0b0111;

/// A set of permission flags, held by a principal or required by a command.
#[derive(Clone, Copy, Debug, PartialEq, Eq, Structural, Hash)]
pub struct Permission {
    bits: u32,
}

impl View for Permission {
    type V = u32;

    closed spec fn view(&self) -> u32 {
        self.bits
    }
}

/// The rank of a mask: the highest flag it holds decides
/// (OWNER 3, ADMIN 2, USER 1, none of them 0).
pub open spec fn level_of(bits: u32) -> u8 {
    if bits & OWNER_BIT != 0 {
        3
    } else if bits & ADMIN_BIT != 0 {
        2
    } else if bits & USER_BIT != 0 {
        1
    } else {
        0
    }
}

/// Every flag of `required` is also in `held`.
pub open spec fn holds_all(held: u32, required: u32) -> bool {
    held & required == required
}

/// `held` ranks at least as high as `required`.
pub open spec fn ranks_at_least(held: u32, required: u32) -> bool {
    level_of(held) >= level_of(required)
}

/// `bits` holds known flags only: USER, ADMIN, OWNER.
pub open spec fn known_flags(bits: u32) -> bool {
    bits & ALL_BITS == bits
}

impl Permission {
    /// A mask holds known flags only.
    #[verifier::type_invariant]
    spec fn inv(self) -> bool {
        known_flags(self.bits)
    }

    /// The empty mask.
    pub fn none() -> (r: Permission)
        ensures
            r@ == 0,
    {
        assert(0u32 & ALL_BITS == 0) by (bit_vector);
        Permission { bits: 0 }
    }

    /// The mask with the USER flag alone.
    pub fn user() -> (r: Permission)
        ensures
            r@ == USER_BIT,
    {
        assert(USER_BIT & ALL_BITS == USER_BIT) by (bit_vector);
        Permission { bits: USER_BIT }
    }

    /// The mask with the ADMIN flag alone.
    pub fn admin() -> (r: Permission)
        ensures
            r@ == ADMIN_BIT,
    {
        assert(ADMIN_BIT & ALL_BITS == ADMIN_BIT) by (bit_vector);
        Permission { bits: ADMIN_BIT }
    }

    /// The mask with the OWNER flag alone.
    pub fn owner() -> (r: Permission)
        ensures
            r@ == OWNER_BIT,
    {
        assert(OWNER_BIT & ALL_BITS == OWNER_BIT) by (bit_vector);
        Permission { bits: OWNER_BIT }
    }

    /// The mask of the known flags among `bits`; unknown bits are dropped.
    pub fn from_bits_truncate(bits: u32) -> (r: Permission)
        ensures
            r@ == bits & ALL_BITS,
    {
        assert((bits & ALL_BITS) & ALL_BITS == bits & ALL_BITS) by (bit_vector);
        Permission { bits: bits & ALL_BITS }
    }

    /// The raw bits of the mask, known flags only.
    pub fn bits(&self) -> (r: u32)
        ensures
            r == self@,
            known_flags(r),
    {
        proof {
            use_type_invariant(self);
        }
        self.bits
    }

    /// No flag is set.
    pub fn is_empty(&self) -> (r: bool)
        ensures
            r == (self@ == 0),
    {
        self.bits == 0
    }

    /// Every flag of `other` is set in `self`.
    pub fn contains(&self, other: Permission) -> (r: bool)
        ensures
            r == holds_all(self@, other@),
    {
        self.bits & other.bits == other.bits
    }

    /// The flags of either mask.
    pub fn union(&self, other: Permission) -> (r: Permission)
        ensures
            r@ == self@ | other@,
    {
        proof {
            use_type_invariant(self);
            use_type_invariant(&other);
        }
        let (a, b) = (self.bits, other.bits);
        assert(a & ALL_BITS == a && b & ALL_BITS == b ==> (a | b) & ALL_BITS == a | b) by (bit_vector);
        Permission { bits: self.bits | other.bits }
    }

    /// The flags of `self` that `other` does not hold.
    pub fn difference(&self, other: Permission) -> (r: Permission)
        ensures
            r@ == self@ & !other@,
    {
        proof {
            use_type_invariant(self);
        }
        let (a, b) = (self.bits, other.bits);
        assert(a & ALL_BITS == a ==> (a & !b) & ALL_BITS == a & !b) by (bit_vector);
        Permission { bits: self.bits & !other.bits }
    }

    /// The rank of this mask.
    pub fn level(&self) -> (r: u8)
        ensures
            r == level_of(self@),
    {
        if self.bits & OWNER_BIT != 0 {
            3
        } else if self.bits & ADMIN_BIT != 0 {
            2
        } else if self.bits & USER_BIT != 0 {
            1
        } else {
            0
        }
    }
}

/// The names of the flags set in `bits`, in the order USER, ADMIN, OWNER.
pub open spec fn flag_names(bits: u32) -> Seq<Seq<char>> {
    (if bits & USER_BIT != 0 {
        seq!["USER"@]
    } else {
        Seq::empty()
    }) + (if bits & ADMIN_BIT != 0 {
        seq!["ADMIN"@]
    } else {
        Seq::empty()
    }) + (if bits & OWNER_BIT != 0 {
        seq!["OWNER"@]
    } else {
        Seq::empty()
    })
}

/// `parts` joined by ` | `.
pub open spec fn joined(parts: Seq<Seq<char>>) -> Seq<char>
    decreases parts.len(),
{
    if parts.len() == 0 {
        Seq::empty()
    } else if parts.len() == 1 {
        parts[0]
    } else {
        joined(parts.drop_last()) + " | "@ + parts.last()
    }
}

/// How a mask reads: its flag names joined by ` | `, or `NONE`.
pub open spec fn names_text(bits: u32) -> Seq<char> {
    if flag_names(bits).len() == 0 {
        "NONE"@
    } else {
        joined(flag_names(bits))
    }
}

impl Permission {
    /// The mask as flag names, e.g. `USER | ADMIN`; `NONE` for no flag.
    pub fn names(&self) -> (r: String)
        ensures
            r@ == names_text(self@),
    {
        let ghost b = self@;
        let ghost u = if b & USER_BIT != 0 { seq!["USER"@] } else { Seq::<Seq<char>>::empty() };
        let ghost a = if b & ADMIN_BIT != 0 { seq!["ADMIN"@] } else { Seq::<Seq<char>>::empty() };
        let ghost o = if b & OWNER_BIT != 0 { seq!["OWNER"@] } else { Seq::<Seq<char>>::empty() };
        let mut r = String::new();
        let mut any = false;
        if self.bits & USER_BIT != 0 {
            r = r.concat("USER");
            any = true;
        }
        assert(any == (u.len() > 0));
        assert(any ==> r@ == joined(u)) by {
            if any {
                assert(r@ =~= "USER"@);
            }
        }
        if self.bits & ADMIN_BIT != 0 {
            if any {
                r = r.concat(" | ");
            }
            r = r.concat("ADMIN");
            any = true;
        }
        assert(any == ((u + a).len() > 0));
        assert(any ==> r@ == joined(u + a)) by {
            if any && a.len() > 0 && u.len() > 0 {
                assert((u + a).drop_last() =~= u);
            } else if any && a.len() > 0 {
                assert(r@ =~= "ADMIN"@);
                assert(u + a =~= a);
            } else if any {
                assert(u + a =~= u);
            }
        }
        if self.bits & OWNER_BIT != 0 {
            if any {
                r = r.concat(" | ");
            }
            r = r.concat("OWNER");
            any = true;
        }
        assert(any ==> r@ == joined(u + a + o)) by {
            if any && o.len() > 0 && (u + a).len() > 0 {
                assert((u + a + o).drop_last() =~= u + a);
            } else if any && o.len() > 0 {
                assert(r@ =~= "OWNER"@);
                assert(u + a + o =~= o);
            } else if any {
                assert(u + a + o =~= u + a);
            }
        }
        assert(flag_names(b) == u + a + o);
        if !any {
            return String::from_str("NONE");
        }
        r
    }
}

/// Two masks with the same bits are the same mask.
pub proof fn lemma_view_injective(a: Permission, b: Permission)
    ensures
        a@ == b@ <==> a == b,
{
}

/// Exact-bit check: every flag of `required` is in the stored mask `held`.
pub fn has(held: Permission, required: Permission) -> (r: bool)
    ensures
        r == holds_all(held@, required@),
{
    held.contains(required)
}

/// Rank check, the one that gates commands: the stored mask `held` ranks at
/// least as high as `required`.
pub fn can(held: Permission, required: Permission) -> (r: bool)
    ensures
        r == ranks_at_least(held@, required@),
{
    held.level() >= required.level()
}

/// The mask stored after granting `delta` to a principal holding `current`.
pub fn granted(current: Permission, delta: Permission) -> (r: Permission)
    ensures
        r@ == current@ | delta@,
{
    current.union(delta)
}

/// The mask stored after revoking `delta` from a principal holding `current`.
pub fn revoked(current: Permission, delta: Permission) -> (r: Permission)
    ensures
        r@ == current@ & !delta@,
{
    current.difference(delta)
}

/// The ranks of the single flags are strictly ordered:
/// OWNER above ADMIN above USER above the empty mask.
pub proof fn lemma_level_order()
    ensures
        level_of(OWNER_BIT) > level_of(ADMIN_BIT),
        level_of(ADMIN_BIT) > level_of(USER_BIT),
        level_of(USER_BIT) > level_of(0),
{
    assert(OWNER_BIT & OWNER_BIT != 0) by (bit_vector);
    assert(ADMIN_BIT & OWNER_BIT == 0 && ADMIN_BIT & ADMIN_BIT != 0) by (bit_vector);
    assert(USER_BIT & OWNER_BIT == 0 && USER_BIT & ADMIN_BIT == 0 && USER_BIT & USER_BIT != 0)
        by (bit_vector);
    assert(0u32 & OWNER_BIT == 0 && 0u32 & ADMIN_BIT == 0 && 0u32 & USER_BIT == 0)
        by (bit_vector);
}

/// For all masks: one holding OWNER outranks one without it; one holding
/// ADMIN but not OWNER outranks one holding neither; one holding USER
/// alone among the three outranks one holding none of them.
pub proof fn lemma_level_hierarchy(a: u32, b: u32)
    ensures
        a & OWNER_BIT != 0 && b & OWNER_BIT == 0 ==> level_of(a) > level_of(b),
        a & OWNER_BIT == 0 && a & ADMIN_BIT != 0 && b & OWNER_BIT == 0 && b & ADMIN_BIT == 0
            ==> level_of(a) > level_of(b),
        a & OWNER_BIT == 0 && a & ADMIN_BIT == 0 && a & USER_BIT != 0 && b & ALL_BITS == 0
            ==> level_of(a) > level_of(b),
{
    assert(b & ALL_BITS == 0 ==> b & OWNER_BIT == 0 && b & ADMIN_BIT == 0 && b & USER_BIT == 0)
        by (bit_vector);
}

/// Granting the same flags twice stores the same mask as granting them once.
pub proof fn lemma_grant_idempotent(current: u32, delta: u32)
    ensures
        (current | delta) | delta == current | delta,
{
    assert((current | delta) | delta == current | delta) by (bit_vector);
}

/// Revoking flags that the principal does not hold leaves its mask unchanged.
pub proof fn lemma_revoke_absent(current: u32, delta: u32)
    requires
        current & delta == 0,
    ensures
        current & !delta == current,
{
    assert(current & delta == 0 ==> current & !delta == current) by (bit_vector);
}

/// A principal holding USER|ADMIN passes the rank check for ADMIN but fails
/// the exact-bit check for OWNER: the two checks differ.
pub proof fn lemma_has_differs_from_can()
    ensures
        !holds_all(USER_BIT | ADMIN_BIT, OWNER_BIT),
        ranks_at_least(USER_BIT | ADMIN_BIT, ADMIN_BIT),
{
    assert((USER_BIT | ADMIN_BIT) & OWNER_BIT != OWNER_BIT) by (bit_vector);
    assert((USER_BIT | ADMIN_BIT) & OWNER_BIT == 0 && (USER_BIT | ADMIN_BIT) & ADMIN_BIT != 0)
        by (bit_vector);
    assert(ADMIN_BIT & OWNER_BIT == 0 && ADMIN_BIT & ADMIN_BIT != 0) by (bit_vector);
}

/// The identity of a principal.
pub type UserId = u64;

/// The store's rows, read as a map: later rows overwrite earlier ones with
/// the same principal, and each stored value keeps only the known flags.
pub open spec fn rows_map(rows: Seq<(u64, u32)>) -> Map<u64, u32>
    decreases rows.len(),
{
    if rows.len() == 0 {
        Map::empty()
    } else {
        let last = rows.last();
        rows_map(rows.drop_last()).insert(last.0, last.1 & ALL_BITS)
    }
}

/// `rows` lists the entries of `m`: each principal of `m` once, with its mask.
pub open spec fn lists_rows(m: Map<u64, u32>, rows: Seq<(u64, u32)>) -> bool {
    &&& forall|i: int| 0 <= i < rows.len() ==> #[trigger] m.contains_key(rows[i].0) && m[rows[i].0] == rows[i].1
    &&& forall|k: u64| #[trigger] m.contains_key(k) ==> exists|i: int| 0 <= i < rows.len() && rows[i].0 == k
    &&& forall|i: int, j: int| 0 <= i < j < rows.len() ==> rows[i].0 != rows[j].0
}

/// Every mask of `m` holds known flags only.
pub open spec fn known_flags_only(m: Map<u64, u32>) -> bool {
    forall|k: u64| #[trigger] m.contains_key(k) ==> m[k] & ALL_BITS == m[k]
}

/// The mapping from principal to mask that a snapshot of the store holds.
pub struct PermissionMap {
    entries: HashMap<u64, Permission>,
}

impl View for PermissionMap {
    type V = Map<u64, u32>;

    closed spec fn view(&self) -> Map<u64, u32> {
        self.entries@.map_values(|p: Permission| p@ & ALL_BITS)
    }
}

impl PermissionMap {
    /// An empty map.
    pub fn new() -> (r: PermissionMap)
        ensures
            r@ == Map::<u64, u32>::empty(),
    {
        let r = PermissionMap { entries: HashMap::new() };
        assert(r@ =~= Map::<u64, u32>::empty());
        r
    }

    /// Maps `user` to `perm`, replacing what it mapped to before.
    pub fn insert(&mut self, user: UserId, perm: Permission)
        ensures
            final(self)@ == old(self)@.insert(user, perm@),
    {
        proof {
            use_type_invariant(&perm);
        }
        self.entries.insert(user, perm);
        assert(self@ =~= old(self)@.insert(user, perm@));
    }

    /// The mask of `user`, if the map holds one.
    pub fn get(&self, user: UserId) -> (r: Option<Permission>)
        ensures
            match r {
                Some(p) => self@.contains_key(user) && self@[user] == p@,
                None => !self@.contains_key(user),
            },
    {
        match self.entries.get(&user) {
            Some(p) => {
                proof {
                    use_type_invariant(p);
                }
                Some(*p)
            },
            None => None,
        }
    }

    /// The number of principals in the map.
    pub fn len(&self) -> (r: usize)
        ensures
            r == self@.dom().len(),
    {
        proof {
            assert(self@.dom() =~= self.entries@.dom());
        }
        self.entries.len()
    }

    /// The map holds no principal.
    pub fn is_empty(&self) -> (r: bool)
        ensures
            r == (self@.dom().len() == 0),
    {
        self.len() == 0
    }

    /// The snapshot that the store's rows `(principal, flags)` make.
    pub fn from_rows(rows: &Vec<(u64, u32)>) -> (r: PermissionMap)
        ensures
            r@ == rows_map(rows@),
            known_flags_only(r@),
    {
        proof {
            lemma_rows_map_known(rows@);
        }
        let mut r = PermissionMap::new();
        let mut i: usize = 0;
        while i < rows.len()
            invariant
                i <= rows@.len(),
                r@ == rows_map(rows@.subrange(0, i as int)),
            decreases rows@.len() - i,
        {
            let (user, flags) = rows[i];
            r.insert(user, Permission::from_bits_truncate(flags));
            proof {
                let s = rows@.subrange(0, i + 1);
                assert(s.drop_last() =~= rows@.subrange(0, i as int));
            }
            i = i + 1;
        }
        assert(rows@.subrange(0, rows@.len() as int) =~= rows@);
        r
    }

    /// The rows that restore this snapshot into the store, one per principal.
    pub fn rows(&self) -> (r: Vec<(u64, u32)>)
        ensures
            lists_rows(self@, r@),
    {
        let mut r: Vec<(u64, u32)> = Vec::new();
        let ghost order = spec_hash_map_iter(&self.entries).remaining();
        for item in it: self.entries.iter()
            invariant
                it.seq() == order,
                r@.len() == it.index(),
                forall|i: int|
                    #![trigger r@[i]]
                    0 <= i < it.index() ==> r@[i].0 == *it.seq()[i].0 && r@[i].1 == (*it.seq()[i].1)@
                        && known_flags(r@[i].1),
        {
            let (user, perm) = item;
            r.push((*user, perm.bits()));
        }
        proof {
            let m = self.entries@;
            assert(r@.len() == order.len());
            assert forall|i: int| 0 <= i < r@.len() implies #[trigger] self@.contains_key(r@[i].0) && self@[r@[i].0] == r@[i].1 by {
                assert(m.contains_key(*order[i].0) && m[*order[i].0] == *order[i].1);
                assert(known_flags(r@[i].1));
            }
            assert forall|k: u64| #[trigger] self@.contains_key(k) implies exists|i: int| 0 <= i < r@.len() && r@[i].0 == k by {
                assert(m.contains_key(k));
                assert(order.contains((&k, &m[k])));
                let i = choose|i: int| 0 <= i < order.len() && order[i] == (&k, &m[k]);
                assert(r@[i].0 == k);
            }
            assert forall|i: int, j: int| 0 <= i < j < r@.len() implies r@[i].0 != r@[j].0 by {
                if r@[i].0 == r@[j].0 {
                    assert(m[*order[i].0] == *order[i].1);
                    assert(m[*order[j].0] == *order[j].1);
                    assert(order[i] == order[j]);
                }
            }
        }
        r
    }
}

/// Every mask of a snapshot holds known flags only.
pub proof fn lemma_snapshot_known(m: PermissionMap)
    ensures
        known_flags_only(m@),
{
    assert forall|k: u64| #[trigger] m@.contains_key(k) implies m@[k] & ALL_BITS == m@[k] by {
        let x = m.entries@[k]@;
        assert((x & ALL_BITS) & ALL_BITS == x & ALL_BITS) by (bit_vector);
    }
}

/// Restoring a snapshot and reading it back gives the same snapshot: the
/// rows listed for any snapshot `m` read back as `m`.
pub proof fn lemma_snapshot_round_trip(m: PermissionMap, rows: Seq<(u64, u32)>)
    requires
        lists_rows(m@, rows),
    ensures
        rows_map(rows) == m@,
{
    lemma_snapshot_known(m);
    lemma_rows_read_back(m@, rows);
}

/// Rows listing a map of known flags read back as that map.
proof fn lemma_rows_read_back(m: Map<u64, u32>, rows: Seq<(u64, u32)>)
    requires
        lists_rows(m, rows),
        known_flags_only(m),
    ensures
        rows_map(rows) == m,
{
    lemma_rows_map_distinct(rows);
    assert forall|k: u64| m.contains_key(k) implies rows_map(rows).contains_key(k) && rows_map(rows)[k] == m[k] by {
        let i = choose|i: int| 0 <= i < rows.len() && rows[i].0 == k;
        assert(m.contains_key(rows[i].0));
        let v = m[k];
        assert(v & ALL_BITS == v);
    }
    assert(rows_map(rows) =~= m);
}

/// The store's rows read back with known flags only.
proof fn lemma_rows_map_known(rows: Seq<(u64, u32)>)
    ensures
        known_flags_only(rows_map(rows)),
    decreases rows.len(),
{
    if rows.len() > 0 {
        lemma_rows_map_known(rows.drop_last());
        let last = rows.last();
        let m = rows_map(rows);
        assert forall|k: u64| #[trigger] m.contains_key(k) implies m[k] & ALL_BITS == m[k] by {
            if k == last.0 {
                let x = last.1;
                assert((x & ALL_BITS) & ALL_BITS == x & ALL_BITS) by (bit_vector);
            }
        }
    }
}

/// With distinct principals, each row is read back with its own (truncated)
/// flags, and nothing else is read.
proof fn lemma_rows_map_distinct(rows: Seq<(u64, u32)>)
    requires
        forall|i: int, j: int| 0 <= i < j < rows.len() ==> rows[i].0 != rows[j].0,
    ensures
        forall|i: int|
            0 <= i < rows.len() ==> #[trigger] rows_map(rows).contains_key(rows[i].0)
                && rows_map(rows)[rows[i].0] == rows[i].1 & ALL_BITS,
        forall|k: u64| #[trigger]
            rows_map(rows).contains_key(k) ==> exists|i: int| 0 <= i < rows.len() && rows[i].0 == k,
    decreases rows.len(),
{
    if rows.len() > 0 {
        let init = rows.drop_last();
        let last = rows.last();
        lemma_rows_map_distinct(init);
        assert(rows_map(rows) == rows_map(init).insert(last.0, last.1 & ALL_BITS));
        assert forall|i: int| 0 <= i < rows.len() implies #[trigger] rows_map(rows).contains_key(rows[i].0)
            && rows_map(rows)[rows[i].0] == rows[i].1 & ALL_BITS by {
            if i < rows.len() - 1 {
                assert(init[i] == rows[i]);
                assert(rows[i].0 != last.0);
                assert(rows_map(init).contains_key(init[i].0));
            }
        }
        assert forall|k: u64| #[trigger] rows_map(rows).contains_key(k) implies exists|i: int| 0 <= i < rows.len() && rows[i].0 == k by {
            if k != last.0 {
                assert(rows_map(init).contains_key(k));
                let i = choose|i: int| 0 <= i < init.len() && init[i].0 == k;
                assert(rows[i] == init[i]);
            } else {
                assert(rows[rows.len() - 1].0 == k);
            }
        }
    }
}

} // verus!
