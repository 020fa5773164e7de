use vstd::prelude::*;

use crate::permission::{Permission, PermissionMap, UserId, ADMIN_BIT, ALL_BITS, OWNER_BIT, USER_BIT};
use crate::text::{
    chars_of, parse_u64, split_chars, split_on, string_of, trim_bounds, trimmed, u64_of,
    vec_views, views, words, words_of,
};

verus! {

/// What `str::to_uppercase` makes of a string.
pub uninterp spec fn upper_of(s: Seq<char>) -> Seq<char>;

/// The code of the upper-case form of an ASCII character: `a`..`z` become
/// `A`..`Z`, every other character is kept.
pub open spec fn ascii_upper_code(c: char) -> u32 {
    let u = c as u32;
    if 0x61 <= u <= 0x7a {
        (u - 0x20) as u32
    } else {
        u
    }
}

/// Relies on `str::to_uppercase`: the result depends on the characters
/// alone; the empty string stays empty; an ASCII string is upper-cased
/// character by character.
#[verifier::external_body]
fn to_upper(s: &str) -> (r: String)
    ensures
        r@ == upper_of(s@),
        s@.len() == 0 ==> r@.len() == 0,
        (forall|i: int| 0 <= i < s@.len() ==> (s@[i] as u32) < 0x80) ==> r@.len() == s@.len()
            && forall|i: int| 0 <= i < s@.len() ==> (r@[i] as u32) == ascii_upper_code(#[trigger] s@[i]),
{
    s.to_uppercase()
}

/// Why a permission or a user id could not be read.
#[derive(Debug, Clone, PartialEq, Eq)]
pub enum ParseError {
    /// The permission text is empty.
    EmptyPermission,
    /// A role name that is none of USER, ADMIN, OWNER.
    UnknownPermission(String),
    /// The text is no user id.
    InvalidUserId(String),
    /// The entry is not a user id and a permission.
    InvalidEntry(String),
}

/// The flag a role name stands for.
pub open spec fn role_bits(w: Seq<char>) -> Option<u32> {
    if w == seq!['U', 'S', 'E', 'R'] {
        Some(USER_BIT)
    } else if w == seq!['A', 'D', 'M', 'I', 'N'] {
        Some(ADMIN_BIT)
    } else if w == seq!['O', 'W', 'N', 'E', 'R'] {
        Some(OWNER_BIT)
    } else {
        None
    }
}

/// The union of the roles named by `uppers`, upper-cased pieces read with
/// white space around them ignored, or the first trimmed piece that names no
/// role.
pub open spec fn upper_roles_mask(uppers: Seq<Seq<char>>) -> Result<u32, Seq<char>>
    decreases uppers.len(),
{
    if uppers.len() == 0 {
        Ok(0)
    } else {
        match upper_roles_mask(uppers.drop_last()) {
            Err(w) => Err(w),
            Ok(m) => match role_bits(trimmed(uppers.last())) {
                Some(b) => Ok(m | b),
                None => Err(trimmed(uppers.last())),
            },
        }
    }
}

/// The roles named by `pieces`, each piece upper-cased first.
pub open spec fn roles_mask(pieces: Seq<Seq<char>>) -> Result<u32, Seq<char>> {
    upper_roles_mask(pieces.map_values(|p: Seq<char>| upper_of(p)))
}

/// The mask that `s` writes as role names joined by `|`: `Err(None)` when
/// `s` is blank, `Err(Some(w))` for the first word `w` that names no role.
pub open spec fn permission_of(s: Seq<char>) -> Result<u32, Option<Seq<char>>> {
    let t = trimmed(s);
    if t.len() == 0 {
        Err(None)
    } else {
        match roles_mask(split_on(t, '|')) {
            Ok(m) => Ok(m),
            Err(w) => Err(Some(w)),
        }
    }
}

/// The flag of the role named by `v[lo..hi]`.
fn role_of(v: &Vec<char>, lo: usize, hi: usize) -> (r: Option<u32>)
    requires
        lo <= hi <= v@.len(),
    ensures
        r == role_bits(v@.subrange(lo as int, hi as int)),
{
    let ghost w = v@.subrange(lo as int, hi as int);
    let n = hi - lo;
    assert(forall|i: int| 0 <= i < w.len() ==> w[i] == v@[lo + i]);
    if n == 4 && v[lo] == 'U' && v[lo + 1] == 'S' && v[lo + 2] == 'E' && v[lo + 3] == 'R' {
        assert(w =~= seq!['U', 'S', 'E', 'R']);
        return Some(USER_BIT);
    }
    if n == 5 && v[lo] == 'A' && v[lo + 1] == 'D' && v[lo + 2] == 'M' && v[lo + 3] == 'I' && v[lo
        + 4] == 'N' {
        assert(w =~= seq!['A', 'D', 'M', 'I', 'N']);
        assert(w != seq!['U', 'S', 'E', 'R']);
        return Some(ADMIN_BIT);
    }
    if n == 5 && v[lo] == 'O' && v[lo + 1] == 'W' && v[lo + 2] == 'N' && v[lo + 3] == 'E' && v[lo
        + 4] == 'R' {
        assert(w =~= seq!['O', 'W', 'N', 'E', 'R']);
        assert(w != seq!['U', 'S', 'E', 'R']);
        assert(w[0] != seq!['A', 'D', 'M', 'I', 'N'][0]);
        return Some(OWNER_BIT);
    }
    proof {
        let user = seq!['U', 'S', 'E', 'R'];
        assert(user.len() == 4 && user[0] == 'U' && user[1] == 'S' && user[2] == 'E' && user[3] == 'R');
        let admin = seq!['A', 'D', 'M', 'I', 'N'];
        assert(admin.len() == 5 && admin[0] == 'A' && admin[1] == 'D' && admin[2] == 'M' && admin[3] == 'I' && admin[4] == 'N');
        let owner = seq!['O', 'W', 'N', 'E', 'R'];
        assert(owner.len() == 5 && owner[0] == 'O' && owner[1] == 'W' && owner[2] == 'N' && owner[3] == 'E' && owner[4] == 'R');
        if w == seq!['U', 'S', 'E', 'R'] {
            assert(w[0] == 'U' && w[1] == 'S' && w[2] == 'E' && w[3] == 'R');
        }
        if w == seq!['A', 'D', 'M', 'I', 'N'] {
            assert(w[0] == 'A' && w[1] == 'D' && w[2] == 'M' && w[3] == 'I' && w[4] == 'N');
        }
        if w == seq!['O', 'W', 'N', 'E', 'R'] {
            assert(w[0] == 'O' && w[1] == 'W' && w[2] == 'N' && w[3] == 'E' && w[4] == 'R');
        }
    }
    None
}

/// Once a prefix of the pieces holds an unknown role, so do all pieces.
proof fn lemma_roles_mask_err(uppers: Seq<Seq<char>>, k: int)
    requires
        0 <= k <= uppers.len(),
        upper_roles_mask(uppers.subrange(0, k)) is Err,
    ensures
        upper_roles_mask(uppers) == upper_roles_mask(uppers.subrange(0, k)),
    decreases uppers.len() - k,
{
    if k < uppers.len() {
        assert(uppers.subrange(0, k + 1).drop_last() =~= uppers.subrange(0, k));
        lemma_roles_mask_err(uppers, k + 1);
    } else {
        assert(uppers.subrange(0, k) =~= uppers);
    }
}

/// Reads upper-cased role names, e.g. `USER`, ` ADMIN `, as one mask: the
/// union of their flags, or the first trimmed name that is no role.
pub fn mask_of_upper(uppers: &Vec<String>) -> (r: Result<Permission, ParseError>)
    ensures
        match upper_roles_mask(views(uppers@)) {
            Ok(m) => r matches Ok(p) && p@ == m,
            Err(w) => r matches Err(ParseError::UnknownPermission(x)) && x@ == w,
        },
{
    let ghost ps = views(uppers@);
    let mut mask: u32 = 0;
    let mut k: usize = 0;
    assert(0u32 & 7 == 0) by (bit_vector);
    assert(ps.subrange(0, 0) =~= Seq::<Seq<char>>::empty());
    while k < uppers.len()
        invariant
            k <= uppers@.len(),
            ps == views(uppers@),
            upper_roles_mask(ps.subrange(0, k as int)) == Ok::<u32, Seq<char>>(mask),
            mask & 7 == mask,
        decreases uppers@.len() - k,
    {
        let u = chars_of(uppers[k].as_str());
        let (a, b) = trim_bounds(&u);
        assert(ps.subrange(0, k + 1).drop_last() =~= ps.subrange(0, k as int));
        assert(ps[k as int] == u@);
        match role_of(&u, a, b) {
            Some(bits) => {
                assert(bits == 1 || bits == 2 || bits == 4);
                assert((bits == 1 || bits == 2 || bits == 4) && mask & 7 == mask ==> (mask | bits) & 7
                    == (mask | bits)) by (bit_vector);
                mask = mask | bits;
            },
            None => {
                let word = string_of(&u, a, b);
                proof {
                    let pre = ps.subrange(0, k + 1);
                    assert(pre.last() == u@);
                    assert(upper_roles_mask(pre) == Err::<u32, Seq<char>>(word@));
                    lemma_roles_mask_err(ps, k + 1);
                }
                return Err(ParseError::UnknownPermission(word));
            },
        }
        k = k + 1;
    }
    assert(ps.subrange(0, ps.len() as int) =~= ps);
    assert(mask & 7 == mask ==> mask & ALL_BITS == mask) by (bit_vector);
    Ok(Permission::from_bits_truncate(mask))
}

/// Reads a permission written as role names joined by `|` (any case, white
/// space around each name and around the whole ignored), e.g. `user|admin`.
pub fn parse_permission(s: &str) -> (r: Result<Permission, ParseError>)
    ensures
        match permission_of(s@) {
            Ok(m) => r matches Ok(p) && p@ == m,
            Err(None) => r matches Err(ParseError::EmptyPermission),
            Err(Some(w)) => r matches Err(ParseError::UnknownPermission(x)) && x@ == w,
        },
{
    let v = chars_of(s);
    let (lo, hi) = trim_bounds(&v);
    if lo == hi {
        return Err(ParseError::EmptyPermission);
    }
    let trimmed_text = string_of(&v, lo, hi);
    let t = chars_of(trimmed_text.as_str());
    assert(t@ == trimmed(s@));
    let pieces = split_chars(&t, '|');
    let ghost ps = vec_views(pieces@);
    let mut uppers: Vec<String> = Vec::new();
    let mut k: usize = 0;
    while k < pieces.len()
        invariant
            k <= pieces@.len(),
            ps == vec_views(pieces@),
            views(uppers@) =~= ps.subrange(0, k as int).map_values(|p: Seq<char>| upper_of(p)),
        decreases pieces@.len() - k,
    {
        let piece = &pieces[k];
        let piece_text = string_of(piece, 0, piece.len());
        assert(piece@.subrange(0, piece@.len() as int) =~= piece@);
        assert(ps[k as int] == piece@);
        let ghost before = uppers@;
        uppers.push(to_upper(piece_text.as_str()));
        assert(views(uppers@) =~= views(before).push(upper_of(piece@)));
        k = k + 1;
    }
    assert(ps.subrange(0, ps.len() as int) =~= ps);
    assert(views(uppers@) =~= ps.map_values(|p: Seq<char>| upper_of(p)));
    mask_of_upper(&uppers)
}

/// Reads a user id: decimal digits with an optional leading `+`, within
/// the range of `u64`.
pub fn parse_uid(s: &str) -> (r: Result<UserId, ParseError>)
    ensures
        match u64_of(s@) {
            Some(n) => r == Ok::<UserId, ParseError>(n),
            None => r matches Err(ParseError::InvalidUserId(x)) && x@ == s@,
        },
{
    let v = chars_of(s);
    match parse_u64(&v) {
        Some(n) => Ok(n),
        None => Err(ParseError::InvalidUserId(string_of(&v, 0, v.len()))),
    }
}

/// Reads an entry `<user id> <permission>`, e.g. `42 admin|user`.
pub fn parse_uid_perm(s: &str) -> (r: Result<(UserId, Permission), ParseError>)
    ensures
        words(s@).len() != 2 ==> (r matches Err(ParseError::InvalidEntry(x)) && x@ == s@),
        words(s@).len() == 2 ==> match u64_of(words(s@)[0]) {
            None => r matches Err(ParseError::InvalidUserId(x)) && x@ == words(s@)[0],
            Some(uid) => match permission_of(words(s@)[1]) {
                Ok(m) => r matches Ok((u, p)) && u == uid && p@ == m,
                Err(None) => r matches Err(ParseError::EmptyPermission),
                Err(Some(w)) => r matches Err(ParseError::UnknownPermission(x)) && x@ == w,
            },
        },
{
    let v = chars_of(s);
    let ws = words_of(&v);
    if ws.len() != 2 {
        return Err(ParseError::InvalidEntry(string_of(&v, 0, v.len())));
    }
    assert(vec_views(ws@)[0] == ws@[0]@);
    assert(vec_views(ws@)[1] == ws@[1]@);
    let uid_text = string_of(&ws[0], 0, ws[0].len());
    let perm_text = string_of(&ws[1], 0, ws[1].len());
    assert(ws@[0]@.subrange(0, ws@[0]@.len() as int) =~= ws@[0]@);
    assert(ws@[1]@.subrange(0, ws@[1]@.len() as int) =~= ws@[1]@);
    let uid = match parse_uid(uid_text.as_str()) {
        Ok(uid) => uid,
        Err(e) => return Err(e),
    };
    match parse_permission(perm_text.as_str()) {
        Ok(p) => Ok((uid, p)),
        Err(e) => Err(e),
    }
}

/// Reads an entry `<user id> <permission>` as a map with that one entry.
pub fn parse_perm_arg(s: &str) -> (r: Result<PermissionMap, ParseError>)
    ensures
        match r {
            Ok(m) => parse_uid_perm_ok(s@, m@),
            Err(_) => !(words(s@).len() == 2 && u64_of(words(s@)[0]) is Some && permission_of(
                words(s@)[1],
            ) is Ok),
        },
{
    match parse_uid_perm(s) {
        Ok((uid, perm)) => {
            let mut map = PermissionMap::new();
            map.insert(uid, perm);
            Ok(map)
        },
        Err(e) => Err(e),
    }
}

/// `m` is the one-entry map that the entry `s` writes.
pub open spec fn parse_uid_perm_ok(s: Seq<char>, m: Map<u64, u32>) -> bool {
    let ws = words(s);
    &&& ws.len() == 2
    &&& u64_of(ws[0]) is Some
    &&& permission_of(ws[1]) is Ok
    &&& m == Map::<u64, u32>::empty().insert(u64_of(ws[0])->0, permission_of(ws[1])->Ok_0)
}

} // verus!
