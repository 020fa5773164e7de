use vstd::prelude::*;

use crate::text::{chars_of, parse_u64, split_chars, split_on, string_of, u64_of, vec_views, views};

verus! {

/// A version `major.minor.patch`.
#[derive(Debug, Clone, Copy, PartialEq, Eq, Structural)]
pub struct Version {
    pub major: u64,
    pub minor: u64,
    pub patch: u64,
}

/// Why a version string could not be read.
#[derive(Debug, Clone, Copy, PartialEq, Eq, Structural)]
pub enum VersionError {
    /// The string is not three parts joined by `.`.
    PartCount,
    /// The major part is no number.
    Major,
    /// The minor part is no number.
    Minor,
    /// The patch part is no number.
    Patch,
}

/// The version that `s` writes, or why it writes none.
pub open spec fn version_of(s: Seq<char>) -> Result<Version, VersionError> {
    let p = split_on(s, '.');
    if p.len() != 3 {
        Err(VersionError::PartCount)
    } else if u64_of(p[0]) is None {
        Err(VersionError::Major)
    } else if u64_of(p[1]) is None {
        Err(VersionError::Minor)
    } else if u64_of(p[2]) is None {
        Err(VersionError::Patch)
    } else {
        Ok(Version { major: u64_of(p[0])->0, minor: u64_of(p[1])->0, patch: u64_of(p[2])->0 })
    }
}

impl Version {
    /// Reads `major.minor.patch`, each part a `u64`.
    pub fn from_str(s: &str) -> (r: Result<Version, VersionError>)
        ensures
            r == version_of(s@),
    {
        let v = chars_of(s);
        let parts = split_chars(&v, '.');
        if parts.len() != 3 {
            return Err(VersionError::PartCount);
        }
        assert(vec_views(parts@)[0] == parts@[0]@);
        assert(vec_views(parts@)[1] == parts@[1]@);
        assert(vec_views(parts@)[2] == parts@[2]@);
        let major = match parse_u64(&parts[0]) {
            Some(n) => n,
            None => return Err(VersionError::Major),
        };
        let minor = match parse_u64(&parts[1]) {
            Some(n) => n,
            None => return Err(VersionError::Minor),
        };
        let patch = match parse_u64(&parts[2]) {
            Some(n) => n,
            None => return Err(VersionError::Patch),
        };
        Ok(Version { major, minor, patch })
    }
}

/// A package: its name, version, authors and repository.
#[derive(Debug, Clone)]
pub struct Package {
    pub name: String,
    pub version: Version,
    pub authors: Vec<String>,
    pub repo: String,
}

impl Package {
    /// The authors listed in `s`, separated by `:`.
    pub fn parse_authors(s: &str) -> (r: Vec<String>)
        ensures
            views(r@) == split_on(s@, ':'),
    {
        let v = chars_of(s);
        let parts = split_chars(&v, ':');
        let mut r: Vec<String> = Vec::new();
        let mut i: usize = 0;
        while i < parts.len()
            invariant
                i <= parts@.len(),
                views(r@) == vec_views(parts@).subrange(0, i as int),
            decreases parts@.len() - i,
        {
            let ghost before = r@;
            let a = string_of(&parts[i], 0, parts[i].len());
            assert(parts@[i as int]@.subrange(0, parts@[i as int]@.len() as int) =~= parts@[i as int]@);
            r.push(a);
            assert(views(r@) =~= views(before).push(parts@[i as int]@));
            i = i + 1;
            assert(views(r@) =~= vec_views(parts@).subrange(0, i as int));
        }
        assert(vec_views(parts@).subrange(0, i as int) =~= vec_views(parts@));
        r
    }
}

/// Where the running build came from in version control.
#[derive(Debug, Clone)]
pub struct GitMetadata {
    pub branch: String,
    pub commit: String,
    pub dirty: bool,
    pub tag: String,
    pub repo: String,
}

impl GitMetadata {
    /// Reads the dirty mark: `0` is clean, `1` dirty, anything else is no
    /// mark.
    pub fn parse_dirty(s: &str) -> (r: Option<bool>)
        ensures
            r == (if s@ == seq!['0'] {
                Some(false)
            } else if s@ == seq!['1'] {
                Some(true)
            } else {
                None
            }),
    {
        let v = chars_of(s);
        if v.len() == 1 && v[0] == '0' {
            assert(v@ =~= seq!['0']);
            return Some(false);
        }
        if v.len() == 1 && v[0] == '1' {
            assert(v@ =~= seq!['1']);
            return Some(true);
        }
        proof {
            let zero = seq!['0'];
            let one = seq!['1'];
            assert(zero.len() == 1 && zero[0] == '0');
            assert(one.len() == 1 && one[0] == '1');
        }
        None
    }
}

} // verus!
