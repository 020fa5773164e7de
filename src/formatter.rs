use std::time::Duration;
use vstd::prelude::*;

use crate::metadata::{GitMetadata, Package, Version};
use crate::text::views;

verus! {

/// The character of the decimal digit `d`.
pub open spec fn digit_char(d: int) -> char {
    seq!['0', '1', '2', '3', '4', '5', '6', '7', '8', '9'][d]
}

/// The decimal digits of `n`, without leading zeros.
pub open spec fn decimal_of(n: nat) -> Seq<char>
    decreases n,
{
    if n < 10 {
        seq![digit_char(n as int)]
    } else {
        decimal_of(n / 10).push(digit_char((n % 10) as int))
    }
}

fn digit(d: u64) -> (c: char)
    requires
        d < 10,
    ensures
        c == digit_char(d as int),
{
    match d {
        0 => '0',
        1 => '1',
        2 => '2',
        3 => '3',
        4 => '4',
        5 => '5',
        6 => '6',
        7 => '7',
        8 => '8',
        _ => '9',
    }
}

/// `n` written in decimal.
pub fn decimal(n: u64) -> (r: String)
    ensures
        r@ == decimal_of(n as nat),
    decreases n,
{
    if n < 10 {
        let mut r = String::new();
        crate::text::push_char(&mut r, digit(n));
        assert(r@ =~= seq![digit_char(n as int)]);
        r
    } else {
        let mut r = decimal(n / 10);
        crate::text::push_char(&mut r, digit(n % 10));
        r
    }
}

/// `v<major>.<minor>.<patch>`.
pub open spec fn version_text(ver: Version) -> Seq<char> {
    "v"@ + decimal_of(ver.major as nat) + "."@ + decimal_of(ver.minor as nat) + "."@ + decimal_of(
        ver.patch as nat,
    )
}

pub fn format_version(ver: Version) -> (r: String)
    ensures
        r@ == version_text(ver),
{
    let major = decimal(ver.major);
    let minor = decimal(ver.minor);
    let patch = decimal(ver.patch);
    String::from_str("v").concat(major.as_str()).concat(".").concat(minor.as_str()).concat(
        ".",
    ).concat(patch.as_str())
}

/// What `str`'s `Debug` makes of a string: quoted, with escapes.
pub uninterp spec fn debug_str_of(s: Seq<char>) -> Seq<char>;

/// Relies on `<str as Debug>::fmt`: the quoted, escaped form of a string
/// depends on its characters alone.
#[verifier::external_body]
fn debug_str(s: &str) -> (r: String)
    ensures
        r@ == debug_str_of(s@),
{
    format!("{:?}", s)
}

/// The quoted forms of `items`, separated by `, `.
pub open spec fn debug_items(items: Seq<Seq<char>>) -> Seq<char>
    decreases items.len(),
{
    if items.len() == 0 {
        Seq::empty()
    } else if items.len() == 1 {
        debug_str_of(items[0])
    } else {
        debug_items(items.drop_last()) + ", "@ + debug_str_of(items.last())
    }
}

/// A list of strings as `Debug` shows it: `["a", "b"]`.
pub open spec fn debug_list(items: Seq<Seq<char>>) -> Seq<char> {
    "["@ + debug_items(items) + "]"@
}

pub fn format_authors(authors: Vec<String>) -> (r: String)
    ensures
        r@ == debug_list(views(authors@)),
{
    let ghost items = views(authors@);
    let mut body = String::new();
    let mut i: usize = 0;
    assert(items.subrange(0, 0) =~= Seq::<Seq<char>>::empty());
    while i < authors.len()
        invariant
            i <= authors@.len(),
            items == views(authors@),
            body@ == debug_items(items.subrange(0, i as int)),
        decreases authors@.len() - i,
    {
        let quoted = debug_str(authors[i].as_str());
        let ghost pre = items.subrange(0, i + 1);
        assert(pre.drop_last() =~= items.subrange(0, i as int));
        assert(pre.last() == authors@[i as int]@);
        if i == 0 {
            body = quoted;
        } else {
            body = body.concat(", ").concat(quoted.as_str());
        }
        i = i + 1;
    }
    assert(items.subrange(0, i as int) =~= items);
    String::from_str("[").concat(body.as_str()).concat("]")
}

/// `<name> v<version>`.
pub fn format_package(pkg: Package) -> (r: String)
    ensures
        r@ == pkg.name@ + " "@ + version_text(pkg.version),
{
    let ver = format_version(pkg.version);
    pkg.name.concat(" ").concat(ver.as_str())
}

/// The number of bytes that UTF-8 takes for `c`.
pub open spec fn utf8_len(c: char) -> nat {
    let u = c as u32;
    if u < 0x80 {
        1
    } else if u < 0x800 {
        2
    } else if u < 0x10000 {
        3
    } else {
        4
    }
}

/// The longest prefix of whole characters of `s` whose UTF-8 form fits in
/// `budget` bytes.
pub open spec fn take_bytes(s: Seq<char>, budget: nat) -> Seq<char>
    decreases s.len(),
{
    if s.len() > 0 && utf8_len(s[0]) <= budget {
        seq![s[0]] + take_bytes(s.drop_first(), (budget - utf8_len(s[0])) as nat)
    } else {
        Seq::empty()
    }
}

/// The first seven bytes of a commit id, or all of a shorter one. Where the
/// seventh byte falls inside a character, the prefix ends before that
/// character.
pub open spec fn short_commit(commit: Seq<char>) -> Seq<char> {
    take_bytes(commit, 7)
}

/// The number of bytes that UTF-8 takes for `c`.
fn utf8_width(c: char) -> (r: u32)
    ensures
        r == utf8_len(c),
{
    let u = c as u32;
    if u < 0x80 {
        1
    } else if u < 0x800 {
        2
    } else if u < 0x10000 {
        3
    } else {
        4
    }
}

/// The short form of a commit id: `short_commit`.
pub fn short_commit_of(commit: &str) -> (r: String)
    ensures
        r@ == short_commit(commit@),
{
    let v = crate::text::chars_of(commit);
    let n = v.len();
    let mut i: usize = 0;
    let mut budget: u32 = 7;
    assert(v@.subrange(0, 0) + take_bytes(v@.subrange(0, n as int), 7) =~= take_bytes(v@, 7)) by {
        assert(v@.subrange(0, n as int) =~= v@);
    }
    while i < n && utf8_width(v[i]) <= budget
        invariant
            i <= n == v@.len(),
            budget <= 7,
            take_bytes(v@, 7) == v@.subrange(0, i as int) + take_bytes(
                v@.subrange(i as int, n as int),
                budget as nat,
            ),
        decreases n - i,
    {
        let w = utf8_width(v[i]);
        let ghost rest = v@.subrange(i as int, n as int);
        assert(rest.drop_first() =~= v@.subrange(i + 1, n as int));
        assert(rest[0] == v@[i as int]);
        assert(take_bytes(rest, budget as nat) == seq![v@[i as int]] + take_bytes(
            v@.subrange(i + 1, n as int),
            (budget - w) as nat,
        ));
        assert(v@.subrange(0, i + 1) =~= v@.subrange(0, i as int) + seq![v@[i as int]]);
        budget = budget - w;
        i = i + 1;
        assert(take_bytes(v@, 7) =~= v@.subrange(0, i as int) + take_bytes(
            v@.subrange(i as int, n as int),
            budget as nat,
        ));
    }
    assert(take_bytes(v@.subrange(i as int, n as int), budget as nat) =~= Seq::<char>::empty());
    assert(take_bytes(v@, 7) =~= v@.subrange(0, i as int));
    crate::text::string_of(&v, 0, i)
}

/// `<branch>@<short commit>`, `*` when dirty, then ` (<tag>)` when tagged.
pub open spec fn git_text(g: GitMetadata) -> Seq<char> {
    let base = g.branch@ + "@"@ + short_commit(g.commit@) + (if g.dirty {
        "*"@
    } else {
        ""@
    });
    if g.tag@.len() > 0 {
        base + " ("@ + g.tag@ + ")"@
    } else {
        base
    }
}

pub fn format_git_metadata(gitmeta: &GitMetadata) -> (r: String)
    ensures
        r@ == git_text(*gitmeta),
{
    let short = short_commit_of(gitmeta.commit.as_str());
    let dirty = if gitmeta.dirty { "*" } else { "" };
    let base = gitmeta.branch.clone().concat("@").concat(short.as_str()).concat(dirty);
    if gitmeta.tag.as_str().unicode_len() > 0 {
        base.concat(" (").concat(gitmeta.tag.as_str()).concat(")")
    } else {
        base
    }
}

/// A span of seconds as hours, minutes and seconds, leaving out leading
/// zero units: `1h 2m 3s`, `2m 3s`, `3s`.
pub open spec fn seconds_text(secs: nat) -> Seq<char> {
    let hours = secs / 3600;
    let minutes = (secs % 3600) / 60;
    let seconds = secs % 60;
    if hours > 0 {
        decimal_of(hours) + "h "@ + decimal_of(minutes) + "m "@ + decimal_of(seconds) + "s"@
    } else if minutes > 0 {
        decimal_of(minutes) + "m "@ + decimal_of(seconds) + "s"@
    } else {
        decimal_of(seconds) + "s"@
    }
}

pub fn format_seconds(secs: u64) -> (r: String)
    ensures
        r@ == seconds_text(secs as nat),
{
    let hours = secs / 3600;
    let minutes = (secs % 3600) / 60;
    let seconds = secs % 60;
    if hours > 0 {
        decimal(hours).concat("h ").concat(decimal(minutes).as_str()).concat("m ").concat(
            decimal(seconds).as_str(),
        ).concat("s")
    } else if minutes > 0 {
        decimal(minutes).concat("m ").concat(decimal(seconds).as_str()).concat("s")
    } else {
        decimal(seconds).concat("s")
    }
}

/// Relies on `Duration::as_secs`: the whole seconds of a duration.
#[verifier::external_body]
fn whole_seconds(dur: &Duration) -> (r: u64) {
    dur.as_secs()
}

/// The whole seconds of `dur`, as `format_seconds` writes them.
pub fn format_duration(dur: Duration) -> (r: String)
    ensures
        exists|secs: u64| r@ == seconds_text(secs as nat),
{
    format_seconds(whole_seconds(&dur))
}

} // verus!
