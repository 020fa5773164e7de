use vstd::prelude::*;

use crate::permission::Permission;
use crate::text::{push_char, views};

verus! {

/// What the lexer has seen so far: the finished tokens, the token being
/// read, and whether an opening double quote is still unmatched.
pub struct Scan {
    pub parts: Seq<Seq<char>>,
    pub current: Seq<char>,
    pub quoted: bool,
}

/// One step of the lexer. A double quote toggles quoting and is dropped; a
/// space outside quotes ends the current token, if it is not empty; any other
/// character, and a space inside quotes, joins the current token.
pub open spec fn scan_char(st: Scan, c: char) -> Scan {
    if c == '"' {
        Scan { parts: st.parts, current: st.current, quoted: !st.quoted }
    } else if c == ' ' && !st.quoted {
        if st.current.len() == 0 {
            st
        } else {
            Scan { parts: st.parts.push(st.current), current: Seq::empty(), quoted: st.quoted }
        }
    } else {
        Scan { parts: st.parts, current: st.current.push(c), quoted: st.quoted }
    }
}

/// The lexer's state after reading `s` from the start.
pub open spec fn scan(s: Seq<char>) -> Scan
    decreases s.len(),
{
    if s.len() == 0 {
        Scan { parts: Seq::empty(), current: Seq::empty(), quoted: false }
    } else {
        scan_char(scan(s.drop_last()), s.last())
    }
}

/// The tokens of `s`: what the lexer finished, and the token it was still
/// reading at the end, if not empty (an unmatched quote is no error).
pub open spec fn tokens(s: Seq<char>) -> Seq<Seq<char>> {
    let st = scan(s);
    if st.current.len() > 0 {
        st.parts.push(st.current)
    } else {
        st.parts
    }
}

/// Whether `text` reads as a command with this prefix: it starts with the
/// prefix and holds at least one token after it.
pub open spec fn is_command(text: Seq<char>, prefix: char) -> bool {
    text.len() > 0 && text[0] == prefix && tokens(text.drop_first()).len() > 0
}

/// A command parsed from a message: the prefix that introduced it, its name
/// and its arguments in order.
#[derive(Debug, Clone, PartialEq, Eq)]
pub struct Command {
    pub prefix: char,
    pub name: String,
    pub args: Vec<String>,
}

impl Command {
    /// The command of `text` is `prefix`, then the tokens after it: the first
    /// is the name, the rest are the arguments.
    pub open spec fn parses_as(&self, text: Seq<char>, prefix: char) -> bool {
        let t = tokens(text.drop_first());
        &&& self.prefix == prefix
        &&& self.name@ == t[0]
        &&& views(self.args@) == t.drop_first()
    }

    /// Parses `s` as a command introduced by `prefix`: `None` when `s` does
    /// not start with `prefix` or holds no token after it.
    pub fn with_prefix(s: &str, prefix: char) -> (r: Option<Command>)
        ensures
            match r {
                Some(c) => is_command(s@, prefix) && c.parses_as(s@, prefix),
                None => !is_command(s@, prefix),
            },
    {
        let ghost text = s@;
        let mut parts: Vec<String> = Vec::new();
        assert(views(parts@) =~= Seq::<Seq<char>>::empty());
        let mut current = String::new();
        let mut in_quotes = false;
        let mut starts_with_prefix = false;
        let mut at_start = true;
        for c in it: s.chars()
            invariant
                it.seq() == text,
                text == s@,
                at_start == (it.index() == 0),
                it.index() <= text.len(),
                it.index() > 0 ==> text[0] == prefix,
                it.index() == 0 ==> parts@.len() == 0 && current@ == Seq::<char>::empty() && !in_quotes,
                starts_with_prefix == (it.index() > 0),
                starts_with_prefix ==> scan(text.subrange(1, it.index() as int)) == (Scan {
                    parts: views(parts@),
                    current: current@,
                    quoted: in_quotes,
                }),
        {
            let ghost i = it.index();
            assert(c == text[i]);
            if at_start {
                at_start = false;
                assert(i == 0 && c == text[0]);
                if c != prefix {
                    assert(!is_command(s@, prefix));
                    return None;
                }
                starts_with_prefix = true;
                assert(text.subrange(1, 1) =~= Seq::<char>::empty());
                assert(current@ =~= Seq::<char>::empty());
                assert(views(parts@) =~= Seq::<Seq<char>>::empty());
                assert(scan(text.subrange(1, 1)) == (Scan {
                    parts: views(parts@),
                    current: current@,
                    quoted: in_quotes,
                }));
            } else {
                let ghost before = Scan { parts: views(parts@), current: current@, quoted: in_quotes };
                if c == '"' {
                    in_quotes = !in_quotes;
                } else if c == ' ' && !in_quotes {
                    if current.unicode_len() > 0 {
                        parts.push(current);
                        current = String::new();
                    }
                } else {
                    push_char(&mut current, c);
                }
                let ghost after = scan_char(before, c);
                assert(views(parts@) =~= after.parts);
                assert(current@ =~= after.current);
                assert(in_quotes == after.quoted);
                let ghost seen = text.subrange(1, i + 1);
                assert(seen.drop_last() =~= text.subrange(1, i as int));
                assert(seen.last() == c);
                assert(scan(seen) == after);
            }
        }
        if !starts_with_prefix {
            return None;
        }
        assert(text.subrange(1, text.len() as int) =~= text.drop_first());
        if current.unicode_len() > 0 {
            parts.push(current);
        }
        assert(views(parts@) =~= tokens(text.drop_first()));
        if parts.len() == 0 {
            return None;
        }
        let name = parts[0].clone();
        let mut args: Vec<String> = Vec::new();
        let mut k: usize = 1;
        while k < parts.len()
            invariant
                1 <= k <= parts@.len(),
                views(args@) =~= views(parts@).subrange(1, k as int),
            decreases parts@.len() - k,
        {
            let ghost before = args@;
            args.push(parts[k].clone());
            assert(views(args@) =~= views(before).push(parts@[k as int]@));
            k = k + 1;
        }
        assert(views(parts@).subrange(1, parts@.len() as int) =~= views(parts@).drop_first());
        Some(Command { prefix, name, args })
    }

    /// Parses `s` with its first character as the prefix, when that character
    /// is one of `allowed`; `None` for an empty `s` or another first character.
    pub fn with_prefixes(s: &str, allowed: &[char]) -> (r: Option<Command>)
        ensures
            match r {
                Some(c) => s@.len() > 0 && allowed@.contains(s@[0]) && is_command(s@, s@[0])
                    && c.parses_as(s@, s@[0]),
                None => !(s@.len() > 0 && allowed@.contains(s@[0]) && is_command(s@, s@[0])),
            },
    {
        if s.unicode_len() == 0 {
            return None;
        }
        let first = s.get_char(0);
        let mut i: usize = 0;
        while i < allowed.len()
            invariant
                i <= allowed@.len(),
                s@.len() > 0,
                s@[0] == first,
                forall|j: int| 0 <= j < i ==> allowed@[j] != first,
            decreases allowed@.len() - i,
        {
            if allowed[i] == first {
                assert(allowed@[i as int] == first);
                assert(allowed@.contains(first));
                assert(s@[0] == first);
                return Command::with_prefix(s, first);
            }
            i = i + 1;
        }
        None
    }
}

/// When a positional argument applies, relative to whether the invoking
/// message replies to another one. Descriptive only: nothing enforces it.
#[derive(Clone, Copy, Debug, PartialEq, Eq, Structural, PartialOrd, Ord)]
pub enum ArgRequirement {
    Optional,
    OnlyWithReply,
    OnlyWithoutReply,
    Required,
}

/// Whether a command expects to be sent as a reply to another message.
#[derive(Clone, Copy, Debug, PartialEq, Eq, Structural, PartialOrd, Ord)]
pub enum ReplyRequirement {
    NoReply,
    Optional,
    Required,
}

/// The description of one positional argument of a command.
#[derive(Clone, Debug, PartialEq, Eq, PartialOrd, Ord)]
pub struct ArgMetadata {
    pub name: String,
    pub description: String,
    pub requirement: ArgRequirement,
}

impl ArgMetadata {
    pub fn new(name: String, description: String, requirement: ArgRequirement) -> (r: ArgMetadata)
        ensures
            r.name == name,
            r.description == description,
            r.requirement == requirement,
    {
        ArgMetadata { name, description, requirement }
    }
}

/// What a plugin declares for one command: the permission it requires, its
/// description, its reply and argument metadata, and the handler `H` that
/// runs it.
#[derive(Clone)]
pub struct CommandMetadata<H> {
    pub perm: Permission,
    pub desc: String,
    pub reply: ReplyRequirement,
    pub args: Vec<ArgMetadata>,
    pub handler: H,
}

impl<H> CommandMetadata<H> {
    pub fn new(
        perm: Permission,
        desc: String,
        reply: ReplyRequirement,
        args: Vec<ArgMetadata>,
        handler: H,
    ) -> (r: CommandMetadata<H>)
        ensures
            r.perm == perm,
            r.desc == desc,
            r.reply == reply,
            r.args == args,
            r.handler == handler,
    {
        CommandMetadata { perm, desc, reply, args, handler }
    }
}

} // verus!
