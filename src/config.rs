use vstd::prelude::*;

verus! {

/// The bot's configuration: its token and the characters that may start a
/// command. Prefixes are read anew for every message.
pub struct Config {
    pub token: String,
    pub prefixes: Vec<char>,
}

impl Config {
    /// An empty token and the single prefix `/`.
    pub fn default() -> (r: Config)
        ensures
            r.token@ == Seq::<char>::empty(),
            r.prefixes@ == seq!['/'],
    {
        Config { token: String::new(), prefixes: vec!['/'] }
    }

    pub fn new(token: String, prefixes: Vec<char>) -> (r: Config)
        ensures
            r.token == token,
            r.prefixes == prefixes,
    {
        Config { token, prefixes }
    }

    pub fn get_token(&self) -> (r: &str)
        ensures
            r@ == self.token@,
    {
        self.token.as_str()
    }

    /// A copy of the prefixes configured now.
    pub fn get_prefixes(&self) -> (r: Vec<char>)
        ensures
            r@ == self.prefixes@,
    {
        let mut r: Vec<char> = Vec::new();
        let mut i: usize = 0;
        while i < self.prefixes.len()
            invariant
                i <= self.prefixes@.len(),
                r@ == self.prefixes@.subrange(0, i as int),
            decreases self.prefixes@.len() - i,
        {
            r.push(self.prefixes[i]);
            i = i + 1;
            assert(r@ =~= self.prefixes@.subrange(0, i as int));
        }
        assert(self.prefixes@.subrange(0, i as int) =~= self.prefixes@);
        r
    }
}

} // verus!
