//! Post-clone and post-update hooks: the configured command line, split on
//! spaces into a program and its arguments. Running it is left to the caller.

use vstd::prelude::*;

use crate::config::Config;
use crate::fuzzy_matcher::texts;
use crate::text::push_char;

verus! {

/// `s` split at every space; consecutive spaces give empty pieces, and there
/// is always at least one piece.
pub open spec fn split_spaces(s: Seq<char>) -> Seq<Seq<char>>
    decreases s.len(),
{
    if s.len() == 0 {
        seq![Seq::empty()]
    } else {
        let rest = split_spaces(s.drop_last());
        if s.last() == ' ' {
            rest.push(Seq::empty())
        } else {
            rest.update(rest.len() - 1, rest.last().push(s.last()))
        }
    }
}

proof fn lemma_split_spaces_nonempty(s: Seq<char>)
    ensures
        split_spaces(s).len() >= 1,
    decreases s.len(),
{
    if s.len() > 0 {
        lemma_split_spaces_nonempty(s.drop_last());
    }
}

/// Splits a command line at every space.
pub fn split_command(command: &str) -> (r: Vec<String>)
    ensures
        texts(r@) == split_spaces(command@),
{
    let n = command.unicode_len();
    let mut parts: Vec<String> = Vec::new();
    let mut current = String::new();
    let mut i: usize = 0;
    while i < n
        invariant
            n == command@.len(),
            i <= n,
            texts(parts@).push(current@) == split_spaces(command@.subrange(0, i as int)),
        decreases n - i,
    {
        let c = command.get_char(i);
        let ghost pre = command@.subrange(0, i + 1);
        proof {
            assert(pre.drop_last() =~= command@.subrange(0, i as int));
            assert(pre.last() == c);
            lemma_split_spaces_nonempty(pre.drop_last());
        }
        if c == ' ' {
            let done = current;
            let ghost before = texts(parts@);
            parts.push(done);
            current = String::new();
            proof {
                assert(texts(parts@) =~= before.push(done@));
                assert(texts(parts@).push(current@) =~= split_spaces(pre));
            }
        } else {
            let ghost before = texts(parts@).push(current@);
            push_char(&mut current, c);
            proof {
                assert(texts(parts@).push(current@) =~= before.update(
                    before.len() - 1,
                    before.last().push(c),
                ));
            }
        }
        i = i + 1;
    }
    let ghost before = texts(parts@);
    parts.push(current);
    proof {
        assert(command@.subrange(0, n as int) =~= command@);
        assert(texts(parts@) =~= before.push(current@));
    }
    parts
}

/// A command to run: the program and its arguments.
#[derive(Debug)]
pub struct Invocation {
    pub program: String,
    pub args: Vec<String>,
}

/// The program and arguments of a command line: its first space-separated
/// piece, then the others.
pub open spec fn invocation_of(command: Seq<char>, program: Seq<char>, args: Seq<Seq<char>>) -> bool {
    let parts = split_spaces(command);
    program == parts[0] && args == parts.drop_first()
}

fn invocation(command: &String) -> (r: Invocation)
    ensures
        invocation_of(command@, r.program@, texts(r.args@)),
{
    let mut parts = split_command(command.as_str());
    proof {
        lemma_split_spaces_nonempty(command@);
    }
    let ghost all = texts(parts@);
    let program = parts.remove(0);
    proof {
        assert(texts(parts@) =~= all.drop_first());
    }
    Invocation { program, args: parts }
}

/// The hooks configured to run inside repositories.
pub struct CustomCommand {
    pub post_clone_command: Option<String>,
    pub post_update_command: Option<String>,
}

impl CustomCommand {
    pub fn new(config: &Config) -> (r: CustomCommand)
        ensures
            r.post_clone_command == config.settings.post_clone_command,
            r.post_update_command == config.settings.post_update_command,
    {
        CustomCommand {
            post_clone_command: config.settings.post_clone_command.clone(),
            post_update_command: config.settings.post_update_command.clone(),
        }
    }

    /// What to run after a clone, if a hook is configured.
    pub fn post_clone_invocation(&self) -> (r: Option<Invocation>)
        ensures
            match self.post_clone_command {
                Some(c) => r matches Some(x) && invocation_of(c@, x.program@, texts(x.args@)),
                None => r is None,
            },
    {
        match &self.post_clone_command {
            Some(c) => Some(invocation(c)),
            None => None,
        }
    }

    /// What to run after the cache was updated, if a hook is configured.
    pub fn post_update_invocation(&self) -> (r: Option<Invocation>)
        ensures
            match self.post_update_command {
                Some(c) => r matches Some(x) && invocation_of(c@, x.program@, texts(x.args@)),
                None => r is None,
            },
    {
        match &self.post_update_command {
            Some(c) => Some(invocation(c)),
            None => None,
        }
    }
}

} // verus!
