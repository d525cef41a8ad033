//! The per-buffer state of the explorer: each buffer keeps the history of
//! the directories it showed, and `go` moves a buffer to a directory.

use vstd::prelude::*;
use crate::command::go::GoCommandOptions;
use crate::name::{parse_options, switch_options, CommandName};
use crate::repository::path::{slashed, FilePath};
use crate::text::{concat, lemma_views_push, owned, views, words};

use std::collections::HashMap;

verus! {

broadcast use vstd::std_specs::hash::group_hash_axioms;

/// What the editor reports of the cursor when a command runs.
pub struct Current {}

impl Current {
    /// The cursor's report.
    pub fn new() -> (r: Current) {
        Current {}
    }

    /// The path under the cursor, as reported (always empty).
    pub fn path(&self) -> (r: String)
        ensures
            r@ == Seq::<char>::empty(),
    {
        String::new()
    }

    /// The line under the cursor, as reported (always the first).
    pub fn line_number(&self) -> (r: u64)
        ensures
            r == 1,
    {
        1
    }
}

/// Copies a list of strings.
fn copy_strings(v: &Vec<String>) -> (r: Vec<String>)
    ensures
        views(r@) == views(v@),
{
    let mut r: Vec<String> = Vec::new();
    let mut i: usize = 0;
    while i < v.len()
        invariant
            i <= v@.len(),
            views(r@) =~= views(v@).take(i as int),
        decreases v@.len() - i,
    {
        let s = v[i].clone();
        proof {
            lemma_views_push(r@, s);
        }
        r.push(s);
        i += 1;
    }
    r
}

/// The history a buffer keeps between commands.
pub struct StoredState {
    pub history: Vec<String>,
}

/// The state of one buffer while a command runs on it.
pub struct State {
    pub history: Vec<String>,
}

impl StoredState {
    /// The state to run a command with.
    pub fn to_state(&self) -> (r: State)
        ensures
            views(r.history@) == views(self.history@),
    {
        State { history: copy_strings(&self.history) }
    }
}

impl State {
    /// The state of a buffer seen for the first time: no history.
    pub fn new() -> (r: State)
        ensures
            r.history@.len() == 0,
    {
        State { history: Vec::new() }
    }

    /// What to keep of this state once the command is done.
    pub fn to_stored(&self) -> (r: StoredState)
        ensures
            views(r.history@) == views(self.history@),
    {
        StoredState { history: copy_strings(&self.history) }
    }

    /// Remembers `path` as visited.
    pub fn add_history(&mut self, path: &str, _line_number: u64, _is_back: bool)
        ensures
            views(final(self).history@) == views(old(self).history@).push(path@),
    {
        let p = owned(path);
        proof {
            lemma_views_push(self.history@, p);
        }
        self.history.push(p);
    }

    /// The editor command that makes `path` the working directory of the tab.
    pub fn tcd_command(path: &str) -> (r: String)
        ensures
            r@ == "tcd "@ + path@,
    {
        concat("tcd ", path)
    }
}

/// The states of all buffers, by buffer number.
pub struct PluginState {
    pub states: HashMap<i64, StoredState>,
}

impl PluginState {
    /// No buffer seen yet.
    pub fn new() -> (r: PluginState)
        ensures
            r.states@ == Map::<i64, StoredState>::empty(),
    {
        PluginState { states: HashMap::new() }
    }

    /// The history kept for buffer `bufnr`, if it has been seen.
    pub open spec fn history_of(self, bufnr: i64) -> Option<Seq<Seq<char>>> {
        if self.states@.contains_key(bufnr) {
            Some(views(self.states@[bufnr].history@))
        } else {
            None
        }
    }

    /// The state to run a command on buffer `bufnr` with: what it kept, or
    /// a fresh one.
    pub fn state_for(&self, bufnr: i64) -> (r: State)
        ensures
            match self.history_of(bufnr) {
                Some(h) => views(r.history@) == h,
                None => r.history@.len() == 0,
            },
    {
        match self.states.get(&bufnr) {
            Some(stored) => stored.to_state(),
            None => State::new(),
        }
    }

    /// Keeps the state of buffer `bufnr` once a command is done.
    pub fn store(&mut self, bufnr: i64, state: &State)
        ensures
            final(self).history_of(bufnr) == Some(views(state.history@)),
            forall|b: i64| b != bufnr ==> final(self).history_of(b) == old(self).history_of(b),
    {
        self.states.insert(bufnr, state.to_stored());
    }
}

/// Where `go` takes a buffer.
pub enum GoTarget {
    /// The path given with `-path`, once resolved.
    Resolve(String),
    /// The nearest path that exists, climbing from the current one.
    NearestExisting(String),
}

/// Moves a buffer to a directory.
pub struct GoCommand {
    pub current: Current,
    pub opts: GoCommandOptions,
}

impl GoCommand {
    /// Where to go: the path given with `-path` (to be resolved), or the
    /// nearest existing path from the current one.
    pub fn target(&self) -> (r: GoTarget)
        ensures
            match self.opts@.path {
                Some(p) => r matches GoTarget::Resolve(q) && q@ == p,
                None => r matches GoTarget::NearestExisting(q) && q@ == Seq::<char>::empty(),
            },
    {
        match &self.opts.path {
            Some(p) => GoTarget::Resolve(p.clone()),
            None => GoTarget::NearestExisting(self.current.path()),
        }
    }

    /// Whether the buffer moved: `target` is not where the cursor was
    /// (compared in slash form).
    pub fn moved(&self, target: &str) -> (r: bool)
        ensures
            r == (slashed(Seq::<char>::empty()) != slashed(target@)),
    {
        let here = self.current.path();
        !FilePath::new(here.as_str()).equals(target)
    }
}

/// The `go` switches of the command line `arg`, when it asks for `go`; the
/// other commands do nothing here.
pub fn go_request(arg: &str) -> (r: Option<GoCommandOptions>)
    ensures
        match r {
            Some(o) => CommandName::of_line(arg@) == CommandName::Go && o@
                == crate::command::go::go_options(switch_options(words(arg@))),
            None => CommandName::of_line(arg@) != CommandName::Go,
        },
{
    match CommandName::from(arg) {
        CommandName::Go => Some(GoCommandOptions::from(parse_options(arg))),
        _ => None,
    }
}

} // verus!
