//! The command prefix that each server has chosen.

use std::collections::HashMap;
use vstd::prelude::*;
use vstd::std_specs::hash::*;
use vstd::std_specs::iter::IteratorSpec;
use crate::text::chars_of;

verus! {

/// The longest prefix that a server may choose, in characters.
pub const MAX_PREFIX_LENGTH: usize = 79;

/// The seconds between two writes of the table to the durable store.
pub const FLUSH_PERIOD_SECONDS: u64 = 8;

/// Whether `prefix` may be chosen: at least one character, at most 79.
pub open spec fn is_valid_prefix(prefix: Seq<char>) -> bool {
    1 <= prefix.len() <= MAX_PREFIX_LENGTH
}

/// Why a prefix is refused.
#[derive(Clone, Copy, Debug, PartialEq, Eq, Structural)]
pub enum PrefixError {
    /// The prefix is empty or longer than 79 characters.
    LengthOutOfBounds,
}

impl PrefixError {
    /// The message for the person who gave the command.
    pub fn message(&self) -> (out: String)
        ensures
            out@ == "Make sure your prefix is within reasonable length!"@,
    {
        "Make sure your prefix is within reasonable length!".to_owned()
    }
}

/// The texts of a list of entries, in the same order.
pub open spec fn entry_views(entries: Seq<(u64, String)>) -> Seq<(u64, Seq<char>)> {
    entries.map_values(|e: (u64, String)| (e.0, e.1@))
}

/// The table that a list of entries fills, one after the other: a later
/// entry for a server replaces an earlier one, and an entry whose prefix may
/// not be chosen is passed over.
pub open spec fn spec_loaded(entries: Seq<(u64, Seq<char>)>) -> Map<u64, Seq<char>>
    decreases entries.len(),
{
    if entries.len() == 0 {
        Map::empty()
    } else {
        let before = spec_loaded(entries.drop_last());
        if is_valid_prefix(entries.last().1) {
            before.insert(entries.last().0, entries.last().1)
        } else {
            before
        }
    }
}

/// Whether `entries` lists `table`: each server of the table once, with its
/// prefix, and nothing else.
pub open spec fn lists(entries: Seq<(u64, Seq<char>)>, table: Map<u64, Seq<char>>) -> bool {
    &&& forall|i: int, j: int| 0 <= i < j < entries.len() ==> entries[i].0 != entries[j].0
    &&& forall|i: int|
        0 <= i < entries.len() ==> table.contains_key(#[trigger] entries[i].0)
            && table[entries[i].0] == entries[i].1
    &&& forall|server: u64| #[trigger]
        table.contains_key(server) ==> exists|i: int|
            0 <= i < entries.len() && #[trigger] entries[i].0 == server
}

/// Whether every prefix of `table` may be chosen.
pub open spec fn all_valid(table: Map<u64, Seq<char>>) -> bool {
    forall|server: u64| #[trigger] table.contains_key(server) ==> is_valid_prefix(table[server])
}

/// What was set is what is read: right after a prefix is set for a server it
/// is that server's prefix, and every other server keeps its own.
pub proof fn lemma_read_your_write(
    table: Map<u64, Seq<char>>,
    server: u64,
    prefix: Seq<char>,
    other: u64,
)
    requires
        other != server,
    ensures
        table.insert(server, prefix).contains_key(server),
        table.insert(server, prefix)[server] == prefix,
        table.insert(server, prefix).contains_key(other) == table.contains_key(other),
        table.contains_key(other) ==> table.insert(server, prefix)[other] == table[other],
{
}

/// A table comes back from its own list: loading the entries that list a
/// table of valid prefixes gives that table again.
pub proof fn lemma_load_restores(entries: Seq<(u64, Seq<char>)>, table: Map<u64, Seq<char>>)
    requires
        lists(entries, table),
        all_valid(table),
    ensures
        spec_loaded(entries) == table,
{
    lemma_loaded_entries(entries);
    let loaded = spec_loaded(entries);
    assert forall|server: u64| loaded.contains_key(server) == table.contains_key(server) by {
        if table.contains_key(server) {
            let i = choose|i: int| 0 <= i < entries.len() && #[trigger] entries[i].0 == server;
            assert(is_valid_prefix(entries[i].1));
        }
    }
    assert forall|server: u64| loaded.contains_key(server) implies loaded[server]
        == table[server] by {
        let i = choose|i: int| 0 <= i < entries.len() && #[trigger] entries[i].0 == server;
        assert(is_valid_prefix(entries[i].1));
    }
    assert(loaded =~= table);
}

/// What loading a list with distinct servers gives: the valid entries of the
/// list, and no other server.
pub proof fn lemma_loaded_entries(entries: Seq<(u64, Seq<char>)>)
    requires
        forall|i: int, j: int| 0 <= i < j < entries.len() ==> entries[i].0 != entries[j].0,
    ensures
        forall|i: int|
            0 <= i < entries.len() && is_valid_prefix(entries[i].1) ==> spec_loaded(
                entries,
            ).contains_key(#[trigger] entries[i].0) && spec_loaded(entries)[entries[i].0]
                == entries[i].1,
        forall|server: u64| #[trigger]
            spec_loaded(entries).contains_key(server) ==> exists|i: int|
                0 <= i < entries.len() && #[trigger] entries[i].0 == server && is_valid_prefix(
                    entries[i].1,
                ),
        all_valid(spec_loaded(entries)),
    decreases entries.len(),
{
    if entries.len() > 0 {
        let init = entries.drop_last();
        let last = entries.last();
        assert forall|i: int, j: int| 0 <= i < j < init.len() implies init[i].0 != init[j].0 by {
            assert(init[i] == entries[i] && init[j] == entries[j]);
        }
        lemma_loaded_entries(init);
        assert forall|i: int|
            0 <= i < entries.len() && is_valid_prefix(entries[i].1) implies spec_loaded(
            entries,
        ).contains_key(#[trigger] entries[i].0) && spec_loaded(entries)[entries[i].0]
            == entries[i].1 by {
            if i < init.len() {
                assert(init[i] == entries[i]);
                assert(entries[i].0 != entries[entries.len() - 1].0);
            }
        }
        assert forall|server: u64| #[trigger]
            spec_loaded(entries).contains_key(server) implies exists|i: int|
            0 <= i < entries.len() && #[trigger] entries[i].0 == server && is_valid_prefix(
                entries[i].1,
            ) by {
            if is_valid_prefix(last.1) && server == last.0 {
                assert(entries[entries.len() - 1].0 == server);
            } else {
                assert(spec_loaded(init).contains_key(server));
                let i = choose|i: int|
                    0 <= i < init.len() && #[trigger] init[i].0 == server && is_valid_prefix(
                        init[i].1,
                    );
                assert(entries[i].0 == server);
            }
        }
    }
}

/// The prefix of each server that has chosen one.
#[derive(Debug)]
pub struct PrefixTable {
    entries: HashMap<u64, String>,
}

impl View for PrefixTable {
    type V = Map<u64, Seq<char>>;

    closed spec fn view(&self) -> Map<u64, Seq<char>> {
        self.entries@.map_values(|prefix: String| prefix@)
    }
}

impl PrefixTable {
    /// Whether every prefix of the table may be chosen.
    pub open spec fn wf(&self) -> bool {
        all_valid(self@)
    }

    /// The table in which no server has chosen a prefix.
    pub fn new() -> (out: Self)
        ensures
            out.wf(),
            out@ == Map::<u64, Seq<char>>::empty(),
    {
        let out = PrefixTable { entries: HashMap::new() };
        assert(out@ =~= Map::<u64, Seq<char>>::empty());
        out
    }

    /// The prefix that `server` has chosen, if it has chosen one.
    pub fn get(&self, server: u64) -> (out: Option<String>)
        ensures
            match out {
                Some(prefix) => self@.contains_key(server) && self@[server] == prefix@,
                None => !self@.contains_key(server),
            },
    {
        broadcast use group_hash_axioms;

        match self.entries.get(&server) {
            Some(prefix) => Some(prefix.clone()),
            None => None,
        }
    }

    /// Sets the prefix of `server`, where `prefix` holds between one and 79
    /// characters; refuses it otherwise and leaves the table as it is.
    pub fn set(&mut self, server: u64, prefix: &str) -> (out: Result<(), PrefixError>)
        ensures
            out is Ok == is_valid_prefix(prefix@),
            out is Ok ==> final(self)@ == old(self)@.insert(server, prefix@),
            out is Err ==> final(self)@ == old(self)@,
            old(self).wf() ==> final(self).wf(),
    {
        broadcast use group_hash_axioms;

        let length: usize = chars_of(prefix).len();
        if length < 1 || length > MAX_PREFIX_LENGTH {
            return Err(PrefixError::LengthOutOfBounds);
        }
        self.entries.insert(server, prefix.to_owned());
        assert(self@ =~= old(self)@.insert(server, prefix@));
        Ok(())
    }

    /// The servers of the table with their prefixes, each once, in no
    /// particular order: what is to be written to the durable store.
    pub fn entries(&self) -> (out: Vec<(u64, String)>)
        ensures
            lists(entry_views(out@), self@),
    {
        broadcast use group_hash_axioms;

        let mut out: Vec<(u64, String)> = Vec::new();
        let ghost all = spec_hash_map_iter(&self.entries).remaining();
        for pair in it: self.entries.iter()
            invariant
                it.seq() == all,
                all == spec_hash_map_iter(&self.entries).remaining(),
                all.no_duplicates(),
                out.len() == it.index(),
                forall|i: int|
                    0 <= i < out.len() ==> (#[trigger] out@[i]).0 == *all[i].0 && out@[i].1
                        == *all[i].1,
        {
            let (server, prefix) = pair;
            out.push((*server, prefix.clone()));
        }
        proof {
            let listed = entry_views(out@);
            assert(out.len() == all.len());
            assert forall|i: int, j: int| 0 <= i < j < listed.len() implies listed[i].0
                != listed[j].0 by {
                assert(self.entries@.contains_key(*all[i].0));
                assert(self.entries@[*all[i].0] == *all[i].1);
                assert(self.entries@[*all[j].0] == *all[j].1);
                if listed[i].0 == listed[j].0 {
                    assert(*all[i].0 == *all[j].0);
                    assert(*all[i].1 == *all[j].1);
                    assert(all[i] == all[j]);
                }
            }
            assert forall|i: int| 0 <= i < listed.len() implies self@.contains_key(
                #[trigger] listed[i].0,
            ) && self@[listed[i].0] == listed[i].1 by {
                assert(self.entries@.contains_key(*all[i].0));
                assert(self.entries@[*all[i].0] == *all[i].1);
            }
            assert forall|server: u64| #[trigger] self@.contains_key(server) implies exists|i: int|
                0 <= i < listed.len() && #[trigger] listed[i].0 == server by {
                assert(self.entries@.contains_key(server));
                assert(all.contains((&server, &self.entries@[server])));
                let i = choose|i: int|
                    0 <= i < all.len() && all[i] == (&server, &self.entries@[server]);
                assert(listed[i].0 == server);
            }
        }
        out
    }

    /// The table that `entries` fill, one after the other: what is read back
    /// from the durable store.
    pub fn load(entries: &Vec<(u64, String)>) -> (out: Self)
        ensures
            out.wf(),
            out@ == spec_loaded(entry_views(entries@)),
    {
        let mut out = PrefixTable::new();
        let mut i: usize = 0;
        assert(entry_views(entries@).take(0) =~= Seq::<(u64, Seq<char>)>::empty());
        while i < entries.len()
            invariant
                i <= entries.len(),
                out.wf(),
                out@ == spec_loaded(entry_views(entries@).take(i as int)),
            decreases entries.len() - i,
        {
            proof {
                let listed = entry_views(entries@);
                assert(listed.take(i + 1).drop_last() =~= listed.take(i as int));
                assert(listed.take(i + 1).last() == (entries@[i as int].0, entries@[i as int].1@));
            }
            let _ = out.set(entries[i].0, entries[i].1.as_str());
            i += 1;
        }
        assert(entry_views(entries@).take(i as int) =~= entry_views(entries@));
        out
    }
}

} // verus!
