//! The per-install record of which chunks (by checksum) are already on disk.

use vstd::prelude::*;
use crate::keymap::AssocMap;
use crate::text::views;

verus! {

/// The map that inserting `pairs` in order into an empty map gives.
pub open spec fn spec_pairs_map(pairs: Seq<(String, bool)>) -> Map<Seq<char>, bool>
    decreases pairs.len(),
{
    if pairs.len() == 0 {
        Map::empty()
    } else {
        spec_pairs_map(pairs.drop_last()).insert(pairs.last().0@, pairs.last().1)
    }
}

/// The file the download record is kept in, inside the game's directory.
pub const DROP_DATA_PATH: &'static str = ".dropdata";

/// Where the download record of a game directory is kept.
pub fn drop_data_path(base_path: &str) -> (r: String)
    ensures
        r@ == crate::paths::spec_join_path(base_path@, DROP_DATA_PATH@),
{
    crate::paths::join_path(base_path, DROP_DATA_PATH)
}

/// Download progress of one game version, stored next to its files.
pub struct DropData {
    pub game_id: String,
    pub game_version: String,
    pub contexts: AssocMap<String, bool>,
    pub base_path: String,
}

impl DropData {
    /// A record with no chunk marked either way.
    pub fn new(game_id: String, game_version: String, base_path: String) -> (r: Self)
        ensures
            r.game_id == game_id,
            r.game_version == game_version,
            r.base_path == base_path,
            r.contexts.view() == Map::<Seq<char>, bool>::empty(),
    {
        DropData { base_path, game_id, game_version, contexts: AssocMap::new() }
    }

    /// The record read back from disk if there was one, else a fresh one.
    pub fn generate(game_id: String, game_version: String, base_path: String, stored: Option<DropData>) -> (r: Self)
        ensures
            stored is Some ==> r == stored->0,
            stored is None ==> {
                &&& r.game_id == game_id
                &&& r.game_version == game_version
                &&& r.base_path == base_path
                &&& r.contexts.view() == Map::<Seq<char>, bool>::empty()
            },
    {
        match stored {
            Some(v) => v,
            None => DropData::new(game_id, game_version, base_path),
        }
    }

    /// Replaces every context with `completed_contexts`; a later pair overrides an earlier one.
    pub fn set_contexts(&mut self, completed_contexts: &[(String, bool)])
        ensures
            final(self).contexts.view() == spec_pairs_map(completed_contexts@),
            final(self).game_id == old(self).game_id,
            final(self).game_version == old(self).game_version,
            final(self).base_path == old(self).base_path,
    {
        let mut m: AssocMap<String, bool> = AssocMap::new();
        let mut i: usize = 0;
        while i < completed_contexts.len()
            invariant
                i <= completed_contexts@.len(),
                m.view() == spec_pairs_map(completed_contexts@.subrange(0, i as int)),
            decreases completed_contexts@.len() - i,
        {
            let key = completed_contexts[i].0.clone();
            m.insert(key, completed_contexts[i].1);
            proof {
                let s = completed_contexts@.subrange(0, i as int + 1);
                assert(s.drop_last() =~= completed_contexts@.subrange(0, i as int));
            }
            i = i + 1;
        }
        proof {
            assert(completed_contexts@.subrange(0, completed_contexts@.len() as int) =~= completed_contexts@);
        }
        self.contexts = m;
    }

    /// Marks one context.
    pub fn set_context(&mut self, context: String, state: bool)
        ensures
            final(self).contexts.view() == old(self).contexts.view().insert(context@, state),
            final(self).game_id == old(self).game_id,
            final(self).game_version == old(self).game_version,
            final(self).base_path == old(self).base_path,
    {
        self.contexts.insert(context, state);
    }

    /// The contexts marked complete, each once.
    pub fn get_completed_contexts(&self) -> (r: Vec<String>)
        ensures
            views(r@) == self.contexts.keys_seq().filter(|k: Seq<char>| self.contexts.view()[k]),
            views(r@).no_duplicates(),
            forall|k: Seq<char>| views(r@).contains(k)
                <==> (self.contexts.view().contains_key(k) && self.contexts.view()[k]),
    {
        let n = self.contexts.len();
        let ghost keys = self.contexts.keys_seq();
        let ghost pred = |k: Seq<char>| self.contexts.view()[k];
        let mut out: Vec<String> = Vec::new();
        let mut i: usize = 0;
        while i < n
            invariant
                n == keys.len(),
                keys == self.contexts.keys_seq(),
                pred == (|k: Seq<char>| self.contexts.view()[k]),
                i <= n,
                views(out@) == keys.subrange(0, i as int).filter(pred),
                keys.no_duplicates(),
                views(out@).no_duplicates(),
                forall|x: Seq<char>| #[trigger] views(out@).contains(x) ==> keys.subrange(0, i as int).contains(x),
            decreases n - i,
        {
            let k = self.contexts.key_at_index(i);
            let v = self.contexts.value_at_index(i);
            proof {
                let s = keys.subrange(0, i as int + 1);
                assert(s.drop_last() =~= keys.subrange(0, i as int));
                reveal_with_fuel(Seq::filter, 1);
            }
            let ghost old_out = views(out@);
            if *v {
                out.push(k.clone());
                proof {
                    assert(views(out@) =~= old_out.push(k@));
                    if old_out.contains(k@) {
                        let j = choose|j: int| 0 <= j < i && keys.subrange(0, i as int)[j] == k@;
                        assert(keys[j] == keys[i as int]);
                    }
                }
            }
            proof {
                assert forall|x: Seq<char>| #[trigger] views(out@).contains(x) implies keys.subrange(0, i as int + 1).contains(x) by {
                    if old_out.contains(x) {
                        let j = choose|j: int| 0 <= j < i && keys.subrange(0, i as int)[j] == x;
                        assert(keys.subrange(0, i as int + 1)[j] == x);
                    } else {
                        assert(keys.subrange(0, i as int + 1)[i as int] == x);
                    }
                }
            }
            i = i + 1;
        }
        proof {
            assert(keys.subrange(0, n as int) =~= keys);
            broadcast use vstd::seq_lib::group_filter_ensures;
            assert forall|k: Seq<char>| views(out@).contains(k)
                <==> (self.contexts.view().contains_key(k) && self.contexts.view()[k]) by {
                if self.contexts.view().contains_key(k) && self.contexts.view()[k] {
                    assert(keys.contains(k));
                    let j = choose|j: int| 0 <= j < keys.len() && keys[j] == k;
                    assert(keys.filter(pred).contains(keys[j]));
                }
                if views(out@).contains(k) {
                    let j = choose|j: int| 0 <= j < keys.filter(pred).len() && keys.filter(pred)[j] == k;
                    assert(keys.contains(keys.filter(pred)[j]));
                }
            }
        }
        out
    }

    /// An independent copy of the context map.
    pub fn get_contexts(&self) -> (r: AssocMap<String, bool>)
        ensures
            r.view() == self.contexts.view(),
            r.keys_seq() == self.contexts.keys_seq(),
    {
        self.contexts.copy_map()
    }
}

} // verus!
