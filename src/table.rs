//! The lookup table: normalized GUID to URL, built once and then only read.

use vstd::prelude::*;
use vstd::hash_map::StringHashMap;
use vstd::string::StrSliceExecFns;
use crate::guid::{dashless, strip_dashes};

verus! {

/// Maps a normalized GUID to the URL it resolves to.
pub struct LookupTable {
    map: StringHashMap<String>,
}

impl View for LookupTable {
    type V = Map<Seq<char>, Seq<char>>;

    closed spec fn view(&self) -> Map<Seq<char>, Seq<char>> {
        Map::new(|k: Seq<char>| self.map@.contains_key(k), |k: Seq<char>| self.map@[k]@)
    }
}

impl LookupTable {
    /// No GUID in the table is the empty string.
    pub open spec fn wf(&self) -> bool {
        !self@.contains_key(Seq::empty())
    }

    /// An empty table.
    pub fn new() -> (t: LookupTable)
        ensures
            t@ == Map::<Seq<char>, Seq<char>>::empty(),
            t.wf(),
    {
        let t = LookupTable { map: StringHashMap::new() };
        assert(t@ =~= Map::<Seq<char>, Seq<char>>::empty());
        t
    }

    /// Files one source record: the GUID loses its dashes and becomes the key
    /// of `url`, replacing what an earlier record filed under it. A GUID that
    /// is empty once its dashes are gone is skipped, and `false` returned.
    pub fn insert_record(&mut self, guid: &str, url: &str) -> (added: bool)
        requires
            old(self).wf(),
        ensures
            final(self).wf(),
            added == (dashless(guid@).len() > 0),
            added ==> final(self)@ == old(self)@.insert(dashless(guid@), url@),
            !added ==> final(self)@ == old(self)@,
    {
        let key = strip_dashes(guid);
        if key.unicode_len() == 0 {
            return false;
        }
        let value = url.to_owned();
        let ghost before = self@;
        self.map.insert(key, value);
        assert(self@ =~= before.insert(dashless(guid@), url@));
        assert(dashless(guid@) != Seq::<char>::empty());
        true
    }

    /// The URL filed under `key`, if any. The table is not changed.
    pub fn get(&self, key: &str) -> (r: Option<&String>)
        ensures
            match r {
                Some(url) => self@.contains_key(key@) && url@ == self@[key@],
                None => !self@.contains_key(key@),
            },
    {
        self.map.get(key)
    }

    /// The number of GUIDs in the table.
    pub fn len(&self) -> (n: usize)
        ensures
            n == self@.len(),
    {
        broadcast use vstd::hash_map::axiom_string_hash_map_spec_len;
        assert(self@.dom() =~= self.map@.dom());
        self.map.len()
    }
}

} // verus!
