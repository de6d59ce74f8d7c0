//! The table of outgoing transfers, keyed by transfer id.

use vstd::prelude::*;

verus! {

/// One outgoing transfer.
#[derive(Clone, Debug)]
pub struct TransferSession {
    pub id: String,
    pub file_name: String,
    pub file_size: u64,
    pub file_path: String,
}

/// The plain values a transfer session holds.
pub struct SessionView {
    pub id: Seq<char>,
    pub file_name: Seq<char>,
    pub file_size: u64,
    pub file_path: Seq<char>,
}

impl View for TransferSession {
    type V = SessionView;

    open spec fn view(&self) -> SessionView {
        SessionView {
            id: self.id@,
            file_name: self.file_name@,
            file_size: self.file_size,
            file_path: self.file_path@,
        }
    }
}

/// The map that a list of entries stands for; a later entry for the same
/// key overrides an earlier one.
pub open spec fn entries_map(s: Seq<(Seq<char>, SessionView)>) -> Map<Seq<char>, SessionView>
    decreases s.len(),
{
    if s.len() == 0 {
        Map::empty()
    } else {
        entries_map(s.drop_last()).insert(s.last().0, s.last().1)
    }
}

/// Whether no key occurs twice.
pub open spec fn keys_distinct(s: Seq<(Seq<char>, SessionView)>) -> bool {
    forall|i: int, j: int| 0 <= i < s.len() && 0 <= j < s.len() && i != j ==> #[trigger] s[i].0 != #[trigger] s[j].0
}

proof fn lemma_entries_map_contains(s: Seq<(Seq<char>, SessionView)>, k: Seq<char>)
    requires
        keys_distinct(s),
    ensures
        entries_map(s).dom().contains(k) <==> exists|i: int| 0 <= i < s.len() && #[trigger] s[i].0 == k,
        forall|i: int| 0 <= i < s.len() && #[trigger] s[i].0 == k ==> entries_map(s)[k] == s[i].1,
    decreases s.len(),
{
    if s.len() > 0 {
        let d = s.drop_last();
        assert(keys_distinct(d));
        lemma_entries_map_contains(d, k);
        if entries_map(s).dom().contains(k) {
            if k == s.last().0 {
                assert(s[s.len() - 1].0 == k);
            } else {
                let i = choose|i: int| 0 <= i < d.len() && #[trigger] d[i].0 == k;
                assert(s[i].0 == k);
            }
        }
        if exists|i: int| 0 <= i < s.len() && #[trigger] s[i].0 == k {
            let i = choose|i: int| 0 <= i < s.len() && #[trigger] s[i].0 == k;
            if i < s.len() - 1 {
                assert(d[i].0 == k);
            }
        }
        assert forall|i: int| 0 <= i < s.len() && #[trigger] s[i].0 == k implies entries_map(s)[k]
            == s[i].1 by {
            if i < s.len() - 1 {
                assert(d[i].0 == k);
                assert(s[s.len() - 1].0 != k);
            }
        }
    }
}

proof fn lemma_entries_map_update(s: Seq<(Seq<char>, SessionView)>, i: int, v: SessionView)
    requires
        keys_distinct(s),
        0 <= i < s.len(),
    ensures
        entries_map(s.update(i, (s[i].0, v))) == entries_map(s).insert(s[i].0, v),
    decreases s.len(),
{
    let k = s[i].0;
    let t = s.update(i, (k, v));
    if i == s.len() - 1 {
        assert(t.drop_last() =~= s.drop_last());
        assert(entries_map(t) =~= entries_map(s).insert(k, v));
    } else {
        let d = s.drop_last();
        assert(keys_distinct(d));
        lemma_entries_map_update(d, i, v);
        assert(t.drop_last() =~= d.update(i, (k, v)));
        assert(s[s.len() - 1].0 != k);
        assert(entries_map(t) =~= entries_map(s).insert(k, v));
    }
}

/// The table of transfers. No transfer id occurs twice in it.
pub struct SessionStore {
    entries: Vec<(String, TransferSession)>,
}

impl SessionStore {
    /// The entries as plain values, in insertion order.
    pub closed spec fn entries_view(&self) -> Seq<(Seq<char>, SessionView)> {
        Seq::new(self.entries@.len(), |i: int| (self.entries@[i].0@, self.entries@[i].1@))
    }

    #[verifier::type_invariant]
    spec fn ids_distinct(&self) -> bool {
        keys_distinct(self.entries_view())
    }

    /// An empty table.
    pub fn new() -> (s: SessionStore)
        ensures
            s@ == Map::<Seq<char>, SessionView>::empty(),
    {
        let s = SessionStore { entries: Vec::new() };
        assert(s.entries_view() =~= Seq::<(Seq<char>, SessionView)>::empty());
        s
    }

    /// Number of transfers in the table.
    pub fn len(&self) -> (n: usize)
        ensures
            n == self@.dom().len(),
    {
        proof {
            use_type_invariant(self);
            lemma_distinct_len(self.entries_view());
        }
        self.entries.len()
    }

    /// Records `session` under `id`, replacing what was there, and gives
    /// back the replaced session, as `HashMap::insert` does.
    pub fn insert(&mut self, id: String, session: TransferSession) -> (replaced: Option<
        TransferSession,
    >)
        ensures
            final(self)@ == old(self)@.insert(id@, session@),
            match replaced {
                Some(r) => old(self)@.dom().contains(id@) && r@ == old(self)@[id@],
                None => !old(self)@.dom().contains(id@),
            },
    {
        proof {
            use_type_invariant(&*self);
        }
        let mut entries: Vec<(String, TransferSession)> = Vec::new();
        std::mem::swap(&mut entries, &mut self.entries);
        let ghost ev = Seq::new(entries@.len(), |i: int| (entries@[i].0@, entries@[i].1@));
        assert(ev == old(self).entries_view());
        let n = entries.len();
        let mut i: usize = 0;
        while i < n
            invariant
                i <= n,
                n == entries@.len(),
                ev == Seq::new(entries@.len(), |k: int| (entries@[k].0@, entries@[k].1@)),
                keys_distinct(ev),
                ev == old(self).entries_view(),
                forall|k: int| 0 <= k < i ==> ev[k].0 != id@,
            decreases n - i,
        {
            if entries[i].0 == id {
                let ghost sv = session@;
                proof {
                    lemma_entries_map_contains(ev, id@);
                    lemma_entries_map_update(ev, i as int, sv);
                }
                assert(ev[i as int].0 == id@);
                let old_entry = entries.remove(i);
                assert(old_entry.1@ == ev[i as int].1);
                entries.insert(i, (id, session));
                let ghost nv = Seq::new(entries@.len(), |k: int| (entries@[k].0@, entries@[k].1@));
                assert(nv =~= ev.update(i as int, (ev[i as int].0, sv)));
                self.entries = entries;
                assert(self.entries_view() == nv);
                return Some(old_entry.1);
            }
            i = i + 1;
        }
        proof {
            lemma_entries_map_contains(ev, id@);
        }
        let ghost sv = session@;
        let ghost kv = id@;
        entries.push((id, session));
        let ghost nv = Seq::new(entries@.len(), |k: int| (entries@[k].0@, entries@[k].1@));
        assert(nv =~= ev.push((kv, sv)));
        assert(nv.drop_last() =~= ev);
        self.entries = entries;
        assert(self.entries_view() == nv);
        None
    }
}

proof fn lemma_distinct_len(s: Seq<(Seq<char>, SessionView)>)
    requires
        keys_distinct(s),
    ensures
        entries_map(s).dom().len() == s.len(),
        entries_map(s).dom().finite(),
    decreases s.len(),
{
    if s.len() > 0 {
        let d = s.drop_last();
        assert(keys_distinct(d));
        lemma_distinct_len(d);
        lemma_entries_map_contains(d, s.last().0);
        if entries_map(d).dom().contains(s.last().0) {
            let i = choose|i: int| 0 <= i < d.len() && #[trigger] d[i].0 == s.last().0;
            assert(s[i].0 == s[s.len() - 1].0);
        }
    }
}

impl View for SessionStore {
    type V = Map<Seq<char>, SessionView>;

    closed spec fn view(&self) -> Map<Seq<char>, SessionView> {
        entries_map(self.entries_view())
    }
}

/// A fresh, empty table of transfers; the program keeps one for its whole
/// run.
pub fn sessions() -> (s: SessionStore)
    ensures
        s@ == Map::<Seq<char>, SessionView>::empty(),
{
    SessionStore::new()
}

} // verus!
