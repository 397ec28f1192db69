//! Maps keyed by MIDI control identifiers (mappings, modes, inversions).

use vstd::prelude::*;
use crate::settings::{ControllableParameter, FullMidiIdentifier, MidiIdView};
use crate::text::{compare_text, lemma_text_lt_order, lemma_text_lt_transitive, text_lt, Precedence};

verus! {

/// No identifier occurs twice among the entries.
pub open spec fn keys_unique<V>(s: Seq<(FullMidiIdentifier, V)>) -> bool {
    forall|i: int, j: int| 0 <= i < j < s.len() ==> (#[trigger] s[i]).0@ != (#[trigger] s[j]).0@
}

/// The order of identifiers: control changes before notes, then by port
/// name, channel and controller or note number.
pub open spec fn id_lt(a: MidiIdView, b: MidiIdView) -> bool {
    if a.is_cc != b.is_cc {
        a.is_cc
    } else if a.port != b.port {
        text_lt(a.port, b.port)
    } else if a.channel != b.channel {
        a.channel < b.channel
    } else {
        a.number < b.number
    }
}

/// The order of identifiers is a strict order.
pub proof fn lemma_id_lt_strict(a: MidiIdView, b: MidiIdView, c: MidiIdView)
    ensures
        !id_lt(a, a),
        id_lt(a, b) && id_lt(b, c) ==> id_lt(a, c),
{
    lemma_text_lt_order(a.port, b.port, false);
    lemma_text_lt_order(b.port, c.port, false);
    lemma_text_lt_order(a.port, c.port, false);
    if text_lt(a.port, b.port) && text_lt(b.port, c.port) {
        lemma_text_lt_transitive(a.port, b.port, c.port, false);
    }
}

/// Compares two identifiers in their order.
pub fn compare_ids(a: &FullMidiIdentifier, b: &FullMidiIdentifier) -> (r: Precedence)
    ensures
        r == Precedence::Before <==> id_lt(a@, b@),
        r == Precedence::Same <==> a@ == b@,
        r == Precedence::After <==> id_lt(b@, a@),
{
    let (a_cc, a_port, a_channel, a_number) = match a {
        FullMidiIdentifier::ControlChange(x) => (true, x.port_name.as_str(), x.channel, x.cc),
        FullMidiIdentifier::Note(x) => (false, x.port_name.as_str(), x.channel, x.note),
    };
    let (b_cc, b_port, b_channel, b_number) = match b {
        FullMidiIdentifier::ControlChange(x) => (true, x.port_name.as_str(), x.channel, x.cc),
        FullMidiIdentifier::Note(x) => (false, x.port_name.as_str(), x.channel, x.note),
    };
    proof {
        lemma_text_lt_order(a_port@, b_port@, false);
    }
    if a_cc != b_cc {
        if a_cc { Precedence::Before } else { Precedence::After }
    } else {
        match compare_text(a_port, b_port, false) {
            Precedence::Before => Precedence::Before,
            Precedence::After => Precedence::After,
            Precedence::Same => {
                if a_channel < b_channel {
                    Precedence::Before
                } else if a_channel > b_channel {
                    Precedence::After
                } else if a_number < b_number {
                    Precedence::Before
                } else if a_number > b_number {
                    Precedence::After
                } else {
                    Precedence::Same
                }
            },
        }
    }
}

/// The entries come in increasing order of their identifiers.
pub open spec fn ids_sorted<V>(s: Seq<(FullMidiIdentifier, V)>) -> bool {
    forall|i: int, j: int| 0 <= i < j < s.len() ==> id_lt((#[trigger] s[i]).0@, (#[trigger] s[j]).0@)
}

/// Whether some entry carries the key.
pub open spec fn has_key<V>(s: Seq<(FullMidiIdentifier, V)>, k: MidiIdView) -> bool {
    exists|i: int| 0 <= i < s.len() && (#[trigger] s[i]).0@ == k
}

/// The value of the entry that carries the key.
pub open spec fn value_at<V>(s: Seq<(FullMidiIdentifier, V)>, k: MidiIdView) -> V {
    s[choose|i: int| 0 <= i < s.len() && (#[trigger] s[i]).0@ == k].1
}

/// The map that a sequence of entries stands for.
pub open spec fn entries_map<V>(s: Seq<(FullMidiIdentifier, V)>) -> Map<MidiIdView, V> {
    Map::new(|k: MidiIdView| has_key(s, k), |k: MidiIdView| value_at(s, k))
}

/// A map from MIDI control identifiers to values, kept in the order of the identifiers.
pub struct MidiMap<V: Copy> {
    entries: Vec<(FullMidiIdentifier, V)>,
}

impl<V: Copy> View for MidiMap<V> {
    type V = Map<MidiIdView, V>;

    closed spec fn view(&self) -> Map<MidiIdView, V> {
        entries_map(self.entries@)
    }
}

/// When the entries carry unique keys, the entry at a position gives the map's value there.
pub proof fn lemma_entry_is_value<V>(s: Seq<(FullMidiIdentifier, V)>, i: int)
    requires
        keys_unique(s),
        0 <= i < s.len(),
    ensures
        has_key(s, s[i].0@),
        value_at(s, s[i].0@) == s[i].1,
{
    let k = s[i].0@;
    assert(s[i].0@ == k);
    let j = choose|j: int| 0 <= j < s.len() && (#[trigger] s[j]).0@ == k;
    if j != i {
        if j < i {
            assert(s[j].0@ != s[i].0@);
        } else {
            assert(s[i].0@ != s[j].0@);
        }
    }
}

/// Entries in increasing order carry unique identifiers.
proof fn lemma_sorted_unique<V>(s: Seq<(FullMidiIdentifier, V)>)
    requires
        ids_sorted(s),
    ensures
        keys_unique(s),
{
    assert forall|i: int, j: int| 0 <= i < j < s.len() implies (#[trigger] s[i]).0@ != (#[trigger] s[j]).0@ by {
        lemma_id_lt_strict(s[i].0@, s[j].0@, s[j].0@);
    }
}

/// An entry put where its identifier belongs keeps the entries in order,
/// and adds its identifier and value to the map.
proof fn lemma_insert_at<V>(s: Seq<(FullMidiIdentifier, V)>, p: int, e: (FullMidiIdentifier, V))
    requires
        ids_sorted(s),
        0 <= p <= s.len(),
        forall|a: int| 0 <= a < p ==> id_lt((#[trigger] s[a]).0@, e.0@),
        forall|b: int| p <= b < s.len() ==> id_lt(e.0@, (#[trigger] s[b]).0@),
    ensures
        ids_sorted(s.insert(p, e)),
        keys_unique(s.insert(p, e)),
        entries_map(s.insert(p, e)) == entries_map(s).insert(e.0@, e.1),
{
    let t = s.insert(p, e);
    let k = e.0@;
    assert forall|a: int, b: int| 0 <= a < b < t.len() implies id_lt((#[trigger] t[a]).0@, (#[trigger] t[b]).0@) by {
        if a < p && b < p {
            assert(t[a] == s[a] && t[b] == s[b]);
        } else if a < p && b == p {
            assert(t[a] == s[a]);
        } else if a < p {
            assert(t[a] == s[a] && t[b] == s[b - 1]);
        } else if a == p {
            assert(t[b] == s[b - 1]);
        } else {
            assert(t[a] == s[a - 1] && t[b] == s[b - 1]);
        }
    }
    lemma_sorted_unique(s);
    lemma_sorted_unique(t);
    let m = entries_map(s).insert(k, e.1);
    assert forall|q: MidiIdView| #![auto] entries_map(t).contains_key(q) == m.contains_key(q) by {
        if has_key(s, q) {
            let j = choose|j: int| 0 <= j < s.len() && (#[trigger] s[j]).0@ == q;
            if j < p {
                assert(t[j] == s[j]);
            } else {
                assert(t[j + 1] == s[j]);
            }
        }
        if q == k {
            assert(t[p].0@ == k);
        }
        if has_key(t, q) {
            let j = choose|j: int| 0 <= j < t.len() && (#[trigger] t[j]).0@ == q;
            if j < p {
                assert(t[j] == s[j]);
            } else if j > p {
                assert(t[j] == s[j - 1]);
            }
        }
    }
    assert forall|q: MidiIdView| #![auto] entries_map(t).contains_key(q) implies entries_map(t)[q] == m[q] by {
        let j = choose|j: int| 0 <= j < t.len() && (#[trigger] t[j]).0@ == q;
        lemma_entry_is_value(t, j);
        if j < p {
            assert(t[j] == s[j]);
            lemma_entry_is_value(s, j);
            lemma_id_lt_strict(s[j].0@, k, k);
        } else if j > p {
            assert(t[j] == s[j - 1]);
            lemma_entry_is_value(s, j - 1);
            lemma_id_lt_strict(k, s[j - 1].0@, k);
        }
    }
    assert(entries_map(t) =~= m);
}

impl<V: Copy> MidiMap<V> {
    #[verifier::type_invariant]
    closed spec fn inv(self) -> bool {
        keys_unique(self.entries@) && ids_sorted(self.entries@)
    }

    /// An empty map.
    pub fn new() -> (r: MidiMap<V>)
        ensures
            r@ == Map::<MidiIdView, V>::empty(),
    {
        let r = MidiMap { entries: Vec::new() };
        assert(entries_map(r.entries@) =~= Map::<MidiIdView, V>::empty());
        r
    }

    /// Number of identifiers in the map.
    pub fn len(&self) -> (r: usize)
        ensures
            r == self@.dom().len(),
    {
        proof {
            use_type_invariant(self);
            self.lemma_dom_len();
        }
        self.entries.len()
    }

    proof fn lemma_dom_len(&self)
        requires
            keys_unique(self.entries@),
        ensures
            self@.dom().len() == self.entries@.len(),
            self@.dom().finite(),
    {
        let s = self.entries@;
        let keys = s.map_values(|e: (FullMidiIdentifier, V)| e.0@);
        assert forall|i: int, j: int| 0 <= i < j < keys.len() implies keys[i] != keys[j] by {
            assert(s[i].0@ != s[j].0@);
        }
        assert(keys.no_duplicates());
        keys.unique_seq_to_set();
        assert forall|k: MidiIdView| self@.dom().contains(k) <==> keys.to_set().contains(k) by {
            if self@.dom().contains(k) {
                let i = choose|i: int| 0 <= i < s.len() && (#[trigger] s[i]).0@ == k;
                assert(keys[i] == k);
            }
            if keys.to_set().contains(k) {
                let i = choose|i: int| 0 <= i < keys.len() && keys[i] == k;
                assert(s[i].0@ == k);
            }
        }
        assert(self@.dom() =~= keys.to_set());
    }

    /// Position of the entry carrying the key, if any.
    fn find(&self, id: &FullMidiIdentifier) -> (r: Option<usize>)
        ensures
            r matches Some(i) ==> i < self.entries@.len() && self.entries@[i as int].0@ == id@,
            r is None ==> !has_key(self.entries@, id@),
    {
        let mut i: usize = 0;
        while i < self.entries.len()
            invariant
                i <= self.entries@.len(),
                forall|j: int| 0 <= j < i ==> (#[trigger] self.entries@[j]).0@ != id@,
            decreases self.entries@.len() - i,
        {
            if self.entries[i].0.same_as(id) {
                return Some(i);
            }
            i = i + 1;
        }
        None
    }

    /// The value mapped from the identifier, if any.
    pub fn get(&self, id: &FullMidiIdentifier) -> (r: Option<V>)
        ensures
            r == (if self@.contains_key(id@) { Some(self@[id@]) } else { None::<V> }),
    {
        proof {
            use_type_invariant(self);
        }
        match self.find(id) {
            Some(i) => {
                proof {
                    lemma_entry_is_value(self.entries@, i as int);
                }
                Some(self.entries[i].1)
            },
            None => None,
        }
    }

    /// The position at which an identifier belongs: every entry before it is
    /// below the identifier, and every entry from it on is the identifier or above it.
    fn position_of(&self, id: &FullMidiIdentifier) -> (p: usize)
        ensures
            p <= self.entries@.len(),
            forall|a: int| 0 <= a < p ==> id_lt((#[trigger] self.entries@[a]).0@, id@),
            forall|b: int| p <= b < self.entries@.len() ==> (#[trigger] self.entries@[b]).0@ == id@
                || id_lt(id@, self.entries@[b].0@),
    {
        proof {
            use_type_invariant(self);
        }
        let mut p: usize = 0;
        while p < self.entries.len()
            invariant
                p <= self.entries@.len(),
                ids_sorted(self.entries@),
                forall|a: int| 0 <= a < p ==> id_lt((#[trigger] self.entries@[a]).0@, id@),
            decreases self.entries@.len() - p,
        {
            match compare_ids(&self.entries[p].0, id) {
                Precedence::Before => {
                    p = p + 1;
                },
                _ => {
                    proof {
                        let e = self.entries@;
                        assert forall|b: int| p <= b < e.len() implies (#[trigger] e[b]).0@ == id@
                            || id_lt(id@, e[b].0@) by {
                            if b > p {
                                assert(id_lt(e[p as int].0@, e[b].0@));
                                lemma_id_lt_strict(id@, e[p as int].0@, e[b].0@);
                            }
                        }
                    }
                    return p;
                },
            }
        }
        p
    }

    /// Maps the identifier to the value, replacing any value it had.
    pub fn insert(&mut self, id: FullMidiIdentifier, value: V)
        ensures
            final(self)@ == old(self)@.insert(id@, value),
    {
        proof {
            use_type_invariant(&*self);
        }
        let ghost k = id@;
        let ghost old_entries = self.entries@;
        match self.find(&id) {
            Some(i) => {
                let mut entries: Vec<(FullMidiIdentifier, V)> = Vec::new();
                std::mem::swap(&mut entries, &mut self.entries);
                entries[i] = (id, value);
                let ghost s = entries@;
                assert(s == old_entries.update(i as int, s[i as int]));
                assert(keys_unique(s)) by {
                    assert forall|a: int, b: int| 0 <= a < b < s.len() implies (#[trigger] s[a]).0@ != (#[trigger] s[b]).0@ by {
                        assert(old_entries[a].0@ != old_entries[b].0@);
                    }
                }
                assert(entries_map(s) =~= entries_map(old_entries).insert(k, value)) by {
                    assert forall|q: MidiIdView| #![auto] entries_map(s).contains_key(q)
                        == entries_map(old_entries).insert(k, value).contains_key(q) by {
                        if has_key(old_entries, q) {
                            let j = choose|j: int| 0 <= j < old_entries.len() && (#[trigger] old_entries[j]).0@ == q;
                            if j != i {
                                assert(s[j].0@ == q);
                            } else {
                                assert(s[i as int].0@ == k);
                            }
                        }
                        if has_key(s, q) {
                            let j = choose|j: int| 0 <= j < s.len() && (#[trigger] s[j]).0@ == q;
                            if j != i {
                                assert(old_entries[j].0@ == q);
                            }
                        }
                    }
                    assert forall|q: MidiIdView| #![auto] entries_map(s).contains_key(q) implies entries_map(s)[q]
                        == entries_map(old_entries).insert(k, value)[q] by {
                        let j = choose|j: int| 0 <= j < s.len() && (#[trigger] s[j]).0@ == q;
                        lemma_entry_is_value(s, j);
                        if j != i {
                            assert(old_entries[j] == s[j]);
                            lemma_entry_is_value(old_entries, j);
                            assert(q != k) by {
                                if q == k {
                                    assert(s[i as int].0@ == k);
                                    if j < i {
                                        assert(s[j].0@ != s[i as int].0@);
                                    } else {
                                        assert(s[i as int].0@ != s[j].0@);
                                    }
                                }
                            }
                        }
                    }
                }
                self.entries = entries;
            },
            None => {
                let p = self.position_of(&id);
                let mut entries: Vec<(FullMidiIdentifier, V)> = Vec::new();
                std::mem::swap(&mut entries, &mut self.entries);
                entries.insert(p, (id, value));
                proof {
                    assert forall|b: int| p <= b < old_entries.len() implies id_lt(k, #[trigger] old_entries[b].0@) by {
                        if old_entries[b].0@ == k {
                            assert(has_key(old_entries, k));
                        }
                    }
                    lemma_insert_at(old_entries, p as int, entries@[p as int]);
                    assert(entries@ == old_entries.insert(p as int, entries@[p as int]));
                }
                self.entries = entries;
            },
        }
    }

    /// Removes the identifier from the map; returns its value, if it had one.
    pub fn remove(&mut self, id: &FullMidiIdentifier) -> (r: Option<V>)
        ensures
            final(self)@ == old(self)@.remove(id@),
            r == (if old(self)@.contains_key(id@) { Some(old(self)@[id@]) } else { None::<V> }),
    {
        proof {
            use_type_invariant(&*self);
        }
        let ghost old_entries = self.entries@;
        match self.find(id) {
            Some(i) => {
                proof {
                    lemma_entry_is_value(old_entries, i as int);
                }
                let mut entries: Vec<(FullMidiIdentifier, V)> = Vec::new();
                std::mem::swap(&mut entries, &mut self.entries);
                let removed = entries.remove(i);
                let ghost s = entries@;
                assert(s =~= old_entries.remove(i as int));
                assert(keys_unique(s)) by {
                    assert forall|a: int, b: int| 0 <= a < b < s.len() implies (#[trigger] s[a]).0@ != (#[trigger] s[b]).0@ by {
                        let oa = if a < i { a } else { a + 1 };
                        let ob = if b < i { b } else { b + 1 };
                        assert(s[a] == old_entries[oa]);
                        assert(s[b] == old_entries[ob]);
                        assert(old_entries[oa].0@ != old_entries[ob].0@);
                    }
                }
                assert(entries_map(s) =~= entries_map(old_entries).remove(id@)) by {
                    assert forall|q: MidiIdView| #![auto] entries_map(s).contains_key(q)
                        == entries_map(old_entries).remove(id@).contains_key(q) by {
                        if has_key(old_entries, q) && q != id@ {
                            let j = choose|j: int| 0 <= j < old_entries.len() && (#[trigger] old_entries[j]).0@ == q;
                            assert(j != i);
                            let a = if j < i { j } else { j - 1 };
                            assert(s[a].0@ == q);
                        }
                        if has_key(s, q) {
                            let a = choose|a: int| 0 <= a < s.len() && (#[trigger] s[a]).0@ == q;
                            let oa = if a < i { a } else { a + 1 };
                            assert(old_entries[oa].0@ == q);
                            assert(q != id@) by {
                                if q == id@ {
                                    if oa < i {
                                        assert(old_entries[oa].0@ != old_entries[i as int].0@);
                                    } else {
                                        assert(old_entries[i as int].0@ != old_entries[oa].0@);
                                    }
                                }
                            }
                        }
                    }
                    assert forall|q: MidiIdView| #![auto] entries_map(s).contains_key(q) implies entries_map(s)[q]
                        == entries_map(old_entries).remove(id@)[q] by {
                        let a = choose|a: int| 0 <= a < s.len() && (#[trigger] s[a]).0@ == q;
                        lemma_entry_is_value(s, a);
                        let oa = if a < i { a } else { a + 1 };
                        assert(old_entries[oa] == s[a]);
                        lemma_entry_is_value(old_entries, oa);
                    }
                }
                self.entries = entries;
                Some(removed.1)
            },
            None => {
                assert(entries_map(old_entries) =~= entries_map(old_entries).remove(id@));
                None
            },
        }
    }

    /// All entries, in increasing order of their identifiers.
    pub fn to_vec(&self) -> (r: Vec<(FullMidiIdentifier, V)>)
        ensures
            ids_sorted(r@),
            keys_unique(r@),
            entries_map(r@) == self@,
    {
        proof {
            use_type_invariant(self);
        }
        let mut r: Vec<(FullMidiIdentifier, V)> = Vec::new();
        let mut i: usize = 0;
        while i < self.entries.len()
            invariant
                i <= self.entries@.len(),
                r@.len() == i,
                keys_unique(self.entries@),
                ids_sorted(self.entries@),
                forall|a: int| 0 <= a < i ==> (#[trigger] r@[a]).0@ == self.entries@[a].0@ && r@[a].1 == self.entries@[a].1,
            decreases self.entries@.len() - i,
        {
            r.push((self.entries[i].0.duplicate(), self.entries[i].1));
            i = i + 1;
        }
        let ghost s = self.entries@;
        assert(ids_sorted(r@)) by {
            assert forall|a: int, b: int| 0 <= a < b < r@.len() implies id_lt((#[trigger] r@[a]).0@, (#[trigger] r@[b]).0@) by {
                assert(id_lt(s[a].0@, s[b].0@));
            }
        }
        assert(keys_unique(r@)) by {
            assert forall|a: int, b: int| 0 <= a < b < r@.len() implies (#[trigger] r@[a]).0@ != (#[trigger] r@[b]).0@ by {
                assert(s[a].0@ != s[b].0@);
            }
        }
        assert(entries_map(r@) =~= entries_map(s)) by {
            assert forall|q: MidiIdView| #![auto] entries_map(r@).contains_key(q) == entries_map(s).contains_key(q) by {
                if has_key(s, q) {
                    let j = choose|j: int| 0 <= j < s.len() && (#[trigger] s[j]).0@ == q;
                    assert(r@[j].0@ == q);
                }
                if has_key(r@, q) {
                    let j = choose|j: int| 0 <= j < r@.len() && (#[trigger] r@[j]).0@ == q;
                    assert(s[j].0@ == q);
                }
            }
            assert forall|q: MidiIdView| #![auto] entries_map(r@).contains_key(q) implies entries_map(r@)[q] == entries_map(s)[q] by {
                let j = choose|j: int| 0 <= j < r@.len() && (#[trigger] r@[j]).0@ == q;
                lemma_entry_is_value(r@, j);
                lemma_entry_is_value(s, j);
            }
        }
        r
    }
}


/// The mappings after a learn: the parameter is unmapped from every other
/// control and mapped from the learned one.
pub open spec fn learned_map(m: Map<MidiIdView, ControllableParameter>, k: MidiIdView, param: ControllableParameter) -> Map<MidiIdView, ControllableParameter> {
    Map::new(|q: MidiIdView| m.contains_key(q) && m[q] != param, |q: MidiIdView| m[q]).insert(k, param)
}

impl MidiMap<ControllableParameter> {
    /// MIDI learn: maps the control to the parameter and removes every other
    /// control's mapping to that parameter.
    pub fn learn(&mut self, id: FullMidiIdentifier, param: ControllableParameter)
        ensures
            final(self)@ == learned_map(old(self)@, id@, param),
    {
        proof {
            use_type_invariant(&*self);
        }
        let ghost old_entries = self.entries@;
        let mut kept: Vec<(FullMidiIdentifier, ControllableParameter)> = Vec::new();
        let mut i: usize = 0;
        while i < self.entries.len()
            invariant
                i <= self.entries@.len(),
                self.entries@ == old_entries,
                keys_unique(old_entries),
                ids_sorted(old_entries),
                keys_unique(kept@),
                ids_sorted(kept@),
                forall|a: int| 0 <= a < kept@.len() ==> exists|j: int| 0 <= j < i
                    && (#[trigger] kept@[a]).0@ == (#[trigger] old_entries[j]).0@ && kept@[a].1 == old_entries[j].1,
                forall|a: int| 0 <= a < kept@.len() ==> (#[trigger] kept@[a]).1 != param,
                forall|j: int| 0 <= j < i && (#[trigger] old_entries[j]).1 != param ==> exists|a: int| 0 <= a < kept@.len()
                    && (#[trigger] kept@[a]).0@ == old_entries[j].0@ && kept@[a].1 == old_entries[j].1,
            decreases self.entries@.len() - i,
        {
            if self.entries[i].1 != param {
                let ghost before = kept@;
                kept.push((self.entries[i].0.duplicate(), self.entries[i].1));
                assert(ids_sorted(kept@)) by {
                    assert forall|a: int, b: int| 0 <= a < b < kept@.len() implies id_lt((#[trigger] kept@[a]).0@, (#[trigger] kept@[b]).0@) by {
                        if b < before.len() {
                            assert(kept@[a] == before[a] && kept@[b] == before[b]);
                        } else {
                            let j = choose|j: int| 0 <= j < i && (#[trigger] before[a]).0@ == (#[trigger] old_entries[j]).0@ && before[a].1 == old_entries[j].1;
                            assert(kept@[a] == before[a]);
                            assert(id_lt(old_entries[j].0@, old_entries[i as int].0@));
                        }
                    }
                }
                assert(keys_unique(kept@)) by {
                    assert forall|a: int, b: int| 0 <= a < b < kept@.len() implies (#[trigger] kept@[a]).0@ != (#[trigger] kept@[b]).0@ by {
                        if b < before.len() {
                            assert(before[a].0@ != before[b].0@);
                        } else {
                            let j = choose|j: int| 0 <= j < i && (#[trigger] before[a]).0@ == (#[trigger] old_entries[j]).0@ && before[a].1 == old_entries[j].1;
                            assert(old_entries[j].0@ != old_entries[i as int].0@);
                        }
                    }
                }
                assert forall|a: int| 0 <= a < kept@.len() implies exists|j: int| 0 <= j < i + 1
                    && (#[trigger] kept@[a]).0@ == (#[trigger] old_entries[j]).0@ && kept@[a].1 == old_entries[j].1 by {
                    if a < before.len() {
                        assert(kept@[a] == before[a]);
                    } else {
                        assert(kept@[a].0@ == old_entries[i as int].0@);
                    }
                }
                assert forall|j: int| 0 <= j < i + 1 && (#[trigger] old_entries[j]).1 != param implies exists|a: int| 0 <= a < kept@.len()
                    && (#[trigger] kept@[a]).0@ == old_entries[j].0@ && kept@[a].1 == old_entries[j].1 by {
                    if j < i {
                        let a = choose|a: int| 0 <= a < before.len() && (#[trigger] before[a]).0@ == old_entries[j].0@ && before[a].1 == old_entries[j].1;
                        assert(kept@[a] == before[a]);
                    } else {
                        assert(kept@[before.len() as int].0@ == old_entries[j].0@);
                    }
                }
            }
            i = i + 1;
        }
        let ghost k = kept@;
        let ghost m = entries_map(old_entries);
        let ghost filtered = Map::new(|q: MidiIdView| m.contains_key(q) && m[q] != param, |q: MidiIdView| m[q]);
        assert(entries_map(k) =~= filtered) by {
            assert forall|q: MidiIdView| #![auto] entries_map(k).contains_key(q) == filtered.contains_key(q) by {
                if has_key(k, q) {
                    let a = choose|a: int| 0 <= a < k.len() && (#[trigger] k[a]).0@ == q;
                    let j = choose|j: int| 0 <= j < old_entries.len() && (#[trigger] k[a]).0@ == (#[trigger] old_entries[j]).0@ && k[a].1 == old_entries[j].1;
                    lemma_entry_is_value(old_entries, j);
                }
                if filtered.contains_key(q) {
                    let j = choose|j: int| 0 <= j < old_entries.len() && (#[trigger] old_entries[j]).0@ == q;
                    lemma_entry_is_value(old_entries, j);
                    let a = choose|a: int| 0 <= a < k.len() && (#[trigger] k[a]).0@ == old_entries[j].0@ && k[a].1 == old_entries[j].1;
                }
            }
            assert forall|q: MidiIdView| #![auto] entries_map(k).contains_key(q) implies entries_map(k)[q] == filtered[q] by {
                let a = choose|a: int| 0 <= a < k.len() && (#[trigger] k[a]).0@ == q;
                let j = choose|j: int| 0 <= j < old_entries.len() && (#[trigger] k[a]).0@ == (#[trigger] old_entries[j]).0@ && k[a].1 == old_entries[j].1;
                lemma_entry_is_value(old_entries, j);
                lemma_entry_is_value(k, a);
            }
        }
        self.entries = kept;
        self.insert(id, param);
    }
}


/// After MIDI learn the learned control maps to the parameter and no other control does;
/// mappings to other parameters are kept.
pub proof fn lemma_learn_maps_uniquely(m: Map<MidiIdView, ControllableParameter>, k: MidiIdView, param: ControllableParameter)
    ensures
        learned_map(m, k, param).contains_key(k),
        learned_map(m, k, param)[k] == param,
        forall|q: MidiIdView| q != k && #[trigger] learned_map(m, k, param).contains_key(q) ==> learned_map(m, k, param)[q] != param,
        forall|q: MidiIdView| q != k && m.contains_key(q) && m[q] != param ==> #[trigger] learned_map(m, k, param).contains_key(q)
            && learned_map(m, k, param)[q] == m[q],
{
}

} // verus!
