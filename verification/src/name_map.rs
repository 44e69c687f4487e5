//! A map from names to values, kept as a list of entries with distinct names.
use vstd::prelude::*;

verus! {

/// Whether two strings hold the same characters, compared one character at a time.
pub(crate) fn str_eq(a: &str, b: &str) -> (r: bool)
    ensures
        r == (a@ == b@),
{
    let n = a.unicode_len();
    if n != b.unicode_len() {
        return false;
    }
    let mut i: usize = 0;
    while i < n
        invariant
            n == a@.len(),
            n == b@.len(),
            i <= n,
            forall|j: int| 0 <= j < i ==> a@[j] == b@[j],
        decreases n - i,
    {
        if a.get_char(i) != b.get_char(i) {
            return false;
        }
        i += 1;
    }
    proof {
        assert(a@ =~= b@);
    }
    true
}

/// The map that a list of named entries spells; a later entry wins over an earlier one.
pub open spec fn named_entries_map<V>(entries: Seq<(String, V)>) -> Map<Seq<char>, V>
    decreases entries.len(),
{
    if entries.len() == 0 {
        Map::empty()
    } else {
        named_entries_map(entries.drop_last()).insert(
            entries[entries.len() - 1].0@,
            entries[entries.len() - 1].1,
        )
    }
}

/// No two entries share a name.
pub open spec fn names_unique<V>(entries: Seq<(String, V)>) -> bool {
    forall|i: int, j: int|
        0 <= i < entries.len() && 0 <= j < entries.len() && i != j ==> #[trigger] entries[i].0@
            != #[trigger] entries[j].0@
}

/// With distinct names, the map holds exactly the entries, each under its name.
pub proof fn lemma_named_entries_map<V>(entries: Seq<(String, V)>)
    requires
        names_unique(entries),
    ensures
        named_entries_map(entries).dom().finite(),
        named_entries_map(entries).dom().len() == entries.len(),
        forall|i: int|
            0 <= i < entries.len() ==> #[trigger] named_entries_map(entries).dom().contains(
                entries[i].0@,
            ) && named_entries_map(entries)[entries[i].0@] == entries[i].1,
        forall|k: Seq<char>|
            #[trigger] named_entries_map(entries).dom().contains(k) ==> exists|i: int|
                0 <= i < entries.len() && (#[trigger] entries[i]).0@ == k,
    decreases entries.len(),
{
    if entries.len() > 0 {
        let prefix = entries.drop_last();
        let last = entries[entries.len() - 1];
        assert(names_unique(prefix)) by {
            assert forall|i: int, j: int|
                0 <= i < prefix.len() && 0 <= j < prefix.len() && i != j implies #[trigger] prefix[i].0@
                    != #[trigger] prefix[j].0@ by {
                assert(prefix[i] == entries[i] && prefix[j] == entries[j]);
            }
        }
        lemma_named_entries_map(prefix);
        let m = named_entries_map(prefix);
        assert(!m.dom().contains(last.0@)) by {
            if m.dom().contains(last.0@) {
                let i = choose|i: int| 0 <= i < prefix.len() && (#[trigger] prefix[i]).0@ == last.0@;
                assert(entries[i].0@ == entries[entries.len() - 1].0@);
            }
        }
        assert forall|i: int| 0 <= i < entries.len() implies #[trigger] named_entries_map(
            entries,
        ).dom().contains(entries[i].0@) && named_entries_map(entries)[entries[i].0@]
            == entries[i].1 by {
            if i < entries.len() - 1 {
                assert(entries[i] == prefix[i]);
                assert(entries[i].0@ != last.0@);
            }
        }
        assert forall|k: Seq<char>| #[trigger] named_entries_map(entries).dom().contains(
            k,
        ) implies exists|i: int| 0 <= i < entries.len() && (#[trigger] entries[i]).0@ == k by {
            if k != last.0@ {
                let i = choose|i: int| 0 <= i < prefix.len() && (#[trigger] prefix[i]).0@ == k;
                assert(entries[i] == prefix[i]);
            } else {
                assert(entries[entries.len() - 1].0@ == k);
            }
        }
    }
}

/// The position of the entry named `name`, if any.
fn find_name<V>(entries: &Vec<(String, V)>, name: &str) -> (r: Option<usize>)
    ensures
        r matches Some(i) ==> i < entries@.len() && entries@[i as int].0@ == name@,
        r is None ==> forall|i: int| 0 <= i < entries@.len() ==> #[trigger] entries@[i].0@ != name@,
{
    let mut i: usize = 0;
    while i < entries.len()
        invariant
            i <= entries@.len(),
            forall|j: int| 0 <= j < i ==> #[trigger] entries@[j].0@ != name@,
        decreases entries@.len() - i,
    {
        if str_eq(entries[i].0.as_str(), name) {
            return Some(i);
        }
        i += 1;
    }
    None
}

/// Values under distinct names.
pub struct NameMap<V> {
    entries: Vec<(String, V)>,
}

impl<V> View for NameMap<V> {
    type V = Map<Seq<char>, V>;

    closed spec fn view(&self) -> Map<Seq<char>, V> {
        named_entries_map(self.entries@)
    }
}

impl<V> NameMap<V> {
    #[verifier::type_invariant]
    closed spec fn inv(self) -> bool {
        names_unique(self.entries@)
    }

    /// The number of entries.
    pub closed spec fn size(self) -> nat {
        self.entries@.len()
    }

    /// An empty map.
    pub fn new() -> (r: Self)
        ensures
            r@ == Map::<Seq<char>, V>::empty(),
    {
        let r = NameMap { entries: Vec::new() };
        proof {
            assert(r@ =~= Map::<Seq<char>, V>::empty());
        }
        r
    }

    fn position(&self, name: &str) -> (r: Option<usize>)
        ensures
            r matches Some(i) ==> i < self.entries@.len() && self.entries@[i as int].0@ == name@,
            r is None ==> forall|i: int|
                0 <= i < self.entries@.len() ==> #[trigger] self.entries@[i].0@ != name@,
    {
        find_name(&self.entries, name)
    }

    /// The value under `name`, if any.
    pub fn get(&self, name: &str) -> (r: Option<&V>)
        ensures
            r is Some <==> self@.dom().contains(name@),
            r matches Some(v) ==> *v == self@[name@],
    {
        proof {
            use_type_invariant(self);
            lemma_named_entries_map(self.entries@);
        }
        match self.position(name) {
            Some(i) => {
                proof {
                    assert(named_entries_map(self.entries@).dom().contains(
                        self.entries@[i as int].0@,
                    ));
                }
                Some(&self.entries[i].1)
            },
            None => {
                proof {
                    if self@.dom().contains(name@) {
                        let i = choose|i: int|
                            0 <= i < self.entries@.len() && (#[trigger] self.entries@[i]).0@
                                == name@;
                        assert(self.entries@[i].0@ != name@);
                    }
                }
                None
            },
        }
    }

    /// Whether some value has the name `name`.
    pub fn contains_key(&self, name: &str) -> (r: bool)
        ensures
            r == self@.dom().contains(name@),
    {
        self.get(name).is_some()
    }

    /// The number of names.
    pub fn len(&self) -> (r: usize)
        ensures
            r == self@.dom().len(),
    {
        proof {
            use_type_invariant(self);
            lemma_named_entries_map(self.entries@);
        }
        self.entries.len()
    }

    /// Puts `value` under `name`, replacing any earlier value of that name.
    pub fn insert(&mut self, name: String, value: V)
        ensures
            final(self)@ == old(self)@.insert(name@, value),
    {
        proof {
            use_type_invariant(&*self);
            lemma_named_entries_map(self.entries@);
        }
        let ghost old_entries = self.entries@;
        let ghost name_view = name@;
        let mut entries: Vec<(String, V)> = Vec::new();
        std::mem::swap(&mut entries, &mut self.entries);
        match find_name(&entries, name.as_str()) {
            Some(i) => {
                entries.set(i, (name, value));
                proof {
                    assert forall|a: int, b: int|
                        0 <= a < entries@.len() && 0 <= b < entries@.len() && a != b implies #[trigger] entries@[a].0@
                            != #[trigger] entries@[b].0@ by {
                        if a != i {
                            assert(entries@[a] == old_entries[a]);
                        }
                        if b != i {
                            assert(entries@[b] == old_entries[b]);
                        }
                    }
                    lemma_named_entries_map(entries@);
                    let target = named_entries_map(old_entries).insert(name_view, value);
                    assert forall|k: Seq<char>| #[trigger]
                        named_entries_map(entries@).dom().contains(k) <==> target.dom().contains(
                            k,
                        ) by {
                        if named_entries_map(entries@).dom().contains(k) {
                            let j = choose|j: int|
                                0 <= j < entries@.len() && (#[trigger] entries@[j]).0@ == k;
                            if j != i {
                                assert(entries@[j] == old_entries[j]);
                            }
                        }
                        if named_entries_map(old_entries).dom().contains(k) {
                            let j = choose|j: int|
                                0 <= j < old_entries.len() && (#[trigger] old_entries[j]).0@ == k;
                            if j != i {
                                assert(entries@[j] == old_entries[j]);
                            } else {
                                assert(entries@[i as int].0@ == k);
                            }
                        }
                    }
                    assert forall|k: Seq<char>| #[trigger]
                        named_entries_map(entries@).dom().contains(k) implies named_entries_map(
                        entries@,
                    )[k] == target[k] by {
                        let j = choose|j: int|
                            0 <= j < entries@.len() && (#[trigger] entries@[j]).0@ == k;
                        if j != i {
                            assert(entries@[j] == old_entries[j]);
                        }
                    }
                    assert(named_entries_map(entries@) =~= target);
                }
            },
            None => {
                entries.push((name, value));
                proof {
                    assert(entries@.drop_last() =~= old_entries);
                    assert forall|a: int, b: int|
                        0 <= a < entries@.len() && 0 <= b < entries@.len() && a != b implies #[trigger] entries@[a].0@
                            != #[trigger] entries@[b].0@ by {
                        if a < old_entries.len() {
                            assert(entries@[a] == old_entries[a]);
                        }
                        if b < old_entries.len() {
                            assert(entries@[b] == old_entries[b]);
                        }
                    }
                }
            },
        }
        self.entries = entries;
    }
}

impl<V> NameMap<V> {
    /// Takes the value under `name` out, if any.
    pub fn remove(&mut self, name: &str) -> (r: Option<V>)
        ensures
            r is Some <==> old(self)@.dom().contains(name@),
            r matches Some(v) ==> v == old(self)@[name@],
            final(self)@ == old(self)@.remove(name@),
            r is Some ==> final(self).size() + 1 == old(self).size(),
            r is None ==> final(self).size() == old(self).size(),
    {
        proof {
            use_type_invariant(&*self);
            lemma_named_entries_map(self.entries@);
        }
        let ghost old_entries = self.entries@;
        let mut entries: Vec<(String, V)> = Vec::new();
        std::mem::swap(&mut entries, &mut self.entries);
        match find_name(&entries, name) {
            Some(i) => {
                let (_, value) = entries.remove(i);
                proof {
                    assert forall|a: int, b: int|
                        0 <= a < entries@.len() && 0 <= b < entries@.len() && a != b implies #[trigger] entries@[a].0@
                            != #[trigger] entries@[b].0@ by {
                        let oa = if a < i { a } else { a + 1 };
                        let ob = if b < i { b } else { b + 1 };
                        assert(entries@[a] == old_entries[oa]);
                        assert(entries@[b] == old_entries[ob]);
                    }
                    lemma_named_entries_map(entries@);
                    let target = named_entries_map(old_entries).remove(name@);
                    assert forall|k: Seq<char>| #[trigger]
                        named_entries_map(entries@).dom().contains(k) <==> target.dom().contains(k) by {
                        if named_entries_map(entries@).dom().contains(k) {
                            let j = choose|j: int| 0 <= j < entries@.len() && (#[trigger] entries@[j]).0@ == k;
                            let oj = if j < i { j } else { j + 1 };
                            assert(entries@[j] == old_entries[oj]);
                            assert(old_entries[oj].0@ != old_entries[i as int].0@);
                        }
                        if target.dom().contains(k) {
                            let j = choose|j: int| 0 <= j < old_entries.len() && (#[trigger] old_entries[j]).0@ == k;
                            assert(j != i);
                            let nj = if j < i { j } else { j - 1 };
                            assert(entries@[nj] == old_entries[j]);
                        }
                    }
                    assert forall|k: Seq<char>| #[trigger]
                        named_entries_map(entries@).dom().contains(k) implies named_entries_map(entries@)[k] == target[k] by {
                        let j = choose|j: int| 0 <= j < entries@.len() && (#[trigger] entries@[j]).0@ == k;
                        let oj = if j < i { j } else { j + 1 };
                        assert(entries@[j] == old_entries[oj]);
                    }
                    assert(named_entries_map(entries@) =~= target);
                }
                self.entries = entries;
                Some(value)
            },
            None => {
                proof {
                    if named_entries_map(old_entries).dom().contains(name@) {
                        let j = choose|j: int| 0 <= j < old_entries.len() && (#[trigger] old_entries[j]).0@ == name@;
                    }
                    assert(named_entries_map(old_entries).remove(name@) =~= named_entries_map(old_entries));
                }
                self.entries = entries;
                None
            },
        }
    }

    /// The names, each once.
    pub fn keys(&self) -> (r: Vec<String>)
        ensures
            r@.len() == self@.dom().len(),
            forall|i: int| 0 <= i < r@.len() ==> self@.dom().contains(#[trigger] r@[i]@),
            forall|k: Seq<char>| #[trigger] self@.dom().contains(k) ==> exists|i: int| 0 <= i < r@.len() && (#[trigger] r@[i])@ == k,
            forall|i: int, j: int| 0 <= i < r@.len() && 0 <= j < r@.len() && i != j ==> (#[trigger] r@[i])@ != (#[trigger] r@[j])@,
    {
        proof {
            use_type_invariant(self);
            lemma_named_entries_map(self.entries@);
        }
        let mut out: Vec<String> = Vec::new();
        let mut i: usize = 0;
        while i < self.entries.len()
            invariant
                i <= self.entries@.len(),
                out@.len() == i,
                forall|j: int| 0 <= j < i ==> (#[trigger] out@[j])@ == self.entries@[j].0@,
            decreases self.entries@.len() - i,
        {
            out.push(self.entries[i].0.clone());
            i += 1;
        }
        proof {
            assert forall|k: Seq<char>| #[trigger] self@.dom().contains(k) implies exists|i: int| 0 <= i < out@.len() && (#[trigger] out@[i])@ == k by {
                let j = choose|j: int| 0 <= j < self.entries@.len() && (#[trigger] self.entries@[j]).0@ == k;
                assert(out@[j]@ == k);
            }
            assert forall|i: int| 0 <= i < out@.len() implies self@.dom().contains(#[trigger] out@[i]@) by {
                assert(self.entries@[i].0@ == out@[i]@);
            }
        }
        out
    }
}

} // verus!
