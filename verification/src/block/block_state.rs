//! Named state values of a block, such as `"facing" => "north"`.
use vstd::prelude::*;

use crate::name_map::str_eq;

verus! {

/// A JSON number as its kind and bits: a non-negative integer, a negative integer, or the
/// IEEE-754 bit pattern of a finite double with negative zero written as positive zero. Two
/// numbers are equal exactly when JSON numbers compare equal.
#[derive(Clone, Copy, PartialEq, Eq, Structural, Debug)]
pub enum JsonNumber {
    PosInt(u64),
    NegInt(i64),
    Decimal(u64),
}

/// The value of a block state entry.
#[derive(Debug)]
pub enum Value {
    Number(JsonNumber),
    String(String),
    Struct(BlockState),
    Bool(bool),
}

/// What a value means: strings by their characters and nested states as maps.
pub enum ValueView {
    Number(JsonNumber),
    Text(Seq<char>),
    Struct(Map<Seq<char>, ValueView>),
    Bool(bool),
}

/// A map from state names to values, kept as a list of entries with distinct names.
#[derive(Debug)]
pub struct BlockState(Vec<(String, Value)>);

/// The meaning of a value.
pub closed spec fn value_view(v: Value) -> ValueView
    decreases v,
{
    match v {
        Value::Number(n) => ValueView::Number(n),
        Value::String(s) => ValueView::Text(s@),
        Value::Struct(s) => ValueView::Struct(entries_view(s.0@)),
        Value::Bool(b) => ValueView::Bool(b),
    }
}

/// The map that a list of entries spells; a later entry wins over an earlier one.
pub closed spec fn entries_view(entries: Seq<(String, Value)>) -> Map<Seq<char>, ValueView>
    decreases entries,
{
    if entries.len() == 0 {
        Map::empty()
    } else {
        let last = entries[entries.len() - 1];
        entries_view(entries.drop_last()).insert(last.0@, value_view(last.1))
    }
}

/// No two entries share a name.
pub open spec fn keys_unique(entries: Seq<(String, Value)>) -> bool {
    forall|i: int, j: int|
        0 <= i < entries.len() && 0 <= j < entries.len() && i != j ==> #[trigger] entries[i].0@
            != #[trigger] entries[j].0@
}

impl View for Value {
    type V = ValueView;

    open spec fn view(&self) -> ValueView {
        value_view(*self)
    }
}

impl View for BlockState {
    type V = Map<Seq<char>, ValueView>;

    closed spec fn view(&self) -> Map<Seq<char>, ValueView> {
        entries_view(self.0@)
    }
}

proof fn lemma_entries_view(entries: Seq<(String, Value)>)
    requires
        keys_unique(entries),
    ensures
        entries_view(entries).dom().finite(),
        entries_view(entries).dom().len() == entries.len(),
        forall|i: int|
            0 <= i < entries.len() ==> #[trigger] entries_view(entries).dom().contains(entries[i].0@)
                && entries_view(entries)[entries[i].0@] == value_view(entries[i].1),
        forall|k: Seq<char>|
            #[trigger] entries_view(entries).dom().contains(k) ==> exists|i: int|
                0 <= i < entries.len() && (#[trigger] entries[i]).0@ == k,
    decreases entries.len(),
{
    if entries.len() > 0 {
        let prefix = entries.drop_last();
        let last = entries[entries.len() - 1];
        assert(keys_unique(prefix)) by {
            assert forall|i: int, j: int|
                0 <= i < prefix.len() && 0 <= j < prefix.len() && i != j implies #[trigger] prefix[i].0@
                    != #[trigger] prefix[j].0@ by {
                assert(prefix[i] == entries[i] && prefix[j] == entries[j]);
            }
        }
        lemma_entries_view(prefix);
        let m = entries_view(prefix);
        assert(!m.dom().contains(last.0@)) by {
            if m.dom().contains(last.0@) {
                let i = choose|i: int| 0 <= i < prefix.len() && (#[trigger] prefix[i]).0@ == last.0@;
                assert(entries[i].0@ == entries[entries.len() - 1].0@);
            }
        }
        assert forall|i: int| 0 <= i < entries.len() implies #[trigger] entries_view(
            entries,
        ).dom().contains(entries[i].0@) && entries_view(entries)[entries[i].0@] == value_view(
            entries[i].1,
        ) by {
            if i < entries.len() - 1 {
                assert(entries[i] == prefix[i]);
                assert(entries[i].0@ != last.0@);
            }
        }
        assert forall|k: Seq<char>| #[trigger] entries_view(entries).dom().contains(k) implies exists|
            i: int,
        | 0 <= i < entries.len() && (#[trigger] entries[i]).0@ == k by {
            if k != last.0@ {
                let i = choose|i: int| 0 <= i < prefix.len() && (#[trigger] prefix[i]).0@ == k;
                assert(entries[i] == prefix[i]);
            } else {
                assert(entries[entries.len() - 1].0@ == k);
            }
        }
    }
}

/// Compares two strings by their characters.
fn string_eq(a: &String, b: &String) -> (r: bool)
    ensures
        r == (a@ == b@),
{
    a.eq(b)
}

impl BlockState {
    #[verifier::type_invariant]
    closed spec fn inv(self) -> bool {
        keys_unique(self.0@)
    }

    /// The entries of the state, each name once.
    pub fn entries(&self) -> (r: &[(String, Value)])
        ensures
            forall|i: int|
                0 <= i < r@.len() ==> #[trigger] self@.dom().contains(r@[i].0@) && self@[r@[i].0@] == r@[i].1@,
            forall|k: Seq<char>| #[trigger] self@.dom().contains(k) ==> exists|i: int| 0 <= i < r@.len() && (#[trigger] r@[i]).0@ == k,
            keys_unique(r@),
    {
        proof {
            use_type_invariant(self);
            lemma_entries_view(self.0@);
        }
        self.0.as_slice()
    }

    /// An empty state.
    pub fn new() -> (r: Self)
        ensures
            r@ == Map::<Seq<char>, ValueView>::empty(),
    {
        let r = BlockState(Vec::new());
        proof {
            assert(r@ =~= Map::<Seq<char>, ValueView>::empty());
        }
        r
    }

    /// The position of the entry named `state_name`, if any.
    fn position(&self, state_name: &str) -> (r: Option<usize>)
        ensures
            r matches Some(i) ==> i < self.0@.len() && self.0@[i as int].0@ == state_name@,
            r is None ==> forall|i: int| 0 <= i < self.0@.len() ==> #[trigger] self.0@[i].0@ != state_name@,
    {
        let mut i: usize = 0;
        while i < self.0.len()
            invariant
                i <= self.0@.len(),
                forall|j: int| 0 <= j < i ==> #[trigger] self.0@[j].0@ != state_name@,
            decreases self.0@.len() - i,
        {
            if str_eq(self.0[i].0.as_str(), state_name) {
                return Some(i);
            }
            i += 1;
        }
        None
    }

    /// The value named `state_name`, if the state has one.
    pub fn get(&self, state_name: &str) -> (r: Option<&Value>)
        ensures
            r is Some <==> self@.dom().contains(state_name@),
            r matches Some(v) ==> self@[state_name@] == v@,
    {
        proof {
            use_type_invariant(self);
            lemma_entries_view(self.0@);
        }
        match self.position(state_name) {
            Some(i) => {
                proof {
                    assert(entries_view(self.0@).dom().contains(self.0@[i as int].0@));
                }
                Some(&self.0[i].1)
            },
            None => {
                proof {
                    if self@.dom().contains(state_name@) {
                        let i = choose|i: int|
                            0 <= i < self.0@.len() && (#[trigger] self.0@[i]).0@ == state_name@;
                        assert(self.0@[i].0@ != state_name@);
                    }
                }
                None
            },
        }
    }

    /// Sets the value named `state_name`, replacing any earlier one.
    pub fn insert(&mut self, state_name: String, value: Value)
        ensures
            final(self)@ == old(self)@.insert(state_name@, value@),
    {
        proof {
            use_type_invariant(&*self);
            lemma_entries_view(self.0@);
        }
        let ghost old_entries = self.0@;
        match self.position(state_name.as_str()) {
            Some(i) => {
                let mut entries: Vec<(String, Value)> = Vec::new();
                std::mem::swap(&mut entries, &mut self.0);
                entries.set(i, (state_name, value));
                proof {
                    assert forall|a: int, b: int|
                        0 <= a < entries@.len() && 0 <= b < entries@.len() && a != b implies #[trigger] entries@[a].0@
                            != #[trigger] entries@[b].0@ by {
                        if a != i && b != i {
                            assert(entries@[a] == old_entries[a] && entries@[b] == old_entries[b]);
                        } else if a == i {
                            assert(entries@[b] == old_entries[b]);
                            assert(old_entries[i as int].0@ != old_entries[b].0@);
                        } else {
                            assert(entries@[a] == old_entries[a]);
                            assert(old_entries[i as int].0@ != old_entries[a].0@);
                        }
                    }
                    lemma_entries_view(entries@);
                    assert forall|k: Seq<char>| #[trigger] entries_view(entries@).dom().contains(k) <==> entries_view(old_entries).insert(state_name@, value@).dom().contains(k) by {
                        if entries_view(entries@).dom().contains(k) {
                            let j = choose|j: int| 0 <= j < entries@.len() && (#[trigger] entries@[j]).0@ == k;
                            if j != i {
                                assert(entries@[j] == old_entries[j]);
                            }
                        }
                        if entries_view(old_entries).dom().contains(k) {
                            let j = choose|j: int| 0 <= j < old_entries.len() && (#[trigger] old_entries[j]).0@ == k;
                            if j != i {
                                assert(entries@[j] == old_entries[j]);
                            } else {
                                assert(entries@[i as int].0@ == k);
                            }
                        }
                    }
                    assert forall|k: Seq<char>| #[trigger] entries_view(entries@).dom().contains(k) implies entries_view(entries@)[k] == entries_view(old_entries).insert(state_name@, value@)[k] by {
                        let j = choose|j: int| 0 <= j < entries@.len() && (#[trigger] entries@[j]).0@ == k;
                        if j != i {
                            assert(entries@[j] == old_entries[j]);
                        }
                    }
                    assert(entries_view(entries@) =~= entries_view(old_entries).insert(state_name@, value@));
                }
                self.0 = entries;
            },
            None => {
                let mut entries: Vec<(String, Value)> = Vec::new();
                std::mem::swap(&mut entries, &mut self.0);
                entries.push((state_name, value));
                proof {
                    assert(entries@.drop_last() =~= old_entries);
                    assert forall|a: int, b: int|
                        0 <= a < entries@.len() && 0 <= b < entries@.len() && a != b implies #[trigger] entries@[a].0@
                            != #[trigger] entries@[b].0@ by {
                        if a < old_entries.len() && b < old_entries.len() {
                            assert(entries@[a] == old_entries[a] && entries@[b] == old_entries[b]);
                        } else if a < old_entries.len() {
                            assert(entries@[a] == old_entries[a]);
                        } else {
                            assert(entries@[b] == old_entries[b]);
                        }
                    }
                }
                self.0 = entries;
            },
        }
    }
}

/// A copy of a value with the same meaning.
pub fn clone_value(v: &Value) -> (r: Value)
    ensures
        r@ == v@,
    decreases v,
{
    match v {
        Value::Number(n) => Value::Number(*n),
        Value::String(s) => Value::String(s.clone()),
        Value::Struct(s) => {
            let c = clone_state(s);
            proof {
                assert(v@ == ValueView::Struct(s@));
            }
            Value::Struct(c)
        },
        Value::Bool(b) => Value::Bool(*b),
    }
}

/// A copy of a state with the same entries in the same order.
pub fn clone_state(s: &BlockState) -> (r: BlockState)
    ensures
        r@ == s@,
    decreases s,
{
    proof {
        use_type_invariant(s);
    }
    let mut entries: Vec<(String, Value)> = Vec::new();
    let mut i: usize = 0;
    while i < s.0.len()
        invariant
            i <= s.0@.len(),
            keys_unique(s.0@),
            entries@.len() == i,
            forall|j: int|
                0 <= j < i ==> (#[trigger] entries@[j]).0@ == s.0@[j].0@ && value_view(entries@[j].1)
                    == value_view(s.0@[j].1),
        decreases s.0@.len() - i,
    {
        proof {
            assert(decreases_to!(s => s.0));
            assert(decreases_to!(s.0 => s.0@));
            assert(decreases_to!(s.0@ => s.0@[i as int]));
        }
        let name = s.0[i].0.clone();
        let value = clone_value(&s.0[i].1);
        entries.push((name, value));
        i += 1;
    }
    proof {
        assert(forall|j: int| 0 <= j < entries@.len() ==> (#[trigger] entries@[j]).0@ == s.0@[j].0@);
        assert(entries_view(entries@) == entries_view(s.0@)) by {
            lemma_entries_view_congruent(entries@, s.0@);
        }
    }
    BlockState(entries)
}

proof fn lemma_entries_view_congruent(a: Seq<(String, Value)>, b: Seq<(String, Value)>)
    requires
        a.len() == b.len(),
        forall|j: int|
            0 <= j < a.len() ==> (#[trigger] a[j]).0@ == b[j].0@ && value_view(a[j].1) == value_view(
                b[j].1,
            ),
    ensures
        entries_view(a) == entries_view(b),
    decreases a.len(),
{
    if a.len() > 0 {
        assert forall|j: int| 0 <= j < a.drop_last().len() implies (#[trigger] a.drop_last()[j]).0@
            == b.drop_last()[j].0@ && value_view(a.drop_last()[j].1) == value_view(
            b.drop_last()[j].1,
        ) by {
            assert(a.drop_last()[j] == a[j]);
            assert(b.drop_last()[j] == b[j]);
        }
        lemma_entries_view_congruent(a.drop_last(), b.drop_last());
        assert(a[a.len() - 1].0@ == b[b.len() - 1].0@);
    }
}

impl Clone for Value {
    fn clone(&self) -> (r: Self)
        ensures
            r@ == self@,
    {
        clone_value(self)
    }
}

impl Clone for BlockState {
    fn clone(&self) -> (r: Self)
        ensures
            r@ == self@,
    {
        clone_state(self)
    }
}

/// Compares two values by meaning: equal numbers, equal strings, equal booleans, or nested
/// states with the same names mapped to equal values.
pub fn value_eq(a: &Value, b: &Value) -> (r: bool)
    ensures
        r == (a@ == b@),
    decreases a,
{
    match (a, b) {
        (Value::Number(x), Value::Number(y)) => *x == *y,
        (Value::String(x), Value::String(y)) => string_eq(x, y),
        (Value::Struct(x), Value::Struct(y)) => {
            let r = state_eq(x, y);
            proof {
                assert(a@ == ValueView::Struct(x@));
                assert(b@ == ValueView::Struct(y@));
            }
            r
        },
        (Value::Bool(x), Value::Bool(y)) => *x == *y,
        _ => false,
    }
}

/// Compares two states by meaning: the same names, mapped to equal values.
pub fn state_eq(a: &BlockState, b: &BlockState) -> (r: bool)
    ensures
        r == (a@ == b@),
    decreases a,
{
    proof {
        use_type_invariant(a);
        use_type_invariant(b);
        lemma_entries_view(a.0@);
        lemma_entries_view(b.0@);
    }
    if a.0.len() != b.0.len() {
        return false;
    }
    let mut i: usize = 0;
    while i < a.0.len()
        invariant
            i <= a.0@.len(),
            a.0@.len() == b.0@.len(),
            keys_unique(a.0@),
            keys_unique(b.0@),
            forall|j: int|
                0 <= j < i ==> #[trigger] b@.dom().contains(a.0@[j].0@) && b@[a.0@[j].0@] == a@[a.0@[j].0@],
            entries_view(a.0@).dom().len() == a.0@.len(),
            entries_view(b.0@).dom().len() == b.0@.len(),
            entries_view(a.0@).dom().finite(),
            entries_view(b.0@).dom().finite(),
            forall|j: int|
                0 <= j < a.0@.len() ==> #[trigger] entries_view(a.0@).dom().contains(a.0@[j].0@)
                    && entries_view(a.0@)[a.0@[j].0@] == value_view(a.0@[j].1),
            forall|j: int|
                0 <= j < b.0@.len() ==> #[trigger] entries_view(b.0@).dom().contains(b.0@[j].0@)
                    && entries_view(b.0@)[b.0@[j].0@] == value_view(b.0@[j].1),
            forall|k: Seq<char>|
                #[trigger] entries_view(a.0@).dom().contains(k) ==> exists|j: int|
                    0 <= j < a.0@.len() && (#[trigger] a.0@[j]).0@ == k,
            forall|k: Seq<char>|
                #[trigger] entries_view(b.0@).dom().contains(k) ==> exists|j: int|
                    0 <= j < b.0@.len() && (#[trigger] b.0@[j]).0@ == k,
        decreases a.0@.len() - i,
    {
        let entry = &a.0[i];
        match b.position(entry.0.as_str()) {
            None => {
                proof {
                    assert(a@.dom().contains(a.0@[i as int].0@));
                    if b@.dom().contains(a.0@[i as int].0@) {
                        let j = choose|j: int|
                            0 <= j < b.0@.len() && (#[trigger] b.0@[j]).0@ == a.0@[i as int].0@;
                        assert(b.0@[j].0@ != a.0@[i as int].0@);
                    }
                }
                return false;
            },
            Some(j) => {
                proof {
                    assert(decreases_to!(a => a.0));
                    assert(decreases_to!(a.0 => a.0@));
                    assert(decreases_to!(a.0@ => a.0@[i as int]));
                }
                proof {
                    assert(entries_view(a.0@).dom().contains(a.0@[i as int].0@));
                    assert(entries_view(b.0@).dom().contains(b.0@[j as int].0@));
                }
                if !value_eq(&entry.1, &b.0[j].1) {
                    return false;
                }
                proof {
                    let key = a.0@[i as int].0@;
                    assert(b.0@[j as int].0@ == key);
                    assert(entries_view(b.0@)[key] == value_view(b.0@[j as int].1));
                    assert(entries_view(a.0@)[key] == value_view(a.0@[i as int].1));
                    assert(b@ == entries_view(b.0@));
                    assert(a@ == entries_view(a.0@));
                    assert(b@[key] == a@[key]);
                    assert(b@.dom().contains(key));
                    assert forall|k: int| 0 <= k < i + 1 implies #[trigger] b@.dom().contains(a.0@[k].0@) && b@[a.0@[k].0@] == a@[a.0@[k].0@] by {
                        if k < i {
                        } else {
                            assert(k == i);
                        }
                    }
                }
            },
        }
        i += 1;
    }
    proof {
        assert(a@.dom().subset_of(b@.dom())) by {
            assert forall|k: Seq<char>| a@.dom().contains(k) implies b@.dom().contains(k) by {
                let j = choose|j: int| 0 <= j < a.0@.len() && (#[trigger] a.0@[j]).0@ == k;
            }
        }
        vstd::set_lib::lemma_subset_equality(a@.dom(), b@.dom());
        assert forall|k: Seq<char>| a@.dom().contains(k) implies a@[k] == b@[k] by {
            let j = choose|j: int| 0 <= j < a.0@.len() && (#[trigger] a.0@[j]).0@ == k;
        }
        assert(a@ =~= b@);
    }
    true
}

} // verus!
