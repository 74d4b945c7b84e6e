//! Operators and their typed parameters.
//!
//! Floating-point values (canvas positions, float and vector parameters)
//! travel as IEEE-754 `f64` bit patterns (`f64::to_bits`): the graph stores
//! them verbatim and never computes with them, so bit identity across
//! snapshot and restore holds by construction, `-0.0`, NaN payloads and
//! subnormals included.

use vstd::prelude::*;

use crate::domain::NodeId;
use crate::text::{
    is_blank, lemma_text_less_irreflexive, lemma_text_less_total, lemma_text_less_transitive,
    str_eq, str_is_blank, text_less, text_precedes,
};

verus! {

/// Kind of operator in the procedural graph.
#[derive(Debug, Clone, Copy, PartialEq, Eq, Hash, Structural)]
pub enum OperatorKind {
    /// Pure organizer: holds a subnetwork, has no ports, does not cook.
    Container,
    /// Per-axis size plus center; cooks to implicit geometry.
    Cube,
    /// Resolution-driven sphere; cooks to implicit geometry.
    Sphere,
}

/// Canvas position: two `f64` coordinates as bit patterns.
#[derive(Debug, Clone, Copy, PartialEq, Eq, Structural)]
pub struct Position {
    /// Horizontal canvas coordinate (`f64` bits).
    pub x: u64,
    /// Vertical canvas coordinate (`f64` bits).
    pub y: u64,
}

/// A typed parameter value. Floats are `f64` bit patterns.
#[derive(Debug, Clone, PartialEq)]
pub enum ParamValue {
    /// Double-precision scalar (`f64` bits).
    Float(u64),
    /// 64-bit integer.
    Integer(i64),
    /// Verbatim text.
    Text(String),
    /// Boolean flag.
    Flag(bool),
    /// 3-vector as an `f64` bit-pattern triple.
    Vec3([u64; 3]),
}

/// Abstract value of a [`ParamValue`]: text by its characters.
pub enum ParamValueView {
    /// Double-precision scalar (`f64` bits).
    Float(u64),
    /// 64-bit integer.
    Integer(i64),
    /// Text by its characters.
    Text(Seq<char>),
    /// Boolean flag.
    Flag(bool),
    /// 3-vector as `f64` bit patterns.
    Vec3([u64; 3]),
}

impl ParamValue {
    /// Abstract value.
    pub open spec fn view(&self) -> ParamValueView {
        match self {
            ParamValue::Float(bits) => ParamValueView::Float(*bits),
            ParamValue::Integer(value) => ParamValueView::Integer(*value),
            ParamValue::Text(text) => ParamValueView::Text(text@),
            ParamValue::Flag(flag) => ParamValueView::Flag(*flag),
            ParamValue::Vec3(triple) => ParamValueView::Vec3(*triple),
        }
    }

    /// An identical copy.
    pub fn duplicate(&self) -> (copy: ParamValue)
        ensures
            copy == *self,
    {
        match self {
            ParamValue::Float(bits) => ParamValue::Float(*bits),
            ParamValue::Integer(value) => ParamValue::Integer(*value),
            ParamValue::Text(text) => ParamValue::Text(text.clone()),
            ParamValue::Flag(flag) => ParamValue::Flag(*flag),
            ParamValue::Vec3(triple) => ParamValue::Vec3(*triple),
        }
    }
}

/// Parameter map: keys unique and kept in ascending code-point order, so
/// iteration (and therefore serialization) is deterministic.
#[derive(Debug, Clone, PartialEq)]
pub struct ParamMap {
    entries: Vec<(String, ParamValue)>,
}

impl ParamMap {
    /// Keys in stored order.
    pub closed spec fn key_seq(&self) -> Seq<Seq<char>> {
        self.entries@.map_values(|e: (String, ParamValue)| e.0@)
    }

    /// Entries in stored order.
    pub closed spec fn entry_seq(&self) -> Seq<(String, ParamValue)> {
        self.entries@
    }

    /// Keys strictly ascend.
    pub closed spec fn wf(&self) -> bool {
        forall|i: int, j: int|
            0 <= i < j < self.entries@.len() ==> text_less(
                #[trigger] self.entries@[i].0@,
                #[trigger] self.entries@[j].0@,
            )
    }

    /// Whether some entry carries key `k`.
    pub closed spec fn has_key(&self, k: Seq<char>) -> bool {
        exists|i: int| 0 <= i < self.entries@.len() && self.entries@[i].0@ == k
    }

    /// Position of an entry carrying key `k`.
    pub closed spec fn key_index(&self, k: Seq<char>) -> int {
        choose|i: int| 0 <= i < self.entries@.len() && self.entries@[i].0@ == k
    }

    /// Abstract state: key to value.
    pub closed spec fn view(&self) -> Map<Seq<char>, ParamValueView> {
        Map::new(|k: Seq<char>| self.has_key(k), |k: Seq<char>| self.entries@[self.key_index(k)].1.view())
    }

    proof fn lemma_view_at(&self, idx: int)
        requires
            self.wf(),
            0 <= idx < self.entries@.len(),
        ensures
            self.view().contains_key(self.entries@[idx].0@),
            self.view()[self.entries@[idx].0@] == self.entries@[idx].1.view(),
    {
        let k = self.entries@[idx].0@;
        assert(exists|i: int| 0 <= i < self.entries@.len() && self.entries@[i].0@ == k) by {
            assert(self.entries@[idx].0@ == k);
        }
        assert(self.has_key(k));
        let i = self.key_index(k);
        assert(self.view()[k] == self.entries@[i].1.view());
        if i != idx {
            if idx < i {
                assert(text_less(self.entries@[idx].0@, self.entries@[i].0@));
            } else {
                assert(text_less(self.entries@[i].0@, self.entries@[idx].0@));
            }
            lemma_text_less_irreflexive(k);
        }
    }

    proof fn lemma_view_has(&self, k: Seq<char>) -> (idx: int)
        requires
            self.wf(),
            self.view().contains_key(k),
        ensures
            0 <= idx < self.entries@.len(),
            self.entries@[idx].0@ == k,
    {
        self.key_index(k)
    }

    /// An empty map.
    pub fn new() -> (map: Self)
        ensures
            map.wf(),
            map.view() == Map::<Seq<char>, ParamValueView>::empty(),
    {
        let map = ParamMap { entries: Vec::new() };
        assert(map.view() =~= Map::<Seq<char>, ParamValueView>::empty());
        map
    }

    /// Number of entries.
    pub fn len(&self) -> (n: usize)
        requires
            self.wf(),
        ensures
            n == self.view().len(),
    {
        proof {
            self.lemma_len();
        }
        self.entries.len()
    }

    proof fn lemma_len(&self)
        requires
            self.wf(),
        ensures
            self.view().dom().finite(),
            self.entries@.len() == self.view().len(),
    {
        let keys = self.key_seq();
        assert forall|i: int, j: int| 0 <= i < keys.len() && 0 <= j < keys.len() && i != j implies keys[i]
            != keys[j] by {
            if i < j {
                assert(text_less(self.entries@[i].0@, self.entries@[j].0@));
            } else {
                assert(text_less(self.entries@[j].0@, self.entries@[i].0@));
            }
            lemma_text_less_irreflexive(keys[i]);
        }
        assert forall|k: Seq<char>| self.view().dom().contains(k) <==> keys.to_set().contains(k) by {
            if self.view().dom().contains(k) {
                let i = self.lemma_view_has(k);
                assert(keys[i] == k);
            }
            if keys.to_set().contains(k) {
                let i = choose|i: int| 0 <= i < keys.len() && keys[i] == k;
                self.lemma_view_at(i);
            }
        }
        assert(self.view().dom() =~= keys.to_set());
        keys.unique_seq_to_set();
    }

    /// Whether the map is empty.
    pub fn is_empty(&self) -> (empty: bool)
        requires
            self.wf(),
        ensures
            empty == (self.view().dom() == Set::<Seq<char>>::empty()),
    {
        proof {
            if self.entries@.len() > 0 {
                self.lemma_view_at(0);
            } else {
                assert(self.view().dom() =~= Set::<Seq<char>>::empty());
            }
        }
        self.entries.len() == 0
    }

    /// Entries in ascending key order.
    pub fn entries(&self) -> (entries: &[(String, ParamValue)])
        ensures
            entries@ == self.entry_seq(),
    {
        self.entries.as_slice()
    }

    /// Position of `key`, if present.
    fn position_of(&self, key: &str) -> (found: Option<usize>)
        requires
            self.wf(),
        ensures
            found is Some <==> self.view().contains_key(key@),
            found matches Some(i) ==> i < self.entries@.len() && self.entries@[i as int].0@ == key@,
    {
        let mut i: usize = 0;
        while i < self.entries.len()
            invariant
                self.wf(),
                i <= self.entries@.len(),
                forall|k: int| 0 <= k < i ==> self.entries@[k].0@ != key@,
            decreases self.entries@.len() - i,
        {
            if str_eq(self.entries[i].0.as_str(), key) {
                return Some(i);
            }
            i = i + 1;
        }
        None
    }

    /// Value stored under `key`, if any.
    pub fn get(&self, key: &str) -> (value: Option<&ParamValue>)
        requires
            self.wf(),
        ensures
            value is Some <==> self.view().contains_key(key@),
            value matches Some(v) ==> v.view() == self.view()[key@],
    {
        match self.position_of(key) {
            Some(i) => {
                proof {
                    self.lemma_view_at(i as int);
                }
                Some(&self.entries[i].1)
            },
            None => None,
        }
    }

    /// Whether `key` is present.
    pub fn contains_key(&self, key: &str) -> (present: bool)
        requires
            self.wf(),
        ensures
            present == self.view().contains_key(key@),
    {
        self.position_of(key).is_some()
    }

    /// Whether any key is empty or white space only.
    pub fn any_blank_key(&self) -> (blank: bool)
        requires
            self.wf(),
        ensures
            blank == exists|k: Seq<char>| self.view().contains_key(k) && is_blank(k),
    {
        let mut i: usize = 0;
        while i < self.entries.len()
            invariant
                self.wf(),
                i <= self.entries@.len(),
                forall|k: int| 0 <= k < i ==> !is_blank(#[trigger] self.entries@[k].0@),
            decreases self.entries@.len() - i,
        {
            if str_is_blank(self.entries[i].0.as_str()) {
                proof {
                    self.lemma_view_at(i as int);
                }
                return true;
            }
            i = i + 1;
        }
        proof {
            assert forall|k: Seq<char>| self.view().contains_key(k) implies !is_blank(k) by {
                let j = choose|j: int| 0 <= j < self.entries@.len() && self.entries@[j].0@ == k;
                assert(!is_blank(self.entries@[j].0@));
            }
        }
        false
    }

    /// Store `value` under `key`, replacing any previous value.
    pub fn insert(&mut self, key: String, value: ParamValue)
        requires
            old(self).wf(),
        ensures
            final(self).wf(),
            final(self).view() == old(self).view().insert(key@, value.view()),
    {
        let mut p: usize = 0;
        while p < self.entries.len() && text_precedes(self.entries[p].0.as_str(), key.as_str())
            invariant
                self.wf(),
                p <= self.entries@.len(),
                forall|k: int| 0 <= k < p ==> text_less(#[trigger] self.entries@[k].0@, key@),
            decreases self.entries@.len() - p,
        {
            p = p + 1;
        }
        let ghost before = self.entries@;
        let ghost old_map = self.view();
        let ghost value_view = value.view();
        let replace = p < self.entries.len() && str_eq(self.entries[p].0.as_str(), key.as_str());
        if replace {
            self.entries.remove(p);
        }
        proof {
            // Every key from `p` on (after a removed match) sorts above `key`.
            assert forall|k: int| 0 <= k < self.entries@.len() && k >= p implies text_less(
                key@,
                #[trigger] self.entries@[k].0@,
            ) by {
                let orig = if replace { k + 1 } else { k };
                assert(self.entries@[k] == before[orig]);
                if !replace {
                    lemma_text_less_total(before[p as int].0@, key@);
                    if orig > p {
                        lemma_text_less_transitive(key@, before[p as int].0@, before[orig].0@);
                    }
                } else {
                    assert(text_less(before[p as int].0@, before[orig].0@));
                }
            }
            assert forall|k: int| 0 <= k < p implies text_less(#[trigger] self.entries@[k].0@, key@) by {
                assert(self.entries@[k] == before[k]);
            }
        }
        self.entries.insert(p, (key, value));
        proof {
            let after = self.entries@;
            assert forall|i: int, j: int| 0 <= i < j < after.len() implies text_less(
                #[trigger] after[i].0@,
                #[trigger] after[j].0@,
            ) by {
                if i < p && j > p {
                    lemma_text_less_transitive(after[i].0@, key@, after[j].0@);
                }
            }
            assert forall|k: Seq<char>| #[trigger] self.view().contains_key(k) == old_map.insert(
                key@,
                value_view,
            ).contains_key(k) by {
                if k == key@ {
                    self.lemma_view_at(p as int);
                } else {
                    if old_map.contains_key(k) {
                        let j = old(self).lemma_view_has(k);
                        assert(j != p || !replace);
                        let nj = if j < p || replace { j } else { j + 1 };
                        if replace && j > p {
                            assert(after[j] == before[j]);
                        }
                        assert(after[nj] == before[j]);
                        self.lemma_view_at(nj);
                    }
                    if self.view().contains_key(k) {
                        let j = self.lemma_view_has(k);
                        assert(j != p);
                        let oj = if j < p || replace { j } else { j - 1 };
                        assert(before[oj] == after[j]);
                        old(self).lemma_view_at(oj);
                    }
                }
            }
            assert forall|k: Seq<char>| #[trigger] self.view().contains_key(k) implies self.view()[k]
                == old_map.insert(key@, value_view)[k] by {
                let j = self.lemma_view_has(k);
                self.lemma_view_at(j);
                if k == key@ {
                    self.lemma_view_at(p as int);
                } else {
                    assert(j != p);
                    let oj = if j < p || replace { j } else { j - 1 };
                    assert(before[oj] == after[j]);
                    old(self).lemma_view_at(oj);
                }
            }
            assert(self.view() =~= old_map.insert(key@, value_view));
        }
    }

    /// An identical copy.
    pub fn duplicate(&self) -> (copy: ParamMap)
        requires
            self.wf(),
        ensures
            copy.wf(),
            copy.view() == self.view(),
            copy.entry_seq() == self.entry_seq(),
    {
        let mut entries: Vec<(String, ParamValue)> = Vec::new();
        let mut i: usize = 0;
        while i < self.entries.len()
            invariant
                self.wf(),
                i <= self.entries@.len(),
                entries@ == self.entries@.subrange(0, i as int),
            decreases self.entries@.len() - i,
        {
            let key = self.entries[i].0.clone();
            let value = self.entries[i].1.duplicate();
            entries.push((key, value));
            assert(entries@ =~= self.entries@.subrange(0, i + 1));
            i = i + 1;
        }
        assert(entries@ =~= self.entries@);
        let copy = ParamMap { entries };
        assert(copy.view() =~= self.view());
        copy
    }
}

/// Abstract state of an [`Operator`].
pub struct OperatorView {
    /// Storage key.
    pub id: u64,
    /// Which operator this is.
    pub kind: OperatorKind,
    /// Display name.
    pub name: Seq<char>,
    /// Containing container, if any.
    pub parent: Option<u64>,
    /// Canvas position (bit patterns).
    pub position: Position,
    /// Typed parameters.
    pub parameters: Map<Seq<char>, ParamValueView>,
}

/// The behavior-carrying element of the procedural graph. `parent` is the
/// containing container's id, or `None` at the root.
#[derive(Debug, Clone, PartialEq)]
pub struct Operator {
    /// Storage key identifying this operator.
    pub id: NodeId,
    /// Which operator this is.
    pub kind: OperatorKind,
    /// Display name.
    pub name: String,
    /// Containing container, if any.
    pub parent: Option<NodeId>,
    /// Canvas position.
    pub position: Position,
    /// Typed parameter map.
    pub parameters: ParamMap,
}

/// Raw id of an optional parent.
pub open spec fn raw_parent(parent: Option<NodeId>) -> Option<u64> {
    match parent {
        Some(p) => Some(p.0),
        None => None,
    }
}

impl Operator {
    /// Abstract state.
    pub open spec fn view(&self) -> OperatorView {
        OperatorView {
            id: self.id.0,
            kind: self.kind,
            name: self.name@,
            parent: raw_parent(self.parent),
            position: self.position,
            parameters: self.parameters.view(),
        }
    }

    /// The parameter map is well formed.
    pub open spec fn wf(&self) -> bool {
        self.parameters.wf()
    }

    /// Build an operator from its parts, with no parameters.
    pub fn new(
        id: NodeId,
        kind: OperatorKind,
        name: &str,
        parent: Option<NodeId>,
        position: Position,
    ) -> (operator: Self)
        ensures
            operator.wf(),
            operator.view() == (OperatorView {
                id: id.0,
                kind,
                name: name@,
                parent: raw_parent(parent),
                position,
                parameters: Map::empty(),
            }),
    {
        Operator { id, kind, name: String::from_str(name), parent, position, parameters: ParamMap::new() }
    }

    /// An identical copy.
    pub fn duplicate(&self) -> (copy: Operator)
        requires
            self.wf(),
        ensures
            copy.wf(),
            copy.view() == self.view(),
            copy.parameters.entry_seq() == self.parameters.entry_seq(),
    {
        Operator {
            id: self.id,
            kind: self.kind,
            name: self.name.clone(),
            parent: self.parent,
            position: self.position,
            parameters: self.parameters.duplicate(),
        }
    }
}

} // verus!
