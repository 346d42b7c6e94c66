//! Property bags: named values that widgets carry, inherit and keep as state.

use crate::store::{
    assoc_map, lemma_assoc_map_facts, lemma_assoc_map_push, lemma_assoc_map_remove,
    lemma_assoc_map_update,
};
use crate::Scalar;
use vstd::prelude::*;

verus! {

/// A value held in a property bag.
#[derive(Debug)]
pub enum PropsValue {
    Flag(bool),
    Integer(i64),
    Text(String),
}

/// What a [`PropsValue`] stands for.
pub enum PropsValueView {
    Flag(bool),
    Integer(i64),
    Text(Seq<char>),
}

impl View for PropsValue {
    type V = PropsValueView;

    open spec fn view(&self) -> PropsValueView {
        match self {
            PropsValue::Flag(flag) => PropsValueView::Flag(*flag),
            PropsValue::Integer(number) => PropsValueView::Integer(*number),
            PropsValue::Text(text) => PropsValueView::Text(text@),
        }
    }
}

impl Clone for PropsValue {
    fn clone(&self) -> (copy: PropsValue)
        ensures
            copy@ == self@,
    {
        match self {
            PropsValue::Flag(flag) => PropsValue::Flag(*flag),
            PropsValue::Integer(number) => PropsValue::Integer(*number),
            PropsValue::Text(text) => PropsValue::Text(text.clone()),
        }
    }
}

impl PropsValue {
    /// The flag, if this is one.
    pub fn as_flag(&self) -> (flag: Option<bool>)
        ensures
            flag == match self@ {
                PropsValueView::Flag(f) => Some(f),
                _ => None,
            },
    {
        match self {
            PropsValue::Flag(flag) => Some(*flag),
            _ => None,
        }
    }

    /// The number, if this is one.
    pub fn as_integer(&self) -> (number: Option<i64>)
        ensures
            number == match self@ {
                PropsValueView::Integer(n) => Some(n),
                _ => None,
            },
    {
        match self {
            PropsValue::Integer(number) => Some(*number),
            _ => None,
        }
    }

    /// The text, if this is one.
    pub fn as_text(&self) -> (text: Option<&str>)
        ensures
            match text {
                Some(t) => self@ == PropsValueView::Text(t@),
                None => !(self@ is Text),
            },
    {
        match self {
            PropsValue::Text(text) => Some(text.as_str()),
            _ => None,
        }
    }
}

/// A bag of named property values. Every name occurs at most once.
#[derive(Debug)]
pub struct Props {
    names: Vec<String>,
    values: Vec<PropsValue>,
}

impl View for Props {
    type V = Map<Seq<char>, PropsValueView>;

    closed spec fn view(&self) -> Map<Seq<char>, PropsValueView> {
        assoc_map(self.keys(), self.items())
    }
}

impl Props {
    /// The bag that holds nothing.
    pub open spec fn spec_empty() -> Map<Seq<char>, PropsValueView> {
        Map::empty()
    }

    #[verifier::type_invariant]
    closed spec fn inv(&self) -> bool {
        &&& self.names.len() == self.values.len()
        &&& self.keys().no_duplicates()
    }

    closed spec fn keys(&self) -> Seq<Seq<char>> {
        Seq::new(self.names@.len(), |i: int| self.names@[i]@)
    }

    closed spec fn items(&self) -> Seq<PropsValueView> {
        Seq::new(self.values@.len(), |i: int| self.values@[i]@)
    }

    /// An empty bag.
    pub fn new() -> (props: Props)
        ensures
            props@ == Map::<Seq<char>, PropsValueView>::empty(),
    {
        let props = Props { names: Vec::new(), values: Vec::new() };
        props
    }

    /// The number of named values.
    pub fn len(&self) -> (len: usize)
        ensures
            self@.dom().finite(),
            len == self@.len(),
    {
        proof {
            use_type_invariant(self);
            lemma_assoc_map_facts(self.keys(), self.items());
        }
        self.names.len()
    }

    /// Whether the bag holds nothing.
    pub fn is_empty(&self) -> (empty: bool)
        ensures
            empty == (self@ == Map::<Seq<char>, PropsValueView>::empty()),
    {
        proof {
            use_type_invariant(self);
            lemma_assoc_map_facts(self.keys(), self.items());
            if self.keys().len() > 0 {
            } else {
                assert(self@ =~= Map::<Seq<char>, PropsValueView>::empty());
            }
        }
        self.names.len() == 0
    }

    fn position(&self, name: &str) -> (found: Option<usize>)
        ensures
            match found {
                Some(i) => i < self.keys().len() && self.keys()[i as int] == name@,
                None => !self.keys().contains(name@),
            },
    {
        let mut i: usize = 0;
        while i < self.names.len()
            invariant
                i <= self.names.len(),
                forall|j: int| 0 <= j < i ==> self.keys()[j] != name@,
            decreases self.names.len() - i,
        {
            if str_equal(self.names[i].as_str(), name) {
                return Some(i);
            }
            i += 1;
        }
        proof {
            if self.keys().contains(name@) {
                let j = self.keys().index_of(name@);
            }
        }
        None
    }

    fn take_parts(&mut self) -> (parts: (Vec<String>, Vec<PropsValue>))
        ensures
            parts.0 == old(self).names,
            parts.1 == old(self).values,
            final(self)@ == Map::<Seq<char>, PropsValueView>::empty(),
    {
        let mut taken = Props::new();
        std::mem::swap(self, &mut taken);
        let Props { names, values } = taken;
        (names, values)
    }

    /// Whether a value is stored under `name`.
    pub fn has(&self, name: &str) -> (found: bool)
        ensures
            found == self@.contains_key(name@),
    {
        self.position(name).is_some()
    }

    /// The value stored under `name`.
    pub fn read(&self, name: &str) -> (value: Option<&PropsValue>)
        ensures
            match value {
                Some(v) => self@.contains_key(name@) && v@ == self@[name@],
                None => !self@.contains_key(name@),
            },
    {
        proof {
            use_type_invariant(self);
            lemma_assoc_map_facts(self.keys(), self.items());
        }
        match self.position(name) {
            Some(i) => Some(&self.values[i]),
            None => None,
        }
    }

    /// Stores `value` under `name`, in place of what was there.
    pub fn write(&mut self, name: String, value: PropsValue)
        ensures
            final(self)@ == old(self)@.insert(name@, value@),
    {
        proof {
            use_type_invariant(&*self);
            lemma_assoc_map_facts(self.keys(), self.items());
        }
        let ghost keys0 = self.keys();
        let ghost items0 = self.items();
        let found = self.position(name.as_str());
        let (mut names, mut values) = self.take_parts();
        match found {
            Some(i) => {
                let mut value = value;
                std::mem::swap(&mut values[i], &mut value);
                proof {
                    lemma_assoc_map_update(keys0, items0, i as int, values@[i as int]@);
                }
            },
            None => {
                names.push(name);
                values.push(value);
                proof {
                    lemma_assoc_map_push(keys0, items0, name@, value@);
                    assert(Seq::new(names@.len(), |j: int| names@[j]@) == keys0.push(name@));
                }
            },
        }
        *self = Props { names, values };
    }

    /// This bag with `value` stored under `name`.
    pub fn with(self, name: String, value: PropsValue) -> (props: Props)
        ensures
            props@ == self@.insert(name@, value@),
    {
        let mut props = self;
        props.write(name, value);
        props
    }

    /// Removes what is stored under `name`.
    pub fn remove(&mut self, name: &str)
        ensures
            final(self)@ == old(self)@.remove(name@),
    {
        proof {
            use_type_invariant(&*self);
            lemma_assoc_map_facts(self.keys(), self.items());
        }
        let ghost keys0 = self.keys();
        let ghost items0 = self.items();
        match self.position(name) {
            Some(i) => {
                let (mut names, mut values) = self.take_parts();
                names.remove(i);
                values.remove(i);
                proof {
                    lemma_assoc_map_remove(keys0, items0, i as int);
                    assert(Seq::new(names@.len(), |j: int| names@[j]@) == keys0.remove(i as int));
                }
                *self = Props { names, values };
            },
            None => {
            },
        }
    }

    /// This bag with the values of `other` written over it: a name in both
    /// holds the value of `other`, every other name keeps its value.
    pub fn merge(self, other: Props) -> (merged: Props)
        ensures
            merged@ == self@.union_prefer_right(other@),
    {
        proof {
            use_type_invariant(&other);
            lemma_assoc_map_facts(other.keys(), other.items());
        }
        let ghost keys = other.keys();
        let ghost items = other.items();
        let mut merged = self;
        let count = other.names.len();
        let mut i: usize = 0;
        while i < count
            invariant
                i <= count,
                count == other.names.len(),
                count == other.values.len(),
                keys == other.keys(),
                items == other.items(),
                keys.no_duplicates(),
                keys.len() == items.len(),
                keys.len() == count,
                merged@ == self@.union_prefer_right(
                    assoc_map(keys.subrange(0, i as int), items.subrange(0, i as int)),
                ),
            decreases count - i,
        {
            let name = other.names[i].clone();
            let value = other.values[i].clone();
            proof {
                let head = keys.subrange(0, i as int);
                lemma_assoc_map_push(head, items.subrange(0, i as int), keys[i as int], items[i as int]);
                assert(head.push(keys[i as int]) == keys.subrange(0, i + 1));
                assert(items.subrange(0, i as int).push(items[i as int]) == items.subrange(
                    0,
                    i + 1,
                ));
            }
            merged.write(name, value);
            i += 1;
        }
        proof {
            assert(keys.subrange(0, count as int) == keys);
        }
        merged
    }
}

impl Default for Props {
    fn default() -> (props: Props)
        ensures
            props@ == Map::<Seq<char>, PropsValueView>::empty(),
    {
        Props::new()
    }
}

impl Clone for Props {
    fn clone(&self) -> (copy: Props)
        ensures
            copy@ == self@,
    {
        proof {
            use_type_invariant(self);
        }
        let mut names: Vec<String> = Vec::new();
        let mut values: Vec<PropsValue> = Vec::new();
        let count = self.names.len();
        let mut i: usize = 0;
        while i < count
            invariant
                i <= count,
                count == self.names.len(),
                count == self.values.len(),
                names.len() == i,
                values.len() == i,
                forall|j: int| 0 <= j < i ==> names@[j]@ == self.names@[j]@,
                forall|j: int| 0 <= j < i ==> values@[j]@ == self.values@[j]@,
            decreases count - i,
        {
            names.push(self.names[i].clone());
            values.push(self.values[i].clone());
            i += 1;
        }
        proof {
            assert(Seq::new(names@.len(), |j: int| names@[j]@) == self.keys());
        }
        Props { names, values }
    }
}

/// Whether two texts are the same.
pub fn str_equal(left: &str, right: &str) -> (equal: bool)
    ensures
        equal == (left@ == right@),
{
    let a = left.to_owned();
    let b = right.to_owned();
    a == b
}

/// The length that is stored under `name`: the number there if it fits, and
/// zero if there is none.
pub open spec fn scalar_of(props: Map<Seq<char>, PropsValueView>, name: Seq<char>) -> Scalar {
    if props.contains_key(name) {
        match props[name] {
            PropsValueView::Integer(number) => if i32::MIN <= number <= i32::MAX {
                number as i32
            } else {
                0
            },
            _ => 0,
        }
    } else {
        0
    }
}

/// The flag that is stored under `name`; it is not set if there is none.
pub open spec fn flag_of(props: Map<Seq<char>, PropsValueView>, name: Seq<char>) -> bool {
    props.contains_key(name) && props[name] == PropsValueView::Flag(true)
}

impl Props {
    /// The length that is stored under `name`: the number there if it fits,
    /// and zero if there is none.
    pub fn read_scalar(&self, name: &str) -> (value: Scalar)
        ensures
            value == scalar_of(self@, name@),
    {
        match self.read(name) {
            Some(PropsValue::Integer(number)) => {
                if *number >= -2147483648 && *number <= 2147483647 {
                    *number as i32
                } else {
                    0
                }
            },
            _ => 0,
        }
    }

    /// The flag that is stored under `name`; it is not set if there is none.
    pub fn read_flag(&self, name: &str) -> (flag: bool)
        ensures
            flag == flag_of(self@, name@),
    {
        match self.read(name) {
            Some(PropsValue::Flag(flag)) => *flag,
            _ => false,
        }
    }
}

} // verus!
