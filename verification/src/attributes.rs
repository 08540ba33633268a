//! Subject attributes: a typed union for a single attribute value and an
//! insertion-ordered collection of named attributes.
//!
//! Targeting conditions read attributes through [`Attributes::get`], whose
//! result is determined by the *map* of names to values
//! ([`Attributes::map_view`]), never by the order in which entries were
//! inserted.  Evaluation results therefore cannot depend on insertion order.

use vstd::prelude::*;

verus! {

/// One subject attribute: a string, a 64-bit integer, a boolean, or null.
#[derive(Debug, PartialEq)]
pub enum AttributeValue {
    Text(String),
    Number(i64),
    Boolean(bool),
    Null,
}

/// Mathematical value of one attribute.
pub enum AttrVal {
    Text(Seq<char>),
    Number(int),
    Boolean(bool),
    Null,
}

impl View for AttributeValue {
    type V = AttrVal;

    open spec fn view(&self) -> AttrVal {
        match self {
            AttributeValue::Text(s) => AttrVal::Text(s@),
            AttributeValue::Number(n) => AttrVal::Number(*n as int),
            AttributeValue::Boolean(b) => AttrVal::Boolean(*b),
            AttributeValue::Null => AttrVal::Null,
        }
    }
}

impl AttributeValue {
    /// A copy with the same mathematical value.
    pub fn duplicate(&self) -> (r: AttributeValue)
        ensures
            r@ == self@,
    {
        match self {
            AttributeValue::Text(s) => AttributeValue::Text(s.clone()),
            AttributeValue::Number(n) => AttributeValue::Number(*n),
            AttributeValue::Boolean(b) => AttributeValue::Boolean(*b),
            AttributeValue::Null => AttributeValue::Null,
        }
    }
}

/// Value bound to `name` by the entry sequence `s`, where a later entry for
/// the same name shadows an earlier one.
pub open spec fn spec_lookup(s: Seq<(String, AttributeValue)>, name: Seq<char>) -> Option<
    AttrVal,
>
    decreases s.len(),
{
    if s.len() == 0 {
        None
    } else if s.last().0@ == name {
        Some(s.last().1@)
    } else {
        spec_lookup(s.drop_last(), name)
    }
}

/// The map of names to values described by the entry sequence `s`.
pub open spec fn entries_map(s: Seq<(String, AttributeValue)>) -> Map<Seq<char>, AttrVal>
    decreases s.len(),
{
    if s.len() == 0 {
        Map::empty()
    } else {
        entries_map(s.drop_last()).insert(s.last().0@, s.last().1@)
    }
}

/// `spec_lookup` computes exactly the bindings of `entries_map`.
pub proof fn lemma_lookup_is_map(s: Seq<(String, AttributeValue)>, name: Seq<char>)
    ensures
        spec_lookup(s, name) is Some <==> entries_map(s).contains_key(name),
        spec_lookup(s, name) matches Some(v) ==> entries_map(s)[name] == v,
    decreases s.len(),
{
    if s.len() > 0 {
        lemma_lookup_is_map(s.drop_last(), name);
    }
}

/// The attributes of a subject.
#[derive(Debug)]
pub struct Attributes {
    entries: Vec<(String, AttributeValue)>,
}

impl Attributes {
    /// The map of attribute names to values.
    pub closed spec fn map_view(&self) -> Map<Seq<char>, AttrVal> {
        entries_map(self.entries@)
    }

    /// An empty attribute collection.
    pub fn new() -> (r: Attributes)
        ensures
            r.map_view() == Map::<Seq<char>, AttrVal>::empty(),
    {
        Attributes { entries: Vec::new() }
    }

    /// Binds `name` to `value`, shadowing any earlier binding of `name`.
    pub fn set(&mut self, name: String, value: AttributeValue)
        ensures
            final(self).map_view() == old(self).map_view().insert(name@, value@),
    {
        let ghost before = self.entries@;
        let ghost n = name@;
        let ghost v = value@;
        self.entries.push((name, value));
        proof {
            assert(self.entries@.drop_last() =~= before);
            assert(self.entries@.last().0@ == n);
            assert(self.entries@.last().1@ == v);
        }
    }

    /// Looks the attribute `name` up in the map of attributes.
    pub fn get(&self, name: &str) -> (r: Option<&AttributeValue>)
        ensures
            r is Some <==> self.map_view().contains_key(name@),
            r matches Some(v) ==> self.map_view()[name@] == v@,
    {
        let n = self.entries.len();
        let mut found: Option<&AttributeValue> = None;
        proof {
            assert(self.entries@.subrange(0, 0) =~= Seq::<(String, AttributeValue)>::empty());
        }
        for i in 0..n
            invariant
                n == self.entries@.len(),
                ({
                    let so_far = spec_lookup(self.entries@.subrange(0, i as int), name@);
                    match found {
                        Some(v) => so_far matches Some(w) && w == v@,
                        None => so_far is None,
                    }
                }),
        {
            let ghost prefix = self.entries@.subrange(0, i as int);
            let entry = &self.entries[i];
            if crate::strings::str_eq(entry.0.as_str(), name) {
                found = Some(&entry.1);
            }
            proof {
                let ext = self.entries@.subrange(0, i + 1);
                assert(ext.drop_last() =~= prefix);
                assert(ext.last() == self.entries@[i as int]);
            }
        }
        proof {
            assert(self.entries@.subrange(0, n as int) =~= self.entries@);
            lemma_lookup_is_map(self.entries@, name@);
        }
        found
    }
}

} // verus!
