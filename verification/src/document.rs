//! Platform documents, as far as the library reads them.

use vstd::prelude::*;

use crate::identifier::Identifier;
use crate::text::same_text;

verus! {

/// A property value. The kinds that no operation reads are all `Other`.
#[derive(Clone, Debug, PartialEq, Eq)]
pub enum Value {
    Identifier([u8; 32]),
    U32(u32),
    U64(u64),
    Bytes(Vec<u8>),
    Text(String),
    Other,
}

/// A document: its owner, and its properties by name.
#[derive(Clone, Debug, PartialEq, Eq)]
pub struct Document {
    pub owner_id: Identifier,
    pub properties: Vec<(String, Value)>,
}

/// The value of the named property: the first that has the name.
pub open spec fn property(properties: Seq<(String, Value)>, name: Seq<char>) -> Option<Value>
    decreases properties.len(),
{
    if properties.len() == 0 {
        None
    } else if properties[0].0@ == name {
        Some(properties[0].1)
    } else {
        property(properties.skip(1), name)
    }
}

/// A property name that stands at `i` and nowhere before `i` gives the value at `i`.
proof fn lemma_property_at(properties: Seq<(String, Value)>, name: Seq<char>, i: int)
    requires
        0 <= i < properties.len(),
        properties[i].0@ == name,
        forall|j: int| 0 <= j < i ==> properties[j].0@ != name,
    ensures
        property(properties, name) == Some(properties[i].1),
    decreases i,
{
    if i > 0 {
        assert(properties[0].0@ != name);
        let rest = properties.skip(1);
        assert forall|j: int| 0 <= j < i - 1 implies rest[j].0@ != name by {
            assert(rest[j] == properties[j + 1]);
        }
        lemma_property_at(rest, name, i - 1);
    }
}

/// A property name that stands nowhere has no value.
proof fn lemma_property_absent(properties: Seq<(String, Value)>, name: Seq<char>)
    requires
        forall|j: int| 0 <= j < properties.len() ==> properties[j].0@ != name,
    ensures
        property(properties, name) is None,
    decreases properties.len(),
{
    if properties.len() > 0 {
        assert(properties[0].0@ != name);
        let rest = properties.skip(1);
        assert forall|j: int| 0 <= j < rest.len() implies rest[j].0@ != name by {
            assert(rest[j] == properties[j + 1]);
        }
        lemma_property_absent(rest, name);
    }
}

/// A name has a value exactly where some property has that name, and the first such property
/// gives it.
pub proof fn law_first_property_of_a_name_counts(
    properties: Seq<(String, Value)>,
    name: Seq<char>,
)
    ensures
        property(properties, name) is Some <==> exists|i: int|
            0 <= i < properties.len() && (#[trigger] properties[i]).0@ == name,
        forall|i: int|
            0 <= i < properties.len() && (#[trigger] properties[i]).0@ == name && (forall|j: int|
                0 <= j < i ==> (#[trigger] properties[j]).0@ != name) ==> property(
                properties,
                name,
            ) == Some(properties[i].1),
    decreases properties.len(),
{
    if forall|j: int| 0 <= j < properties.len() ==> (#[trigger] properties[j]).0@ != name {
        lemma_property_absent(properties, name);
    } else if properties[0].0@ != name {
        let rest = properties.skip(1);
        let k = choose|k: int| 0 <= k < properties.len() && (#[trigger] properties[k]).0@ == name;
        assert(rest[k - 1] == properties[k]);
        law_first_property_of_a_name_counts(rest, name);
    }
    assert forall|i: int|
        0 <= i < properties.len() && (#[trigger] properties[i]).0@ == name && (forall|j: int|
            0 <= j < i ==> (#[trigger] properties[j]).0@ != name) implies property(
        properties,
        name,
    ) == Some(properties[i].1) by {
        lemma_property_at(properties, name, i);
    }
}

/// A property is read as what it holds: an identifier as those bytes, a text as that text, a
/// number as that number. A property that holds something else, or is not there, reads as nothing.
pub proof fn law_property_is_read_as_it_is(document: Document, name: Seq<char>)
    ensures
        match property(document.properties@, name) {
            Some(Value::Identifier(b)) => document.identifier_at(name) is Some
                && document.identifier_at(name)->0.bytes == b,
            _ => document.identifier_at(name) is None,
        },
        match property(document.properties@, name) {
            Some(Value::Bytes(b)) => document.bytes_at(name) == Some(b@),
            _ => document.bytes_at(name) is None,
        },
        match property(document.properties@, name) {
            Some(Value::Text(t)) => document.text_at(name) == Some(t@),
            _ => document.text_at(name) is None,
        },
        match property(document.properties@, name) {
            Some(Value::U32(n)) => document.u32_at(name) == Some(n),
            _ => document.u32_at(name) is None,
        },
        match property(document.properties@, name) {
            Some(Value::U64(n)) => document.u64_at(name) == Some(n),
            _ => document.u64_at(name) is None,
        },
{
}

impl Document {
    /// The identifier that the named property holds.
    pub open spec fn identifier_at(self, name: Seq<char>) -> Option<Identifier> {
        match property(self.properties@, name) {
            Some(Value::Identifier(bytes)) => Some(Identifier { bytes }),
            _ => None,
        }
    }

    /// The bytes that the named property holds.
    pub open spec fn bytes_at(self, name: Seq<char>) -> Option<Seq<u8>> {
        match property(self.properties@, name) {
            Some(Value::Bytes(bytes)) => Some(bytes@),
            _ => None,
        }
    }

    /// The text that the named property holds.
    pub open spec fn text_at(self, name: Seq<char>) -> Option<Seq<char>> {
        match property(self.properties@, name) {
            Some(Value::Text(text)) => Some(text@),
            _ => None,
        }
    }

    /// The 32-bit number that the named property holds.
    pub open spec fn u32_at(self, name: Seq<char>) -> Option<u32> {
        match property(self.properties@, name) {
            Some(Value::U32(n)) => Some(n),
            _ => None,
        }
    }

    /// The 64-bit number that the named property holds.
    pub open spec fn u64_at(self, name: Seq<char>) -> Option<u64> {
        match property(self.properties@, name) {
            Some(Value::U64(n)) => Some(n),
            _ => None,
        }
    }

    /// Looks a property up by name.
    pub fn get(&self, name: &str) -> (r: Option<&Value>)
        ensures
            match r {
                Some(value) => property(self.properties@, name@) == Some(*value),
                None => property(self.properties@, name@) is None,
            },
    {
        let mut i: usize = 0;
        while i < self.properties.len()
            invariant
                i <= self.properties@.len(),
                forall|j: int| 0 <= j < i ==> self.properties@[j].0@ != name@,
            decreases self.properties@.len() - i,
        {
            if same_text(self.properties[i].0.as_str(), name) {
                proof {
                    lemma_property_at(self.properties@, name@, i as int);
                }
                return Some(&self.properties[i].1);
            }
            i = i + 1;
        }
        proof {
            lemma_property_absent(self.properties@, name@);
        }
        None
    }

    /// The identifier that the named property holds, if it holds one.
    pub fn get_identifier(&self, name: &str) -> (r: Option<Identifier>)
        ensures
            r == self.identifier_at(name@),
    {
        match self.get(name) {
            Some(Value::Identifier(bytes)) => Some(Identifier { bytes: *bytes }),
            _ => None,
        }
    }

    /// The bytes that the named property holds, if it holds some.
    pub fn get_bytes(&self, name: &str) -> (r: Option<&Vec<u8>>)
        ensures
            match r {
                Some(bytes) => self.bytes_at(name@) == Some(bytes@),
                None => self.bytes_at(name@) is None,
            },
    {
        match self.get(name) {
            Some(Value::Bytes(bytes)) => Some(bytes),
            _ => None,
        }
    }

    /// A copy of the text that the named property holds, if it holds one.
    pub fn get_text(&self, name: &str) -> (r: Option<String>)
        ensures
            crate::text::optional_text(r) == self.text_at(name@),
    {
        match self.get(name) {
            Some(Value::Text(text)) => Some(text.clone()),
            _ => None,
        }
    }

    /// The 32-bit number that the named property holds, if it holds one.
    pub fn get_u32(&self, name: &str) -> (r: Option<u32>)
        ensures
            r == self.u32_at(name@),
    {
        match self.get(name) {
            Some(Value::U32(n)) => Some(*n),
            _ => None,
        }
    }

    /// The 64-bit number that the named property holds, if it holds one.
    pub fn get_u64(&self, name: &str) -> (r: Option<u64>)
        ensures
            r == self.u64_at(name@),
    {
        match self.get(name) {
            Some(Value::U64(n)) => Some(*n),
            _ => None,
        }
    }
}

} // verus!
