//! A cross-frame store of per-node data, keyed by an identity and a type
//! tag combined into one hash.

use vstd::prelude::*;

use std::collections::HashMap;

verus! {

broadcast use vstd::std_specs::hash::group_hash_axioms;

/// A store identity.
#[derive(Debug, Clone, Copy, Hash, Eq, PartialEq, Structural)]
pub struct Id(pub u64);

impl Id {
    /// A short, readable summary: the low sixteen bits as four uppercase
    /// hexadecimal digits.
    pub fn short_debug_format(&self) -> (r: String)
        ensures
            r@ == seq![
                hex_char_spec(((self.0 as u16) >> 12) & 0xf),
                hex_char_spec(((self.0 as u16) >> 8) & 0xf),
                hex_char_spec(((self.0 as u16) >> 4) & 0xf),
                hex_char_spec((self.0 as u16) & 0xf),
            ],
    {
        let v = self.0 as u16;
        proof {
            assert(((v >> 12) & 0xf) < 16) by (bit_vector);
            assert(((v >> 8) & 0xf) < 16) by (bit_vector);
            assert(((v >> 4) & 0xf) < 16) by (bit_vector);
            assert((v & 0xf) < 16) by (bit_vector);
        }
        let mut out = String::new();
        out.append(hex_digit_str((v >> 12) & 0xf));
        out.append(hex_digit_str((v >> 8) & 0xf));
        out.append(hex_digit_str((v >> 4) & 0xf));
        out.append(hex_digit_str(v & 0xf));
        proof {
            assert(out@ =~= seq![
                hex_char_spec(((self.0 as u16) >> 12) & 0xf),
                hex_char_spec(((self.0 as u16) >> 8) & 0xf),
                hex_char_spec(((self.0 as u16) >> 4) & 0xf),
                hex_char_spec((self.0 as u16) & 0xf),
            ]);
        }
        out
    }

    /// The raw identity value.
    pub fn value(&self) -> (v: u64)
        ensures
            v == self.0,
    {
        self.0
    }
}

/// The uppercase hexadecimal digit of a value below sixteen.
pub open spec fn hex_char_spec(d: u16) -> char {
    if d == 0 {
        '0'
    } else if d == 1 {
        '1'
    } else if d == 2 {
        '2'
    } else if d == 3 {
        '3'
    } else if d == 4 {
        '4'
    } else if d == 5 {
        '5'
    } else if d == 6 {
        '6'
    } else if d == 7 {
        '7'
    } else if d == 8 {
        '8'
    } else if d == 9 {
        '9'
    } else if d == 10 {
        'A'
    } else if d == 11 {
        'B'
    } else if d == 12 {
        'C'
    } else if d == 13 {
        'D'
    } else if d == 14 {
        'E'
    } else {
        'F'
    }
}

/// The uppercase hexadecimal digit of a value below sixteen, as a
/// one-character string.
fn hex_digit_str(d: u16) -> (r: &'static str)
    requires
        d < 16,
    ensures
        r@ =~= seq![hex_char_spec(d)],
{
    if d == 0 {
        proof {
            reveal_strlit("0");
        }
        "0"
    } else if d == 1 {
        proof {
            reveal_strlit("1");
        }
        "1"
    } else if d == 2 {
        proof {
            reveal_strlit("2");
        }
        "2"
    } else if d == 3 {
        proof {
            reveal_strlit("3");
        }
        "3"
    } else if d == 4 {
        proof {
            reveal_strlit("4");
        }
        "4"
    } else if d == 5 {
        proof {
            reveal_strlit("5");
        }
        "5"
    } else if d == 6 {
        proof {
            reveal_strlit("6");
        }
        "6"
    } else if d == 7 {
        proof {
            reveal_strlit("7");
        }
        "7"
    } else if d == 8 {
        proof {
            reveal_strlit("8");
        }
        "8"
    } else if d == 9 {
        proof {
            reveal_strlit("9");
        }
        "9"
    } else if d == 10 {
        proof {
            reveal_strlit("A");
        }
        "A"
    } else if d == 11 {
        proof {
            reveal_strlit("B");
        }
        "B"
    } else if d == 12 {
        proof {
            reveal_strlit("C");
        }
        "C"
    } else if d == 13 {
        proof {
            reveal_strlit("D");
        }
        "D"
    } else if d == 14 {
        proof {
            reveal_strlit("E");
        }
        "E"
    } else {
        proof {
            reveal_strlit("F");
        }
        "F"
    }
}

/// A tag standing for a stored value's type; the host computes it from
/// the type's runtime identity.
#[derive(Clone, Copy, Debug, Eq, PartialEq, Hash, Structural)]
pub struct TypeId(pub u64);

impl TypeId {
    /// Make a tag from a raw value.
    pub fn new(v: u64) -> (r: Self)
        ensures
            r.0 == v,
    {
        TypeId(v)
    }

    /// The raw tag value.
    pub fn value(&self) -> (v: u64)
        ensures
            v == self.0,
    {
        self.0
    }
}

/// The store key of a type tag and an identity.
pub fn hash(type_id: TypeId, id: Id) -> (r: u64)
    ensures
        r == type_id.0 ^ id.0,
{
    type_id.0 ^ id.0
}

/// A store of values keyed by identity and type tag.  One store holds
/// values of one type; the type tag keeps entries of different declared
/// types apart, as in the box-of-anything original.
pub struct IdTypeMap<V> {
    /// The stored values, keyed by the combined hash.
    pub memory: HashMap<u64, V>,
}

impl<V> IdTypeMap<V> {
    /// An empty store.
    pub fn new() -> (r: Self)
        ensures
            r.memory@ == Map::<u64, V>::empty(),
    {
        IdTypeMap { memory: HashMap::new() }
    }

    /// Store `value` under the identity and the type tag, replacing any
    /// earlier entry.
    pub fn insert_memory(&mut self, type_id: TypeId, id: Id, value: V)
        ensures
            final(self).memory@ == old(self).memory@.insert(type_id.0 ^ id.0, value),
    {
        let h = hash(type_id, id);
        self.memory.insert(h, value);
    }

    /// Look up the entry under the identity and the type tag.
    pub fn get_memory(&self, type_id: TypeId, id: Id) -> (r: Option<&V>)
        ensures
            match r {
                Some(v) => self.memory@.contains_key(type_id.0 ^ id.0) && *v == self.memory@[
                    type_id.0 ^ id.0],
                None => !self.memory@.contains_key(type_id.0 ^ id.0),
            },
    {
        let h = hash(type_id, id);
        self.memory.get(&h)
    }
}

} // verus!
