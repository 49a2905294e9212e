//! Cached document nodes: an element with a tag and attributes, or plain
//! text.  Attribute updates keep one entry per name.

use vstd::prelude::*;

verus! {

/// A cached node: an element with attributes, or text.
#[derive(Debug)]
pub enum NodeData {
    /// An element with a tag name and its attributes.
    Elem {
        /// The tag name.
        tag: String,
        /// The attributes, one entry per name.
        attrs: Vec<(String, String)>,
    },
    /// A text node.
    Text(String),
}

/// The index of the first attribute named `k`, or the length if there is
/// none.
pub open spec fn key_index(s: Seq<(String, String)>, k: Seq<char>) -> int
    decreases s.len(),
{
    if s.len() == 0 {
        0
    } else if s[0].0@ == k {
        0
    } else {
        1 + key_index(s.skip(1), k)
    }
}

/// The first key index is within bounds, names `k` where it is inside,
/// and nothing before it names `k`.
pub proof fn lemma_key_index_props(s: Seq<(String, String)>, k: Seq<char>)
    ensures
        0 <= key_index(s, k) <= s.len(),
        key_index(s, k) < s.len() ==> s[key_index(s, k)].0@ == k,
        forall|i: int| 0 <= i < key_index(s, k) ==> (#[trigger] s[i]).0@ != k,
    decreases s.len(),
{
    if s.len() > 0 && s[0].0@ != k {
        lemma_key_index_props(s.skip(1), k);
        assert(forall|i: int| 0 <= i < key_index(s, k) ==> (#[trigger] s[i]).0@ != k) by {
            assert(forall|i: int|
                1 <= i < key_index(s, k) ==> s[i] == s.skip(1)[i - 1] && (#[trigger] s[i]) == s.skip(
                    1,
                )[i - 1]);
        }
    }
}

impl NodeData {
    /// A fresh element with the given tag and no attributes.
    pub fn new(tag: &str) -> (r: Self)
        ensures
            r matches NodeData::Elem { tag: t, attrs } && t@ == tag@ && attrs@
                == Seq::<(String, String)>::empty(),
    {
        NodeData::Elem { tag: tag.to_owned(), attrs: Vec::new() }
    }

    /// Whether the node is an element.
    pub open spec fn is_elem(self) -> bool {
        self is Elem
    }

    /// The node's attributes.
    pub open spec fn attrs_view(self) -> Seq<(String, String)> {
        self->Elem_attrs@
    }

    /// Set the attribute `name` to `value`: replace the value of the
    /// first entry of that name, or append a new entry.
    pub fn set_attribute(&mut self, name: &str, value: &str)
        requires
            old(self).is_elem(),
        ensures
            final(self).is_elem(),
            final(self)->Elem_tag == old(self)->Elem_tag,
            ({
                let s = old(self).attrs_view();
                let i = key_index(s, name@);
                if i < s.len() {
                    &&& final(self).attrs_view().len() == s.len()
                    &&& final(self).attrs_view()[i].0 == s[i].0
                    &&& final(self).attrs_view()[i].1@ == value@
                    &&& forall|j: int|
                        0 <= j < s.len() && j != i ==> #[trigger] final(self).attrs_view()[j]
                            == s[j]
                } else {
                    &&& final(self).attrs_view().len() == s.len() + 1
                    &&& final(self).attrs_view()[i].0@ == name@
                    &&& final(self).attrs_view()[i].1@ == value@
                    &&& forall|j: int|
                        0 <= j < s.len() ==> #[trigger] final(self).attrs_view()[j] == s[j]
                }
            }),
    {
        let ghost s = self.attrs_view();
        proof {
            lemma_key_index_props(s, name@);
        }
        let name_s = name.to_owned();
        let mut tmp = NodeData::Text(String::new());
        core::mem::swap(self, &mut tmp);
        match tmp {
            NodeData::Elem { tag, attrs } => {
                let mut attrs = attrs;
                let n = attrs.len();
                let mut j: usize = 0;
                let mut found = false;
                while j < n && !found
                    invariant
                        n == s.len(),
                        j <= n,
                        name_s@ == name@,
                        found ==> {
                            &&& key_index(s, name@) == j - 1
                            &&& attrs@.len() == s.len()
                            &&& attrs@[j - 1].0 == s[j - 1].0
                            &&& attrs@[j - 1].1@ == value@
                            &&& forall|x: int|
                                0 <= x < s.len() && x != j - 1 ==> #[trigger] attrs@[x] == s[x]
                        },
                        !found ==> attrs@ == s && forall|x: int|
                            0 <= x < j ==> (#[trigger] s[x]).0@ != name@,
                    decreases n - j, (if found { 0int } else { 1int }),
                {
                    if attrs[j].0 == name_s {
                        proof {
                            assert(key_index(s, name@) == j as int) by {
                                lemma_key_index_props(s, name@);
                                if key_index(s, name@) < j as int {
                                    assert(s[key_index(s, name@)].0@ != name@);
                                }
                            }
                        }
                        let pair = &mut attrs[j];
                        pair.1 = value.to_owned();
                        found = true;
                    }
                    j += 1;
                }
                if !found {
                    proof {
                        assert(key_index(s, name@) == s.len()) by {
                            lemma_key_index_props(s, name@);
                            if key_index(s, name@) < s.len() {
                                assert(s[key_index(s, name@)].0@ != name@);
                            }
                        }
                    }
                    attrs.push((name.to_owned(), value.to_owned()));
                }
                let mut built = NodeData::Elem { tag, attrs };
                core::mem::swap(self, &mut built);
            },
            NodeData::Text(_) => {
                proof {
                    assert(false);
                }
            },
        }
    }

    /// The value of the attribute `name`, if there is one.
    pub fn get_attribute(&self, name: &str) -> (r: Option<&String>)
        ensures
            self is Text ==> r is None,
            self.is_elem() ==> {
                let s = self.attrs_view();
                let i = key_index(s, name@);
                if i < s.len() {
                    r matches Some(v) && *v == s[i].1
                } else {
                    r is None
                }
            },
    {
        let ghost s = self.attrs_view();
        proof {
            lemma_key_index_props(s, name@);
        }
        let name_s = name.to_owned();
        match self {
            NodeData::Text(_) => None,
            NodeData::Elem { tag: _, attrs } => {
                let n = attrs.len();
                let mut j: usize = 0;
                while j < n
                    invariant
                        self.is_elem(),
                        s == self.attrs_view(),
                        n == attrs@.len(),
                        j <= n,
                        name_s@ == name@,
                        attrs@ == s,
                        forall|x: int| 0 <= x < j ==> (#[trigger] s[x]).0@ != name@,
                    decreases n - j,
                {
                    if attrs[j].0 == name_s {
                        proof {
                            assert(key_index(s, name@) == j as int) by {
                                lemma_key_index_props(s, name@);
                                if key_index(s, name@) < j as int {
                                    assert(s[key_index(s, name@)].0@ != name@);
                                }
                            }
                        }
                        let pair = &attrs[j];
                        proof {
                            assert(*pair == s[j as int]);
                            assert(pair.1 == s[j as int].1);
                        }
                        return Some(&pair.1);
                    }
                    j += 1;
                }
                proof {
                    assert(key_index(s, name@) == s.len()) by {
                        lemma_key_index_props(s, name@);
                        if key_index(s, name@) < s.len() {
                            assert(s[key_index(s, name@)].0@ != name@);
                        }
                    }
                }
                None
            },
        }
    }
}

} // verus!
