//! A deserialized, in-memory tree-representation of an XML node: the
//! structured attribute tree that the engine reads states from and writes
//! moves into. Reading and writing the textual form is the transport's job.

use vstd::prelude::*;
use crate::error::Error;

verus! {

/// A node of the attribute tree: a tag name, textual content, attributes in
/// insertion order, and child nodes in document order.
#[derive(Debug, PartialEq, Eq)]
pub struct Element {
    pub name: String,
    pub content: String,
    pub attributes: Vec<(String, String)>,
    pub childs: Vec<Element>,
}

/// The value of the first attribute with the given key, scanning the first
/// `k` attributes.
pub open spec fn attr_prefix(attrs: Seq<(String, String)>, key: Seq<char>, k: int) -> Option<
    Seq<char>,
>
    decreases k,
{
    if k <= 0 || k > attrs.len() {
        None
    } else if attrs[0].0@ == key {
        Some(attrs[0].1@)
    } else {
        attr_prefix(attrs.drop_first(), key, k - 1)
    }
}

/// The value of the first attribute with the given key.
pub open spec fn spec_attr(e: Element, key: Seq<char>) -> Option<Seq<char>> {
    attr_prefix(e.attributes@, key, e.attributes@.len() as int)
}

/// The first child with the given tag name, scanning from position `k`.
pub open spec fn child_from(childs: Seq<Element>, name: Seq<char>, k: int) -> Option<Element>
    decreases childs.len() - k,
{
    if k < 0 || k >= childs.len() {
        None
    } else if childs[k].name@ == name {
        Some(childs[k])
    } else {
        child_from(childs, name, k + 1)
    }
}

/// The first child with the given tag name.
pub open spec fn spec_child_by_name(e: Element, name: Seq<char>) -> Option<Element> {
    child_from(e.childs@, name, 0)
}

/// The children with the given tag name among the first `k`, in order.
pub open spec fn childs_prefix(childs: Seq<Element>, name: Seq<char>, k: int) -> Seq<Element>
    decreases k,
{
    if k <= 0 || k > childs.len() {
        Seq::empty()
    } else {
        let prev = childs_prefix(childs, name, k - 1);
        if childs[k - 1].name@ == name {
            prev.push(childs[k - 1])
        } else {
            prev
        }
    }
}

/// The children with the given tag name, in document order.
pub open spec fn spec_childs_by_name(e: Element, name: Seq<char>) -> Seq<Element> {
    childs_prefix(e.childs@, name, e.childs@.len() as int)
}

impl Element {
    /// Creates a new XML element builder.
    pub fn new(name: &str) -> (r: ElementBuilder)
        ensures
            r.name@ == name@,
            r.content@ == Seq::<char>::empty(),
            r.attributes@ == Seq::<(String, String)>::empty(),
            r.childs@ == Seq::<Element>::empty(),
    {
        ElementBuilder::new(name)
    }

    /// Fetches the node's tag name.
    pub fn name(&self) -> (r: &String)
        ensures
            r == &self.name,
    {
        &self.name
    }

    /// Fetches the node's textual contents.
    pub fn content(&self) -> (r: &String)
        ensures
            r == &self.content,
    {
        &self.content
    }

    /// Fetches an attribute's value by key.
    pub fn attribute(&self, key: &str) -> (r: Result<&String, Error>)
        ensures
            match r {
                Ok(v) => spec_attr(*self, key@) == Some(v@),
                Err(_) => spec_attr(*self, key@) is None,
            },
    {
        let key_string = key.to_owned();
        let n = self.attributes.len();
        proof {
            assert(self.attributes@.skip(0) =~= self.attributes@);
        }
        let mut i: usize = 0;
        while i < n
            invariant
                0 <= i <= n,
                n == self.attributes@.len(),
                key_string@ == key@,
                attr_prefix(self.attributes@, key@, n as int) == attr_prefix(
                    self.attributes@.skip(i as int),
                    key@,
                    n - i,
                ),
            decreases n - i,
        {
            proof {
                assert(self.attributes@.skip(i as int)[0] == self.attributes@[i as int]);
                assert(self.attributes@.skip(i as int).drop_first() =~= self.attributes@.skip(
                    i + 1,
                ));
            }
            if self.attributes[i].0 == key_string {
                return Ok(&self.attributes[i].1);
            }
            i = i + 1;
        }
        Err(Error::MissingAttribute(key.to_owned()))
    }

    /// Fetches the childs.
    pub fn childs(&self) -> (r: &Vec<Element>)
        ensures
            r == &self.childs,
    {
        &self.childs
    }

    /// Finds the first child element with the provided tag name.
    pub fn child_by_name(&self, name: &str) -> (r: Result<&Element, Error>)
        ensures
            match r {
                Ok(c) => spec_child_by_name(*self, name@) == Some(*c),
                Err(_) => spec_child_by_name(*self, name@) is None,
            },
    {
        let name_string = name.to_owned();
        let n = self.childs.len();
        let mut i: usize = 0;
        while i < n
            invariant
                0 <= i <= n,
                n == self.childs@.len(),
                name_string@ == name@,
                child_from(self.childs@, name@, 0) == child_from(self.childs@, name@, i as int),
            decreases n - i,
        {
            if self.childs[i].name == name_string {
                return Ok(&self.childs[i]);
            }
            i = i + 1;
        }
        Err(Error::MissingChild(name.to_owned()))
    }

    /// Fetches a list of all child elements matching the provided tag name.
    pub fn childs_by_name(&self, name: &str) -> (r: Vec<&Element>)
        ensures
            r@.len() == spec_childs_by_name(*self, name@).len(),
            forall|i: int|
                0 <= i < r@.len() ==> *(#[trigger] r@[i]) == spec_childs_by_name(*self, name@)[i],
    {
        let name_string = name.to_owned();
        let n = self.childs.len();
        let mut out: Vec<&Element> = Vec::new();
        let mut i: usize = 0;
        while i < n
            invariant
                0 <= i <= n,
                n == self.childs@.len(),
                name_string@ == name@,
                out@.len() == childs_prefix(self.childs@, name@, i as int).len(),
                forall|j: int|
                    0 <= j < out@.len() ==> *(#[trigger] out@[j]) == childs_prefix(
                        self.childs@,
                        name@,
                        i as int,
                    )[j],
            decreases n - i,
        {
            if self.childs[i].name == name_string {
                out.push(&self.childs[i]);
            }
            i = i + 1;
        }
        proof {
            assert(childs_prefix(self.childs@, name@, n as int) == spec_childs_by_name(
                *self,
                name@,
            ));
        }
        out
    }
}

/// A builder that makes the construction of new XML nodes more convenient.
#[derive(Debug)]
pub struct ElementBuilder {
    pub name: String,
    pub content: String,
    pub attributes: Vec<(String, String)>,
    pub childs: Vec<Element>,
}

impl ElementBuilder {
    /// Creates a new XML node builder with the specified tag name.
    pub fn new(name: &str) -> (r: ElementBuilder)
        ensures
            r.name@ == name@,
            r.content@ == Seq::<char>::empty(),
            r.attributes@ == Seq::<(String, String)>::empty(),
            r.childs@ == Seq::<Element>::empty(),
    {
        ElementBuilder {
            name: name.to_owned(),
            content: String::new(),
            attributes: Vec::new(),
            childs: Vec::new(),
        }
    }

    /// Sets the tag name of the XML node.
    pub fn name(self, name: &str) -> (r: ElementBuilder)
        ensures
            r.name@ == name@,
            r.content == self.content,
            r.attributes == self.attributes,
            r.childs == self.childs,
    {
        ElementBuilder { name: name.to_owned(), ..self }
    }

    /// Sets the contents of the XML node.
    pub fn content(self, data: &str) -> (r: ElementBuilder)
        ensures
            r.name == self.name,
            r.content@ == data@,
            r.attributes == self.attributes,
            r.childs == self.childs,
    {
        ElementBuilder { content: data.to_owned(), ..self }
    }

    /// Adds the specified attribute.
    pub fn attribute(self, key: &str, value: &str) -> (r: ElementBuilder)
        ensures
            r.name == self.name,
            r.content == self.content,
            r.attributes@.len() == self.attributes@.len() + 1,
            r.attributes@.last().0@ == key@,
            r.attributes@.last().1@ == value@,
            r.attributes@.drop_last() == self.attributes@,
            r.childs == self.childs,
    {
        let mut attributes = self.attributes;
        attributes.push((key.to_owned(), value.to_owned()));
        ElementBuilder { attributes, ..self }
    }

    /// Adds the specified attributes.
    pub fn attributes(self, mut more: Vec<(String, String)>) -> (r: ElementBuilder)
        ensures
            r.name == self.name,
            r.content == self.content,
            r.attributes@ == self.attributes@ + more@,
            r.childs == self.childs,
    {
        let mut attributes = self.attributes;
        let ghost base = attributes@;
        let ghost more0 = more@;
        let n = more.len();
        let mut i: usize = 0;
        while i < n
            invariant
                0 <= i <= n,
                n == more0.len(),
                more@ =~= more0.skip(i as int),
                attributes@ =~= base + more0.take(i as int),
            decreases n - i,
        {
            proof {
                assert(more@[0] == more0[i as int]);
                assert(more@.remove(0) =~= more0.skip(i + 1));
            }
            let pair = more.remove(0);
            attributes.push(pair);
            proof {
                assert(more0.take(i + 1) =~= more0.take(i as int).push(more0[i as int]));
                assert(attributes@ =~= base + more0.take(i + 1));
            }
            i = i + 1;
        }
        proof {
            assert(more0.take(n as int) =~= more0);
            assert(attributes@ =~= base + more0);
        }
        ElementBuilder { attributes, ..self }
    }

    /// Adds the specified child.
    pub fn child(self, child: Element) -> (r: ElementBuilder)
        ensures
            r.name == self.name,
            r.content == self.content,
            r.attributes == self.attributes,
            r.childs@ == self.childs@.push(child),
    {
        let mut childs = self.childs;
        childs.push(child);
        ElementBuilder { childs, ..self }
    }

    /// Adds the specified children.
    pub fn childs(self, mut more: Vec<Element>) -> (r: ElementBuilder)
        ensures
            r.name == self.name,
            r.content == self.content,
            r.attributes == self.attributes,
            r.childs@ == self.childs@ + more@,
    {
        let mut childs = self.childs;
        let ghost base = childs@;
        let ghost more0 = more@;
        let n = more.len();
        let mut i: usize = 0;
        while i < n
            invariant
                0 <= i <= n,
                n == more0.len(),
                more@ =~= more0.skip(i as int),
                childs@ =~= base + more0.take(i as int),
            decreases n - i,
        {
            proof {
                assert(more@[0] == more0[i as int]);
                assert(more@.remove(0) =~= more0.skip(i + 1));
            }
            let c = more.remove(0);
            childs.push(c);
            proof {
                assert(more0.take(i + 1) =~= more0.take(i as int).push(more0[i as int]));
                assert(childs@ =~= base + more0.take(i + 1));
            }
            i = i + 1;
        }
        proof {
            assert(more0.take(n as int) =~= more0);
            assert(childs@ =~= base + more0);
        }
        ElementBuilder { childs, ..self }
    }

    /// Adds the specified child if present.
    pub fn option_child(self, child: Option<Element>) -> (r: ElementBuilder)
        ensures
            r.name == self.name,
            r.content == self.content,
            r.attributes == self.attributes,
            r.childs@ == (match child {
                Some(c) => self.childs@.push(c),
                None => self.childs@,
            }),
    {
        match child {
            Some(c) => self.child(c),
            None => self,
        }
    }

    /// Builds the XML node.
    pub fn build(self) -> (r: Element)
        ensures
            r.name == self.name,
            r.content == self.content,
            r.attributes == self.attributes,
            r.childs == self.childs,
    {
        Element {
            name: self.name,
            content: self.content,
            attributes: self.attributes,
            childs: self.childs,
        }
    }
}

} // verus!
