use vstd::prelude::*;

use crate::sensitivity::str_eq;

verus! {

/// A namespace-qualified name: namespace URI (empty for none) and local name.
pub struct QualName {
    pub ns: String,
    pub local: String,
}

/// One attribute of an element: its qualified name and its value.
pub struct Attribute {
    pub name: QualName,
    pub value: String,
}

/// What an element carries: its tag name, its attributes in document order,
/// the cached value of its id attribute and its class tokens.
pub struct ElementData {
    pub name: QualName,
    pub attrs: Vec<Attribute>,
    pub id: Option<String>,
    pub classes: Vec<String>,
}

/// The class tokens of an attribute value, as `str::split_whitespace` cuts them.
pub uninterp spec fn whitespace_tokens(s: Seq<char>) -> Seq<Seq<char>>;

/// Relies on `str::split_whitespace`: the pieces of `s` between runs of white
/// space, in order, each copied into a `String`.
#[verifier::external_body]
fn split_whitespace(s: &str) -> (r: Vec<String>)
    ensures
        r@.map_values(|t: String| t@) == whitespace_tokens(s@),
{
    s.split_whitespace().map(String::from).collect()
}

/// Whether the attribute is named `id`, in whatever namespace.
pub open spec fn is_id_attr(a: Attribute) -> bool {
    a.name.local@ == "id"@
}

/// The class tokens of every attribute named `class`, in attribute order.
pub open spec fn class_tokens(attrs: Seq<Attribute>) -> Seq<Seq<char>>
    decreases attrs.len(),
{
    if attrs.len() == 0 {
        Seq::empty()
    } else {
        let rest = class_tokens(attrs.drop_last());
        if attrs.last().name.local@ == "class"@ {
            rest + whitespace_tokens(attrs.last().value@)
        } else {
            rest
        }
    }
}

impl ElementData {
    /// An element named `name` with attributes `attrs`: its id is the value
    /// of the first attribute named `id`, its classes the tokens of the
    /// attributes named `class`.
    pub fn new(name: QualName, attrs: Vec<Attribute>) -> (r: ElementData)
        ensures
            r.name == name,
            r.attrs == attrs,
            r.id matches Some(v) ==> exists|i: int|
                0 <= i < attrs@.len() && is_id_attr(#[trigger] attrs@[i]) && v@ == attrs@[i].value@
                    && forall|j: int| 0 <= j < i ==> !is_id_attr(#[trigger] attrs@[j]),
            r.id is None ==> forall|i: int| 0 <= i < attrs@.len() ==> !is_id_attr(#[trigger] attrs@[i]),
            r.classes@.map_values(|c: String| c@) == class_tokens(attrs@),
    {
        let mut id: Option<String> = None;
        let mut i: usize = 0;
        while i < attrs.len()
            invariant_except_break
                id is None,
            invariant
                i <= attrs@.len(),
                forall|j: int| 0 <= j < i ==> !is_id_attr(#[trigger] attrs@[j]),
            ensures
                id is None ==> i == attrs@.len(),
                id matches Some(v) ==> i < attrs@.len() && is_id_attr(attrs@[i as int]) && v@ == attrs@[i as int].value@,
            decreases attrs@.len() - i,
        {
            if str_eq(attrs[i].name.local.as_str(), "id") {
                id = Some(attrs[i].value.clone());
                assert(is_id_attr(attrs@[i as int]));
                break;
            }
            i += 1;
        }
        let mut classes: Vec<String> = Vec::new();
        let mut k: usize = 0;
        while k < attrs.len()
            invariant
                k <= attrs@.len(),
                classes@.map_values(|c: String| c@) == class_tokens(attrs@.subrange(0, k as int)),
            decreases attrs@.len() - k,
        {
            let ghost before = classes@;
            proof {
                assert(attrs@.subrange(0, k + 1).drop_last() =~= attrs@.subrange(0, k as int));
                assert(attrs@.subrange(0, k + 1).last() == attrs@[k as int]);
            }
            if str_eq(attrs[k].name.local.as_str(), "class") {
                let mut tokens = split_whitespace(attrs[k].value.as_str());
                let ghost added = tokens@;
                classes.append(&mut tokens);
                assert(classes@.map_values(|c: String| c@) =~= before.map_values(|c: String| c@)
                    + added.map_values(|c: String| c@));
            }
            k += 1;
        }
        assert(attrs@.subrange(0, attrs@.len() as int) =~= attrs@);
        ElementData { name, attrs, id, classes }
    }
}

/// The kinds of node a document tree holds.
pub enum NodeKind {
    Document,
    Fragment,
    Doctype(String),
    Comment(String),
    Text(String),
    ProcessingInstruction { target: String, data: String },
    Element(ElementData),
}

/// A document tree stored as an arena: node `i` has kind `kinds[i]` and its
/// links to parent, siblings and first and last child are indices into the
/// same arena. Nodes are only ever appended, so every link to a parent or to
/// an earlier sibling points to a lower index, every link to a child or a
/// later sibling to a higher one.
pub struct Tree {
    pub kinds: Vec<NodeKind>,
    pub parent: Vec<Option<usize>>,
    pub prev_sibling: Vec<Option<usize>>,
    pub next_sibling: Vec<Option<usize>>,
    pub first_child: Vec<Option<usize>>,
    pub last_child: Vec<Option<usize>>,
}

impl Tree {
    pub open spec fn len(&self) -> nat {
        self.kinds@.len()
    }

    /// The links of node `i` are consistent with the rest of the tree.
    pub open spec fn node_wf(&self, i: int) -> bool {
        let n = self.len() as int;
        &&& (self.parent@[i] matches Some(p) ==> p < i)
        &&& (self.parent@[i] is None ==> self.prev_sibling@[i] is None && self.next_sibling@[i] is None)
        &&& (self.prev_sibling@[i] matches Some(j) ==> {
            &&& j < i
            &&& self.parent@[j as int] == self.parent@[i]
            &&& self.next_sibling@[j as int] == Some(i as usize)
        })
        &&& (self.next_sibling@[i] matches Some(j) ==> {
            &&& i < j < n
            &&& self.parent@[j as int] == self.parent@[i]
            &&& self.prev_sibling@[j as int] == Some(i as usize)
        })
        &&& (self.first_child@[i] matches Some(c) ==> {
            &&& i < c < n
            &&& self.parent@[c as int] == Some(i as usize)
            &&& self.prev_sibling@[c as int] is None
        })
        &&& (self.last_child@[i] matches Some(c) ==> {
            &&& i < c < n
            &&& self.parent@[c as int] == Some(i as usize)
            &&& self.next_sibling@[c as int] is None
        })
        &&& (self.first_child@[i] is None <==> self.last_child@[i] is None)
    }

    pub open spec fn wf(&self) -> bool {
        &&& self.parent@.len() == self.len()
        &&& self.prev_sibling@.len() == self.len()
        &&& self.next_sibling@.len() == self.len()
        &&& self.first_child@.len() == self.len()
        &&& self.last_child@.len() == self.len()
        &&& forall|i: int| 0 <= i < self.len() ==> #[trigger] self.node_wf(i)
    }

    /// A tree holding only its root node, at index 0.
    pub fn new(root: NodeKind) -> (r: Tree)
        ensures
            r.wf(),
            r.kinds@ == seq![root],
            r.parent@ == seq![None::<usize>],
            r.prev_sibling@ == seq![None::<usize>],
            r.next_sibling@ == seq![None::<usize>],
            r.first_child@ == seq![None::<usize>],
            r.last_child@ == seq![None::<usize>],
    {
        let r = Tree {
            kinds: vec![root],
            parent: vec![None],
            prev_sibling: vec![None],
            next_sibling: vec![None],
            first_child: vec![None],
            last_child: vec![None],
        };
        assert(r.node_wf(0));
        assert(r.kinds@ =~= seq![root]);
        r
    }

    /// Appends a new node of kind `kind` as the last child of `parent` and
    /// returns its index.
    pub fn append(&mut self, parent: usize, kind: NodeKind) -> (r: usize)
        requires
            old(self).wf(),
            parent < old(self).len(),
            old(self).len() < usize::MAX,
        ensures
            final(self).wf(),
            r == old(self).len(),
            final(self).kinds@ == old(self).kinds@.push(kind),
            final(self).parent@ == old(self).parent@.push(Some(parent)),
            final(self).prev_sibling@ == old(self).prev_sibling@.push(old(self).last_child@[parent as int]),
            final(self).next_sibling@ == (match old(self).last_child@[parent as int] {
                Some(l) => old(self).next_sibling@.update(l as int, Some(r)),
                None => old(self).next_sibling@,
            }).push(None),
            final(self).first_child@ == (match old(self).last_child@[parent as int] {
                Some(_) => old(self).first_child@,
                None => old(self).first_child@.update(parent as int, Some(r)),
            }).push(None),
            final(self).last_child@ == old(self).last_child@.update(parent as int, Some(r)).push(None),
    {
        let r = self.kinds.len();
        let last = self.last_child[parent];
        proof {
            assert(self.node_wf(parent as int));
        }
        match last {
            Some(l) => {
                self.next_sibling.set(l, Some(r));
            },
            None => {
                self.first_child.set(parent, Some(r));
            },
        }
        self.last_child.set(parent, Some(r));
        self.kinds.push(kind);
        self.parent.push(Some(parent));
        self.prev_sibling.push(last);
        self.next_sibling.push(None);
        self.first_child.push(None);
        self.last_child.push(None);
        assert forall|i: int| 0 <= i < self.len() implies #[trigger] self.node_wf(i) by {
            if i < r {
                assert(old(self).node_wf(i));
            }
        }
        r
    }
}

} // verus!
