use vstd::prelude::*;

use crate::sensitivity::{
    ascii_fold_equal, map_b_to_cs, names_eq, names_equal, sensitivity_of, str_eq, CaseSensitivity,
};
use crate::tree::{Attribute, ElementData, NodeKind, Tree};

verus! {

/// The namespace URI of HTML elements.
pub const HTML_NAMESPACE: &'static str = "http://www.w3.org/1999/xhtml";

/// Which namespaces an attribute lookup accepts.
pub enum NamespaceConstraint {
    Any,
    Specific(String),
}

/// An equality-only token for one node of one tree.
#[derive(Clone, Copy, Debug, PartialEq, Eq, Structural)]
pub struct OpaqueElement {
    pub node: usize,
}

/// Whether the constraint accepts an attribute in namespace `ns`.
pub open spec fn namespace_allows(c: NamespaceConstraint, ns: Seq<char>) -> bool {
    match c {
        NamespaceConstraint::Any => true,
        NamespaceConstraint::Specific(url) => url@ == ns,
    }
}

/// Whether an attribute lookup for `local` under constraint `c` selects `a`.
pub open spec fn attr_selected(a: Attribute, c: NamespaceConstraint, local: Seq<char>) -> bool {
    namespace_allows(c, a.name.ns@) && a.name.local@ == local
}

/// Whether the element's id equals `id` under the policy; no id never matches.
pub open spec fn id_matches(e: ElementData, id: Seq<char>, cs: CaseSensitivity) -> bool {
    match e.id {
        Some(v) => names_equal(cs, id, v@),
        None => false,
    }
}

/// Whether one of the element's class tokens equals `name` under the policy.
pub open spec fn class_matches(e: ElementData, name: Seq<char>, cs: CaseSensitivity) -> bool {
    exists|i: int| 0 <= i < e.classes@.len() && names_equal(cs, #[trigger] e.classes@[i]@, name)
}

/// A non-owning view of one element node of a tree, as a selector matcher
/// queries it.
#[derive(Clone, Copy)]
pub struct ElementRef<'a> {
    pub tree: &'a Tree,
    pub node: usize,
    pub data: &'a ElementData,
}

/// A view of an element that takes the comparison policy as a boolean.
pub struct ShieldedElmRef<'a>(pub &'a ElementRef<'a>);

impl Tree {
    /// The first element met walking forward from node `j` along sibling
    /// links, `j` itself included.
    pub open spec fn element_forward(&self, j: int) -> Option<int>
        decreases self.len() - j,
    {
        if 0 <= j < self.len() {
            if self.kinds@[j] is Element {
                Some(j)
            } else {
                match self.next_sibling@[j] {
                    Some(k) => if j < k < self.len() {
                        self.element_forward(k as int)
                    } else {
                        None
                    },
                    None => None,
                }
            }
        } else {
            None
        }
    }

    /// The first element met walking backward from node `j` along sibling
    /// links, `j` itself included.
    pub open spec fn element_backward(&self, j: int) -> Option<int>
        decreases j,
    {
        if 0 <= j < self.len() {
            if self.kinds@[j] is Element {
                Some(j)
            } else {
                match self.prev_sibling@[j] {
                    Some(k) => if k < j {
                        self.element_backward(k as int)
                    } else {
                        None
                    },
                    None => None,
                }
            }
        } else {
            None
        }
    }

    /// Whether node `j` or a later sibling of it is an element or a text node.
    pub open spec fn content_forward(&self, j: int) -> bool
        decreases self.len() - j,
    {
        if 0 <= j < self.len() {
            if self.kinds@[j] is Element || self.kinds@[j] is Text {
                true
            } else {
                match self.next_sibling@[j] {
                    Some(k) => if j < k < self.len() {
                        self.content_forward(k as int)
                    } else {
                        false
                    },
                    None => false,
                }
            }
        } else {
            false
        }
    }
}

impl<'a> ElementRef<'a> {
    /// The reference points at an element node of a well-formed tree.
    pub open spec fn wf(&self) -> bool {
        &&& self.tree.wf()
        &&& self.node < self.tree.len()
        &&& self.tree.kinds@[self.node as int] == NodeKind::Element(*self.data)
    }

    /// The first element among the later siblings.
    pub open spec fn next_element_index(&self) -> Option<int> {
        match self.tree.next_sibling@[self.node as int] {
            Some(k) => self.tree.element_forward(k as int),
            None => None,
        }
    }

    /// The nearest element among the earlier siblings.
    pub open spec fn prev_element_index(&self) -> Option<int> {
        match self.tree.prev_sibling@[self.node as int] {
            Some(k) => self.tree.element_backward(k as int),
            None => None,
        }
    }

    /// Whether the element has a parent and that parent is the document node.
    pub open spec fn is_root_spec(&self) -> bool {
        match self.tree.parent@[self.node as int] {
            Some(p) => self.tree.kinds@[p as int] is Document,
            None => false,
        }
    }

    /// Whether no child of the element is an element or a text node.
    pub open spec fn is_empty_spec(&self) -> bool {
        match self.tree.first_child@[self.node as int] {
            Some(c) => !self.tree.content_forward(c as int),
            None => true,
        }
    }

    /// Views node `node` as an element, if it is one.
    pub fn wrap(tree: &'a Tree, node: usize) -> (r: Option<ElementRef<'a>>)
        requires
            tree.wf(),
            node < tree.len(),
        ensures
            r is Some <==> tree.kinds@[node as int] is Element,
            r matches Some(e) ==> e.wf() && e.tree == tree && e.node == node,
    {
        match &tree.kinds[node] {
            NodeKind::Element(data) => Some(ElementRef { tree, node, data }),
            _ => None,
        }
    }

    /// The element's data: name, attributes, id and classes.
    pub fn value(&self) -> (r: &'a ElementData)
        requires
            self.wf(),
        ensures
            *r == *self.data,
    {
        self.data
    }

    /// The identity token of the node, equal for two views of one node.
    pub fn opaque(&self) -> (r: OpaqueElement)
        requires
            self.wf(),
        ensures
            r.node == self.node,
    {
        OpaqueElement { node: self.node }
    }

    /// The parent node, when it is an element.
    pub fn parent_element(&self) -> (r: Option<ElementRef<'a>>)
        requires
            self.wf(),
        ensures
            r is Some <==> (self.tree.parent@[self.node as int] matches Some(p)
                && self.tree.kinds@[p as int] is Element),
            r matches Some(e) ==> e.wf() && e.tree == self.tree
                && self.tree.parent@[self.node as int] == Some(e.node),
    {
        proof {
            assert(self.tree.node_wf(self.node as int));
        }
        match self.tree.parent[self.node] {
            Some(p) => ElementRef::wrap(self.tree, p),
            None => None,
        }
    }

    pub fn parent_node_is_shadow_root(&self) -> (r: bool)
        ensures
            !r,
    {
        false
    }

    pub fn containing_shadow_host(&self) -> (r: Option<ElementRef<'a>>)
        ensures
            r is None,
    {
        None
    }

    pub fn is_pseudo_element(&self) -> (r: bool)
        ensures
            !r,
    {
        false
    }

    pub fn is_part(&self, _name: &String) -> (r: bool)
        ensures
            !r,
    {
        false
    }

    /// Whether both elements have the same local tag name; namespaces are
    /// left to `has_namespace`.
    pub fn is_same_type(&self, other: &ElementRef) -> (r: bool)
        requires
            self.wf(),
            other.wf(),
        ensures
            r == (self.data.name.local@ == other.data.name.local@),
    {
        self.data.name.local == other.data.name.local
    }

    pub fn exported_part(&self, _name: &String) -> (r: Option<String>)
        ensures
            r is None,
    {
        None
    }

    pub fn imported_part(&self, _name: &String) -> (r: Option<String>)
        ensures
            r is None,
    {
        None
    }

    /// The nearest earlier sibling that is an element.
    pub fn prev_sibling_element(&self) -> (r: Option<ElementRef<'a>>)
        requires
            self.wf(),
        ensures
            match r {
                Some(e) => e.wf() && e.tree == self.tree && self.prev_element_index() == Some(e.node as int),
                None => self.prev_element_index() is None,
            },
    {
        proof {
            assert(self.tree.node_wf(self.node as int));
        }
        let mut cur = self.tree.prev_sibling[self.node];
        loop
            invariant
                self.wf(),
                cur matches Some(k) ==> k < self.tree.len(),
                self.prev_element_index() == match cur {
                    Some(k) => self.tree.element_backward(k as int),
                    None => None,
                },
            decreases match cur {
                Some(k) => k + 1,
                None => 0,
            },
        {
            let k = match cur {
                Some(k) => k,
                None => return None,
            };
            proof {
                assert(self.tree.node_wf(k as int));
            }
            if let NodeKind::Element(data) = &self.tree.kinds[k] {
                return Some(ElementRef { tree: self.tree, node: k, data });
            }
            cur = self.tree.prev_sibling[k];
        }
    }

    /// The nearest later sibling that is an element.
    pub fn next_sibling_element(&self) -> (r: Option<ElementRef<'a>>)
        requires
            self.wf(),
        ensures
            match r {
                Some(e) => e.wf() && e.tree == self.tree && self.next_element_index() == Some(e.node as int),
                None => self.next_element_index() is None,
            },
    {
        proof {
            assert(self.tree.node_wf(self.node as int));
        }
        let mut cur = self.tree.next_sibling[self.node];
        loop
            invariant
                self.wf(),
                cur matches Some(k) ==> k < self.tree.len(),
                self.next_element_index() == match cur {
                    Some(k) => self.tree.element_forward(k as int),
                    None => None,
                },
            decreases match cur {
                Some(k) => self.tree.len() - k,
                None => 0,
            },
        {
            let k = match cur {
                Some(k) => k,
                None => return None,
            };
            proof {
                assert(self.tree.node_wf(k as int));
            }
            if let NodeKind::Element(data) = &self.tree.kinds[k] {
                return Some(ElementRef { tree: self.tree, node: k, data });
            }
            cur = self.tree.next_sibling[k];
        }
    }
}


impl<'a> ElementRef<'a> {
    /// Whether the element is in the HTML namespace.
    pub fn is_html_element_in_html_document(&self) -> (r: bool)
        requires
            self.wf(),
        ensures
            r == (self.data.name.ns@ == HTML_NAMESPACE@),
    {
        str_eq(self.data.name.ns.as_str(), HTML_NAMESPACE)
    }

    pub fn has_local_name(&self, name: &String) -> (r: bool)
        requires
            self.wf(),
        ensures
            r == (self.data.name.local@ == name@),
    {
        self.data.name.local == *name
    }

    pub fn has_namespace(&self, namespace: &String) -> (r: bool)
        requires
            self.wf(),
        ensures
            r == (self.data.name.ns@ == namespace@),
    {
        self.data.name.ns == *namespace
    }

    /// Whether some attribute in an accepted namespace, with local name
    /// `local_name`, has a value that `operation` accepts. The value test is
    /// the caller's: true comes only from an attribute that the lookup selects
    /// and on whose value `operation` returned true; false only when it
    /// returned false on the value of every selected attribute.
    pub fn attr_matches<F: Fn(&String) -> bool>(
        &self,
        ns: &NamespaceConstraint,
        local_name: &String,
        operation: F,
    ) -> (r: bool)
        requires
            self.wf(),
            forall|v: &String| operation.requires((v,)),
        ensures
            r ==> exists|i: int|
                0 <= i < self.data.attrs@.len() && attr_selected(#[trigger] self.data.attrs@[i], *ns, local_name@)
                    && operation.ensures((&self.data.attrs@[i].value,), true),
            !r ==> forall|i: int|
                0 <= i < self.data.attrs@.len() && attr_selected(#[trigger] self.data.attrs@[i], *ns, local_name@)
                    ==> operation.ensures((&self.data.attrs@[i].value,), false),
    {
        let attrs = &self.data.attrs;
        let mut i: usize = 0;
        while i < attrs.len()
            invariant
                self.wf(),
                attrs == &self.data.attrs,
                i <= attrs@.len(),
                forall|v: &String| operation.requires((v,)),
                forall|j: int|
                    0 <= j < i && attr_selected(#[trigger] attrs@[j], *ns, local_name@)
                        ==> operation.ensures((&attrs@[j].value,), false),
            decreases attrs@.len() - i,
        {
            let a = &attrs[i];
            let ns_ok = match ns {
                NamespaceConstraint::Any => true,
                NamespaceConstraint::Specific(url) => *url == a.name.ns,
            };
            if ns_ok && a.name.local == *local_name {
                let accepted = operation(&a.value);
                if accepted {
                    assert(attr_selected(attrs@[i as int], *ns, local_name@));
                    return true;
                }
            }
            i += 1;
        }
        false
    }

    pub fn match_non_ts_pseudo_class(&self) -> (r: bool)
        ensures
            !r,
    {
        false
    }

    pub fn match_pseudo_element(&self) -> (r: bool)
        ensures
            !r,
    {
        false
    }

    /// Whether the local tag name is `link`; anchors with an `href` are not
    /// counted.
    pub fn is_link(&self) -> (r: bool)
        requires
            self.wf(),
        ensures
            r == (self.data.name.local@ == "link"@),
    {
        str_eq(self.data.name.local.as_str(), "link")
    }

    /// Fixed at true for every element, so that matcher behaviour that
    /// depends on an element not being a slot is never reached.
    pub fn is_html_slot_element(&self) -> (r: bool)
        ensures
            r,
    {
        true
    }

    pub fn has_id(&self, id: &String, case_sensitive: CaseSensitivity) -> (r: bool)
        requires
            self.wf(),
        ensures
            r == id_matches(*self.data, id@, case_sensitive),
    {
        match &self.data.id {
            Some(val) => names_eq(case_sensitive, id.as_str(), val.as_str()),
            None => false,
        }
    }

    pub fn has_class(&self, name: &String, case_sensitive: CaseSensitivity) -> (r: bool)
        requires
            self.wf(),
        ensures
            r == class_matches(*self.data, name@, case_sensitive),
    {
        let classes = &self.data.classes;
        let mut i: usize = 0;
        while i < classes.len()
            invariant
                classes == &self.data.classes,
                i <= classes@.len(),
                forall|j: int| 0 <= j < i ==> !names_equal(case_sensitive, #[trigger] classes@[j]@, name@),
            decreases classes@.len() - i,
        {
            if names_eq(case_sensitive, classes[i].as_str(), name.as_str()) {
                return true;
            }
            i += 1;
        }
        false
    }

    /// Whether no child is an element or a text node; comments and processing
    /// instructions do not count.
    pub fn is_empty(&self) -> (r: bool)
        requires
            self.wf(),
        ensures
            r == self.is_empty_spec(),
    {
        proof {
            assert(self.tree.node_wf(self.node as int));
        }
        let mut cur = self.tree.first_child[self.node];
        loop
            invariant
                self.wf(),
                cur matches Some(k) ==> k < self.tree.len(),
                self.is_empty_spec() == match cur {
                    Some(k) => !self.tree.content_forward(k as int),
                    None => true,
                },
            decreases match cur {
                Some(k) => self.tree.len() - k,
                None => 0,
            },
        {
            let k = match cur {
                Some(k) => k,
                None => return true,
            };
            proof {
                assert(self.tree.node_wf(k as int));
            }
            match &self.tree.kinds[k] {
                NodeKind::Element(_) => return false,
                NodeKind::Text(_) => return false,
                _ => {},
            }
            cur = self.tree.next_sibling[k];
        }
    }

    /// Whether the element's parent is the document node; an element with
    /// no parent is not a root.
    pub fn is_root(&self) -> (r: bool)
        requires
            self.wf(),
        ensures
            r == self.is_root_spec(),
    {
        proof {
            assert(self.tree.node_wf(self.node as int));
        }
        match self.tree.parent[self.node] {
            Some(p) => match &self.tree.kinds[p] {
                NodeKind::Document => true,
                _ => false,
            },
            None => false,
        }
    }

    /// The boolean-sensitivity view of this element.
    pub fn shielded(&self) -> (r: ShieldedElmRef<'_>)
        ensures
            *r.0 == *self,
    {
        ShieldedElmRef(self)
    }
}

impl<'a> ShieldedElmRef<'a> {
    /// `has_class` with `true` for an exact and `false` for an
    /// ASCII-case-insensitive comparison.
    pub fn has_class(&self, name: &String, case_sensitive: bool) -> (r: bool)
        requires
            self.0.wf(),
        ensures
            r == class_matches(*self.0.data, name@, sensitivity_of(case_sensitive)),
    {
        self.0.has_class(name, map_b_to_cs(case_sensitive))
    }

    /// `has_id` with `true` for an exact and `false` for an
    /// ASCII-case-insensitive comparison.
    pub fn has_id(&self, id: &String, case_sensitive: bool) -> (r: bool)
        requires
            self.0.wf(),
        ensures
            r == id_matches(*self.0.data, id@, sensitivity_of(case_sensitive)),
    {
        self.0.has_id(id, map_b_to_cs(case_sensitive))
    }
}

/// An element whose id is `v` matches `v` exactly, matches no other string
/// exactly, and matches every ASCII-case variant of `v` when case is ignored.
pub proof fn lemma_id_match(e: ElementData, v: Seq<char>, w: Seq<char>)
    requires
        e.id matches Some(x) && x@ == v,
    ensures
        id_matches(e, v, CaseSensitivity::CaseSensitive),
        w != v ==> !id_matches(e, w, CaseSensitivity::CaseSensitive),
        ascii_fold_equal(w, v) ==> id_matches(e, w, CaseSensitivity::AsciiCaseInsensitive),
{
}

/// An element without an id matches no id under either policy.
pub proof fn lemma_no_id_never_matches(e: ElementData, w: Seq<char>, cs: CaseSensitivity)
    requires
        e.id is None,
    ensures
        !id_matches(e, w, cs),
{
}

/// Compared exactly, an element has each of its class tokens and no other.
pub proof fn lemma_class_match(e: ElementData, t: Seq<char>)
    ensures
        forall|i: int| 0 <= i < e.classes@.len() ==> class_matches(e, #[trigger] e.classes@[i]@, CaseSensitivity::CaseSensitive),
        (forall|i: int| 0 <= i < e.classes@.len() ==> #[trigger] e.classes@[i]@ != t)
            ==> !class_matches(e, t, CaseSensitivity::CaseSensitive),
{
    assert forall|i: int| 0 <= i < e.classes@.len() implies class_matches(e, #[trigger] e.classes@[i]@, CaseSensitivity::CaseSensitive) by {
        assert(names_equal(CaseSensitivity::CaseSensitive, e.classes@[i]@, e.classes@[i]@));
    }
}

/// An element is a root only when it has a parent and that parent is the
/// document node; an element without a parent is never one.
pub proof fn lemma_root_needs_document_parent(e: ElementRef)
    requires
        e.wf(),
    ensures
        e.is_root_spec() ==> (e.tree.parent@[e.node as int] matches Some(p) && e.tree.kinds@[p as int] is Document),
        e.tree.parent@[e.node as int] is None ==> !e.is_root_spec(),
{
}

/// A lookup bound to one namespace never selects an attribute of another
/// namespace, whatever its local name.
pub proof fn lemma_specific_namespace_excludes(a: Attribute, url: String, local: Seq<char>)
    requires
        a.name.ns@ != url@,
    ensures
        !attr_selected(a, NamespaceConstraint::Specific(url), local),
{
}

/// Walking forward from `j`, the scan stops only at an element that is `j`
/// or a later sibling of `j`.
pub proof fn lemma_element_forward_is_sibling(t: Tree, j: int)
    requires
        t.wf(),
        0 <= j < t.len(),
    ensures
        t.element_forward(j) matches Some(k) ==> {
            &&& j <= k < t.len()
            &&& t.kinds@[k] is Element
            &&& t.parent@[k] == t.parent@[j]
        },
    decreases t.len() - j,
{
    assert(t.node_wf(j));
    if !(t.kinds@[j] is Element) {
        if let Some(k) = t.next_sibling@[j] {
            lemma_element_forward_is_sibling(t, k as int);
        }
    }
}

/// Walking backward from `j`, the scan stops only at an element that is `j`
/// or an earlier sibling of `j`.
pub proof fn lemma_element_backward_is_sibling(t: Tree, j: int)
    requires
        t.wf(),
        0 <= j < t.len(),
    ensures
        t.element_backward(j) matches Some(k) ==> {
            &&& k <= j
            &&& t.kinds@[k] is Element
            &&& t.parent@[k] == t.parent@[j]
        },
    decreases j,
{
    assert(t.node_wf(j));
    if !(t.kinds@[j] is Element) {
        if let Some(k) = t.prev_sibling@[j] {
            lemma_element_backward_is_sibling(t, k as int);
        }
    }
}

/// The element found by a sibling scan is a sibling of the starting element:
/// it has the same parent and lies on the side that was scanned.
pub proof fn lemma_sibling_scan_stays_among_siblings(e: ElementRef)
    requires
        e.wf(),
    ensures
        e.next_element_index() matches Some(k) ==> {
            &&& e.node < k < e.tree.len()
            &&& e.tree.kinds@[k] is Element
            &&& e.tree.parent@[k] == e.tree.parent@[e.node as int]
        },
        e.prev_element_index() matches Some(k) ==> {
            &&& k < e.node
            &&& e.tree.kinds@[k] is Element
            &&& e.tree.parent@[k] == e.tree.parent@[e.node as int]
        },
{
    assert(e.tree.node_wf(e.node as int));
    if let Some(k) = e.tree.next_sibling@[e.node as int] {
        lemma_element_forward_is_sibling(*e.tree, k as int);
    }
    if let Some(k) = e.tree.prev_sibling@[e.node as int] {
        lemma_element_backward_is_sibling(*e.tree, k as int);
    }
}

/// Two views of the same node of the same tree see the same element, so
/// every predicate answers alike on them.
pub proof fn lemma_same_node_same_element(a: ElementRef, b: ElementRef)
    requires
        a.wf(),
        b.wf(),
        a.tree == b.tree,
        a.node == b.node,
    ensures
        *a.data == *b.data,
        a.is_root_spec() == b.is_root_spec(),
        a.is_empty_spec() == b.is_empty_spec(),
        a.next_element_index() == b.next_element_index(),
        a.prev_element_index() == b.prev_element_index(),
{
}

} // verus!
