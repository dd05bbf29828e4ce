use vstd::prelude::*;

verus! {

/// One entry of an element's attribute list.
#[derive(Debug, Clone, PartialEq, Eq)]
pub enum Attribute {
    /// An attribute with a plain identifier as its name.
    Named(String),
    /// An attribute with a namespaced name (`ns:name`); never matched.
    Namespaced(String),
    /// A spread entry, whose keys are known only at run time; never matched.
    Spread,
}

/// The name of an element.
#[derive(Debug, Clone, PartialEq, Eq)]
pub enum TagName {
    /// A plain identifier such as `div` or `Button`.
    Ident(String),
    /// A member expression or namespaced name.
    Compound,
}

/// A markup element: its name and its attribute list.
#[derive(Debug, Clone, PartialEq, Eq)]
pub struct Element {
    pub name: TagName,
    pub attrs: Vec<Attribute>,
}

/// What a node of the syntax tree is, as far as matching is concerned.
#[derive(Debug, Clone, PartialEq, Eq)]
pub enum NodeKind {
    Element(Element),
    Other,
}

/// A node of the syntax tree with its children in source order.
#[derive(Debug, PartialEq, Eq)]
pub struct Node {
    pub kind: NodeKind,
    pub children: Vec<Node>,
}

} // verus!
