//! Hierarchy metadata: which members stand below which.
use crate::text::same_text;
use vstd::prelude::*;

verus! {

/// Answers questions about a dimension's hierarchy.
///
/// The answers are functions of the resolver and the two names: asking the
/// same resolver twice gives the same answer. The compiler relies on this
/// to describe the program it emits.
pub trait HierarchyResolver {
    /// The immediate children of `member`, in hierarchy order.
    spec fn children(&self, dimension: Seq<char>, member: Seq<char>) -> Seq<Seq<char>>;

    /// The parent of `member`, if it has one.
    spec fn parent(&self, dimension: Seq<char>, member: Seq<char>) -> Option<Seq<char>>;

    /// Every member below `member`.
    spec fn descendants(&self, dimension: Seq<char>, member: Seq<char>) -> Seq<Seq<char>>;

    /// Returns the immediate children of a member, e.g. the countries of a
    /// region.
    fn get_children(&self, dimension: &str, member: &str) -> (names: Vec<String>)
        ensures
            names.deep_view() == self.children(dimension@, member@),
    ;

    /// Returns the parent of a member.
    fn get_parent(&self, dimension: &str, member: &str) -> (name: Option<String>)
        ensures
            name.deep_view() == self.parent(dimension@, member@),
    ;

    /// Returns all members below a member.
    fn get_descendants(&self, dimension: &str, member: &str) -> (names: Vec<String>)
        ensures
            names.deep_view() == self.descendants(dimension@, member@),
    ;
}

/// A resolver with a small fixed hierarchy, for tests and early development.
pub struct MockHierarchyResolver;

impl HierarchyResolver for MockHierarchyResolver {
    open spec fn children(&self, dimension: Seq<char>, member: Seq<char>) -> Seq<Seq<char>> {
        if member == "North America"@ {
            seq!["USA"@, "Canada"@, "Mexico"@]
        } else if member == "Europe"@ {
            seq!["UK"@, "France"@, "Germany"@]
        } else {
            Seq::empty()
        }
    }

    open spec fn parent(&self, dimension: Seq<char>, member: Seq<char>) -> Option<Seq<char>> {
        if member == "USA"@ {
            Some("North America"@)
        } else {
            None
        }
    }

    open spec fn descendants(&self, dimension: Seq<char>, member: Seq<char>) -> Seq<Seq<char>> {
        self.children(dimension, member)
    }

    fn get_children(&self, _dimension: &str, member: &str) -> (names: Vec<String>) {
        let mut names: Vec<String> = Vec::new();
        if same_text(member, "North America") {
            names.push("USA".to_owned());
            names.push("Canada".to_owned());
            names.push("Mexico".to_owned());
            assert(names.deep_view() =~= seq!["USA"@, "Canada"@, "Mexico"@]);
        } else if same_text(member, "Europe") {
            names.push("UK".to_owned());
            names.push("France".to_owned());
            names.push("Germany".to_owned());
            assert(names.deep_view() =~= seq!["UK"@, "France"@, "Germany"@]);
        } else {
            assert(names.deep_view() =~= Seq::<Seq<char>>::empty());
        }
        names
    }

    fn get_parent(&self, _dimension: &str, member: &str) -> (name: Option<String>) {
        if same_text(member, "USA") {
            Some("North America".to_owned())
        } else {
            None
        }
    }

    fn get_descendants(&self, dimension: &str, member: &str) -> (names: Vec<String>) {
        self.get_children(dimension, member)
    }
}

} // verus!
