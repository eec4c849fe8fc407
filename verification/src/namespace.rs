use vstd::prelude::*;
use crate::external::{External, ExternalView};
use crate::function::{Function, FunctionView};

verus! {

/// A top-level declaration of a namespace.
#[derive(Hash, Eq, PartialEq, Debug)]
pub enum TopLevelNode {
    Function(Function),
    External(External),
}

/// Mathematical image of a `TopLevelNode`.
pub enum TopLevelNodeView {
    Function(FunctionView),
    External(ExternalView),
}

impl View for TopLevelNode {
    type V = TopLevelNodeView;

    open spec fn view(&self) -> TopLevelNodeView {
        match self {
            TopLevelNode::Function(f) => TopLevelNodeView::Function(f@),
            TopLevelNode::External(e) => TopLevelNodeView::External(e@),
        }
    }
}

impl Clone for TopLevelNode {
    fn clone(&self) -> (r: TopLevelNode)
        ensures
            r@ == self@,
    {
        match self {
            TopLevelNode::Function(f) => TopLevelNode::Function(f.clone()),
            TopLevelNode::External(e) => TopLevelNode::External(e.clone()),
        }
    }
}

/// One named entry of a namespace's symbol table.
pub type TableEntry = (String, TopLevelNode);

/// Mathematical image of a `TableEntry`.
pub type TableEntryView = (Seq<char>, TopLevelNodeView);

/// The view of a symbol table.
pub open spec fn view_table(entries: Seq<TableEntry>) -> Seq<TableEntryView> {
    entries.map_values(|e: TableEntry| (e.0@, e.1@))
}

/// Whether a symbol table already holds an entry under `name`.
pub open spec fn table_contains_name(table: Seq<TableEntryView>, name: Seq<char>) -> bool {
    exists|i: int| 0 <= i < table.len() && table[i].0 == name
}

/// The single flat module holding all top-level declarations, keyed by
/// name. The table keeps insertion order, so that passes walk the
/// declarations deterministically; its names are unique.
#[derive(Hash, Eq, PartialEq, Debug)]
pub struct Namespace {
    pub name: String,
    pub symbol_table: Vec<TableEntry>,
}

/// Mathematical image of a `Namespace`.
pub struct NamespaceView {
    pub name: Seq<char>,
    pub symbol_table: Seq<TableEntryView>,
}

impl View for Namespace {
    type V = NamespaceView;

    open spec fn view(&self) -> NamespaceView {
        NamespaceView { name: self.name@, symbol_table: view_table(self.symbol_table@) }
    }
}

impl Namespace {
    /// An empty namespace under the given name.
    pub fn new(name: String) -> (r: Namespace)
        ensures
            r@.name == name@,
            r@.symbol_table == Seq::<TableEntryView>::empty(),
    {
        let r = Namespace { name, symbol_table: Vec::new() };
        proof {
            assert(view_table(r.symbol_table@) =~= Seq::<TableEntryView>::empty());
        }
        r
    }

    /// Whether the symbol table already holds an entry under `name`.
    pub fn contains_name(&self, name: &String) -> (r: bool)
        ensures
            r == table_contains_name(self@.symbol_table, name@),
    {
        let mut i: usize = 0;
        while i < self.symbol_table.len()
            invariant
                i <= self.symbol_table.len(),
                forall|j: int| 0 <= j < i ==> self@.symbol_table[j].0 != name@,
            decreases self.symbol_table.len() - i,
        {
            if self.symbol_table[i].0 == *name {
                assert(self@.symbol_table[i as int].0 == name@);
                return true;
            }
            i += 1;
        }
        false
    }
}

impl Clone for Namespace {
    fn clone(&self) -> (r: Namespace)
        ensures
            r@ == self@,
    {
        let mut symbol_table: Vec<TableEntry> = Vec::new();
        let mut i: usize = 0;
        while i < self.symbol_table.len()
            invariant
                i <= self.symbol_table.len(),
                symbol_table@.len() == i,
                forall|j: int| 0 <= j < i ==> symbol_table@[j].0@ == self.symbol_table@[j].0@
                    && symbol_table@[j].1@ == self.symbol_table@[j].1@,
            decreases self.symbol_table.len() - i,
        {
            let name = self.symbol_table[i].0.clone();
            let node = self.symbol_table[i].1.clone();
            symbol_table.push((name, node));
            i += 1;
        }
        proof {
            assert(view_table(symbol_table@) =~= view_table(self.symbol_table@));
        }
        Namespace { name: self.name.clone(), symbol_table }
    }
}

} // verus!
