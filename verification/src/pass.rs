use vstd::prelude::*;
use crate::diagnostic::{Diagnostic, DiagnosticView};
use crate::node::{spec_children, Node, NodeView};
use crate::pass_manager::PassManager;

verus! {

/// What a single visit produces: success, or one diagnostic.
pub type PassResult = Result<(), Diagnostic>;

/// Working data a pass may carry while it runs.
pub struct PassContext {
    pub diagnostics: Vec<Diagnostic>,
}

/// A visitor over the abstract syntax tree. A pass dispatches on the
/// closed set of node kinds; the manager drives it over the root node.
///
/// Each implementation describes itself to the verifier through the
/// spec members: what its registration decision is, how a visit may
/// change its state, which error a visit reports, and which
/// diagnostics it has collected internally. Their defaults describe a
/// pass that accepts registration, collects nothing, may change its
/// state freely and never reports an error; an implementation states
/// its own behavior by overriding them.
pub trait Pass: Sized {
    /// Whether the pass accepts being installed into a manager.
    open spec fn spec_register(&self) -> bool {
        true
    }

    /// The diagnostics the pass has collected internally so far.
    open spec fn spec_diagnostics(&self) -> Seq<DiagnosticView> {
        Seq::<DiagnosticView>::empty()
    }

    /// How the pass state before a visit relates to the state after it.
    open spec fn spec_visit_rel(pre: Self, post: Self, node: NodeView) -> bool {
        true
    }

    /// The diagnostic, if any, a visit of `node` reports.
    open spec fn spec_visit_error(pre: Self, node: NodeView) -> Option<DiagnosticView> {
        None
    }

    /// The registration hook, evaluated once by `PassManager::add_pass`;
    /// a pass may veto its own installation here.
    fn register(&self, pass_manager: &PassManager<Self>) -> (r: bool)
        ensures
            r == self.spec_register(),
    ;

    /// The diagnostics the pass has collected internally, for the
    /// manager to aggregate after a visit.
    fn get_diagnostics(&self) -> (r: Vec<Diagnostic>)
        ensures
            r@.map_values(|d: Diagnostic| d@) == self.spec_diagnostics(),
    ;

    /// Visit one node, dispatching on its kind.
    fn visit(&mut self, node: &Node) -> (r: PassResult)
        ensures
            Self::spec_visit_rel(*old(self), *final(self), node@),
            match r {
                Ok(_) => Self::spec_visit_error(*old(self), node@) is None,
                Err(d) => Self::spec_visit_error(*old(self), node@) == Some(d@),
            },
    ;
}

/// The chain a child-first traversal leaves behind: the children are
/// visited in order; the first diagnostic a visit reports stops the
/// traversal with it, otherwise the chain runs to the end with none.
pub open spec fn spec_visits_rel<P: Pass>(
    pre: P,
    post: P,
    children: Seq<NodeView>,
    error: Option<DiagnosticView>,
) -> bool
    decreases children.len(),
{
    if children.len() == 0 {
        post == pre && error is None
    } else if P::spec_visit_error(pre, children[0]) is Some {
        error == P::spec_visit_error(pre, children[0]) && P::spec_visit_rel(pre, post, children[0])
    } else {
        exists|mid: P|
            #[trigger] P::spec_visit_rel(pre, mid, children[0]) && spec_visits_rel(
                mid,
                post,
                children.drop_first(),
                error,
            )
    }
}

proof fn lemma_spec_visits_rel_snoc<P: Pass>(
    pre: P,
    mid: P,
    post: P,
    visited: Seq<NodeView>,
    child: NodeView,
)
    requires
        spec_visits_rel(pre, mid, visited, None::<DiagnosticView>),
        P::spec_visit_rel(mid, post, child),
        P::spec_visit_error(mid, child) is None,
    ensures
        spec_visits_rel(pre, post, visited.push(child), None::<DiagnosticView>),
    decreases visited.len(),
{
    if visited.len() == 0 {
        assert(pre == mid);
        assert(visited.push(child)[0] == child);
        assert(visited.push(child).drop_first() =~= Seq::<NodeView>::empty());
        assert(spec_visits_rel(
            post,
            post,
            visited.push(child).drop_first(),
            None::<DiagnosticView>,
        ));
        assert(P::spec_visit_rel(pre, post, visited.push(child)[0]));
    } else {
        let mid1 = choose|m: P|
            #[trigger] P::spec_visit_rel(pre, m, visited[0]) && spec_visits_rel(
                m,
                mid,
                visited.drop_first(),
                None::<DiagnosticView>,
            );
        lemma_spec_visits_rel_snoc(mid1, mid, post, visited.drop_first(), child);
        assert(visited.push(child)[0] == visited[0]);
        assert(visited.push(child).drop_first() =~= visited.drop_first().push(child));
        assert(P::spec_visit_rel(pre, mid1, visited.push(child)[0]));
    }
}

proof fn lemma_spec_visits_rel_error<P: Pass>(
    pre: P,
    mid: P,
    post: P,
    visited: Seq<NodeView>,
    child: NodeView,
    d: DiagnosticView,
    rest: Seq<NodeView>,
)
    requires
        spec_visits_rel(pre, mid, visited, None::<DiagnosticView>),
        P::spec_visit_rel(mid, post, child),
        P::spec_visit_error(mid, child) == Some(d),
    ensures
        spec_visits_rel(pre, post, visited + seq![child] + rest, Some(d)),
    decreases visited.len(),
{
    let cs = visited + seq![child] + rest;
    if visited.len() == 0 {
        assert(cs[0] == child);
        assert(pre == mid);
        assert(P::spec_visit_error(pre, cs[0]) == Some(d));
        assert(P::spec_visit_rel(pre, post, cs[0]));
    } else {
        assert(cs[0] == visited[0]);
        let mid1 = choose|m: P|
            #[trigger] P::spec_visit_rel(pre, m, visited[0]) && spec_visits_rel(
                m,
                mid,
                visited.drop_first(),
                None::<DiagnosticView>,
            );
        lemma_spec_visits_rel_error(mid1, mid, post, visited.drop_first(), child, d, rest);
        assert(cs.drop_first() =~= visited.drop_first() + seq![child] + rest);
        assert(P::spec_visit_rel(pre, mid1, cs[0]));
    }
}

/// Visit every immediate child of `node`, in order, stopping at the
/// first diagnostic a visit reports: the default traversal of a pass
/// with no special handling for a container node.
#[verifier::loop_isolation(false)]
pub fn visit_children<P: Pass>(pass: &mut P, node: &Node) -> (r: PassResult)
    ensures
        match r {
            Ok(_) => spec_visits_rel(
                *old(pass),
                *final(pass),
                spec_children(node@),
                None::<DiagnosticView>,
            ),
            Err(d) => spec_visits_rel(*old(pass), *final(pass), spec_children(node@), Some(d@)),
        },
{
    let children = node.get_children();
    let ghost pass0 = *pass;
    let ghost cs = spec_children(node@);
    let mut i: usize = 0;
    proof {
        assert(cs.subrange(0, 0).len() == 0);
    }
    while i < children.len()
        invariant
            children@.map_values(|c: Node| c@) == cs,
            i <= children@.len(),
            spec_visits_rel(pass0, *pass, cs.subrange(0, i as int), None::<DiagnosticView>),
        decreases children@.len() - i,
    {
        let ghost mid = *pass;
        let result = pass.visit(&children[i]);
        match result {
            Ok(_) => {
                proof {
                    lemma_spec_visits_rel_snoc(
                        pass0,
                        mid,
                        *pass,
                        cs.subrange(0, i as int),
                        cs[i as int],
                    );
                    assert(cs.subrange(0, i + 1) =~= cs.subrange(0, i as int).push(
                        cs[i as int],
                    ));
                }
            },
            Err(d) => {
                proof {
                    lemma_spec_visits_rel_error(
                        pass0,
                        mid,
                        *pass,
                        cs.subrange(0, i as int),
                        cs[i as int],
                        d@,
                        cs.subrange(i + 1, cs.len() as int),
                    );
                    assert(cs =~= cs.subrange(0, i as int) + seq![cs[i as int]] + cs.subrange(
                        i + 1,
                        cs.len() as int,
                    ));
                }
                return Err(d);
            },
        }
        i += 1;
    }
    proof {
        assert(cs.subrange(0, cs.len() as int) =~= cs);
    }
    Ok(())
}

} // verus!
