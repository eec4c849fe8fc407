use vstd::prelude::*;
use crate::diagnostic::{Diagnostic, DiagnosticView};
use crate::node::{Node, NodeView};
use crate::pass::Pass;

verus! {

broadcast use {Seq::add_empty_right, Seq::add_empty_left};

/// The diagnostic sequence an error contributes: one entry, or none.
pub open spec fn spec_error_diags(e: Option<DiagnosticView>) -> Seq<DiagnosticView> {
    match e {
        Some(d) => seq![d],
        None => Seq::<DiagnosticView>::empty(),
    }
}

/// The diagnostics a run over `node` aggregates: for each pass, in
/// order, what it collected internally after its visit, followed by
/// the error its visit reported, if any.
pub open spec fn spec_run_diags<P: Pass>(posts: Seq<P>, pres: Seq<P>, node: NodeView) -> Seq<
    DiagnosticView,
>
    decreases pres.len(),
{
    if pres.len() == 0 || posts.len() == 0 {
        Seq::<DiagnosticView>::empty()
    } else {
        posts[0].spec_diagnostics() + spec_error_diags(P::spec_visit_error(pres[0], node))
            + spec_run_diags(posts.drop_first(), pres.drop_first(), node)
    }
}

proof fn lemma_run_diags_snoc<P: Pass>(posts: Seq<P>, pres: Seq<P>, p: P, q: P, node: NodeView)
    requires
        posts.len() == pres.len(),
    ensures
        spec_run_diags(posts.push(p), pres.push(q), node) == spec_run_diags(posts, pres, node)
            + p.spec_diagnostics() + spec_error_diags(P::spec_visit_error(q, node)),
    decreases pres.len(),
{
    broadcast use {Seq::add_empty_right, Seq::add_empty_left};

    if pres.len() == 0 {
        assert(posts.push(p)[0] == p);
        assert(pres.push(q)[0] == q);
        assert(posts.push(p).drop_first() =~= posts);
        assert(pres.push(q).drop_first() =~= pres);
    } else {
        assert(posts.push(p)[0] == posts[0]);
        assert(pres.push(q)[0] == pres[0]);
        assert(posts.push(p).drop_first() =~= posts.drop_first().push(p));
        assert(pres.push(q).drop_first() =~= pres.drop_first().push(q));
        lemma_run_diags_snoc(posts.drop_first(), pres.drop_first(), p, q, node);
        assert((posts[0].spec_diagnostics() + spec_error_diags(P::spec_visit_error(pres[0], node))
            + (spec_run_diags(posts.drop_first(), pres.drop_first(), node)
            + p.spec_diagnostics() + spec_error_diags(P::spec_visit_error(q, node)))) =~= (
        posts[0].spec_diagnostics() + spec_error_diags(P::spec_visit_error(pres[0], node))
            + spec_run_diags(posts.drop_first(), pres.drop_first(), node) + p.spec_diagnostics()
            + spec_error_diags(P::spec_visit_error(q, node))));
    }
}

/// Registers passes and runs them, strictly in registration order,
/// over one root node, aggregating every pass's diagnostics.
pub struct PassManager<P: Pass> {
    pub passes: Vec<P>,
}

impl<P: Pass> PassManager<P> {
    /// A manager with no passes installed.
    pub fn new() -> (r: PassManager<P>)
        ensures
            r.passes@ == Seq::<P>::empty(),
    {
        Self { passes: Vec::new() }
    }

    /// Ask the pass whether it accepts registration; store it only
    /// then, and report whether it was stored.
    pub fn add_pass(&mut self, pass: P) -> (r: bool)
        ensures
            r == pass.spec_register(),
            if pass.spec_register() {
                final(self).passes@ == old(self).passes@.push(pass)
            } else {
                final(self).passes@ == old(self).passes@
            },
    {
        if !pass.register(self) {
            return false;
        }
        self.passes.push(pass);
        true
    }

    /// Run every registered pass over `root_node`, in registration
    /// order. Each pass is visited exactly once; its collected
    /// diagnostics are appended, then the error of its visit, if it
    /// reported one — a failing pass never keeps a later pass from
    /// running. Success is an empty list, not a distinct status.
    #[verifier::loop_isolation(false)]
    pub fn run(&mut self, root_node: &Node) -> (r: Vec<Diagnostic>)
        ensures
            final(self).passes@.len() == old(self).passes@.len(),
            forall|j: int| 0 <= j < old(self).passes@.len() ==> P::spec_visit_rel(
                old(self).passes@[j],
                #[trigger] final(self).passes@[j],
                root_node@,
            ),
            r@.map_values(|d: Diagnostic| d@) == spec_run_diags(
                final(self).passes@,
                old(self).passes@,
                root_node@,
            ),
    {
        let ghost pres = self.passes@;
        let ghost node = root_node@;
        let mut diagnostics: Vec<Diagnostic> = Vec::new();
        let mut i: usize = 0;
        while i < self.passes.len()
            invariant
                i <= self.passes.len(),
                self.passes@.len() == pres.len(),
                forall|j: int| i <= j < pres.len() ==> self.passes@[j] == pres[j],
                forall|j: int| 0 <= j < i ==> P::spec_visit_rel(
                    pres[j],
                    #[trigger] self.passes@[j],
                    node,
                ),
                diagnostics@.map_values(|d: Diagnostic| d@) == spec_run_diags(
                    self.passes@.subrange(0, i as int),
                    pres.subrange(0, i as int),
                    node,
                ),
            decreases self.passes.len() - i,
        {
            let ghost diags_before = diagnostics@;
            let ghost passes_head = self.passes@;
            let mut pass = self.passes.remove(i);
            let ghost pre_pass = pass;
            let visitation_result = pass.visit(root_node);
            let ghost post_pass = pass;
            let mut pass_diagnostics = pass.get_diagnostics();
            diagnostics.append(&mut pass_diagnostics);
            match visitation_result {
                Ok(_) => {},
                Err(d) => {
                    diagnostics.push(d);
                },
            }
            self.passes.insert(i, pass);
            proof {
                assert(self.passes@.subrange(0, i as int) =~= passes_head.subrange(0, i as int));
                assert(pre_pass == pres[i as int]);
                assert(diagnostics@.map_values(|d: Diagnostic| d@) =~= diags_before.map_values(
                    |d: Diagnostic| d@,
                ) + post_pass.spec_diagnostics() + spec_error_diags(
                    P::spec_visit_error(pre_pass, node),
                ));
                assert(self.passes@.subrange(0, i + 1).drop_last() =~= self.passes@.subrange(
                    0,
                    i as int,
                ));
                assert(pres.subrange(0, i + 1).drop_last() =~= pres.subrange(0, i as int));
                assert(self.passes@.subrange(0, i + 1) =~= self.passes@.subrange(0, i as int).push(
                    self.passes@[i as int],
                ));
                assert(pres.subrange(0, i + 1) =~= pres.subrange(0, i as int).push(
                    pres[i as int],
                ));
                lemma_run_diags_snoc(
                    self.passes@.subrange(0, i as int),
                    pres.subrange(0, i as int),
                    self.passes@[i as int],
                    pres[i as int],
                    node,
                );
                assert(self.passes@[i as int] == post_pass);
                assert(diagnostics@.map_values(|d: Diagnostic| d@) == spec_run_diags(
                    self.passes@.subrange(0, i + 1),
                    pres.subrange(0, i + 1),
                    node,
                ));
            }
            i += 1;
        }
        proof {
            assert(self.passes@.subrange(0, pres.len() as int) =~= self.passes@);
            assert(pres.subrange(0, pres.len() as int) =~= pres);
        }
        diagnostics
    }
}

} // verus!
