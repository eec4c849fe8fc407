use minifront::diagnostic::Diagnostic;
use minifront::node::Node;
use minifront::pass::{Pass, PassResult};
use minifront::pass_manager::PassManager;
use minifront::void_kind::VoidKind;

struct TestPassEmpty {}

impl Pass for TestPassEmpty {
    fn register(&self, _pass_manager: &PassManager<Self>) -> bool {
        true
    }

    fn get_diagnostics(&self) -> Vec<Diagnostic> {
        vec![]
    }

    fn visit(&mut self, _node: &Node) -> PassResult {
        Ok(())
    }
}

struct TestPassNoRegister {}

impl Pass for TestPassNoRegister {
    fn register(&self, _pass_manager: &PassManager<Self>) -> bool {
        false
    }

    fn get_diagnostics(&self) -> Vec<Diagnostic> {
        vec![]
    }

    fn visit(&mut self, _node: &Node) -> PassResult {
        Ok(())
    }
}

struct TestPassWithVisit {
    pub is_visit_invoked: bool,
}

impl TestPassWithVisit {
    pub fn new() -> Self {
        Self { is_visit_invoked: false }
    }
}

impl Pass for TestPassWithVisit {
    fn register(&self, _pass_manager: &PassManager<Self>) -> bool {
        true
    }

    fn get_diagnostics(&self) -> Vec<Diagnostic> {
        vec![]
    }

    fn visit(&mut self, _node: &Node) -> PassResult {
        self.is_visit_invoked = true;
        Ok(())
    }
}

#[test]
fn pass_manager_proper_initial_values() {
    assert_eq!(true, PassManager::<TestPassEmpty>::new().passes.is_empty());
}

#[test]
fn pass_manager_add_pass() {
    let mut pass_manager = PassManager::new();

    pass_manager.add_pass(TestPassEmpty {});

    assert_eq!(1, pass_manager.passes.len());
}

#[test]
fn pass_manager_add_pass_no_register() {
    let mut pass_manager = PassManager::new();

    pass_manager.add_pass(TestPassNoRegister {});

    assert_eq!(true, pass_manager.passes.is_empty());
}

#[test]
fn pass_manager_run_invoke_visit() {
    let mut pass_manager = PassManager::new();

    pass_manager.add_pass(TestPassWithVisit::new());
    pass_manager.run(&Node::VoidKind(VoidKind {}));

    assert_eq!(true, pass_manager.passes[0].is_visit_invoked);
}
