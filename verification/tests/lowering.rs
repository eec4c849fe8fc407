use minifront::int_kind::{IntKind, IntSize};
use minifront::lowering_pass::LoweringPass;
use minifront::node::AnyKindNode;
use minifront::void_kind::VoidKind;

#[test]
fn llvm_lowering_pass_proper_initial_values() {
    assert_eq!(true, LoweringPass::new().type_map.is_empty());
}

#[test]
fn llvm_lowering_pass_visit_or_retrieve_type() {
    let mut lowering_pass = LoweringPass::new();

    let int_kind_box = AnyKindNode::IntKind(IntKind { size: IntSize::Signed32 });

    let visit_or_retrieve_result = lowering_pass.visit_or_retrieve_type(&int_kind_box);

    assert_eq!(true, visit_or_retrieve_result.is_ok());
    assert_eq!(true, visit_or_retrieve_result.ok().is_some());
    assert_eq!(1, lowering_pass.type_map.len());
}

#[test]
fn llvm_lowering_pass_visit_void_kind() {
    let mut lowering_pass = LoweringPass::new();

    let visit_void_kind_result = lowering_pass.visit_void_kind(&VoidKind {});

    assert_eq!(true, visit_void_kind_result.is_ok());
    assert_eq!(lowering_pass.type_map.len(), 1);
}

#[test]
fn llvm_lowering_pass_visit_int_kind() {
    let mut lowering_pass = LoweringPass::new();

    let visit_int_kind_result = lowering_pass.visit_int_kind(&IntKind { size: IntSize::Signed32 });

    assert_eq!(true, visit_int_kind_result.is_ok());
    assert_eq!(lowering_pass.type_map.len(), 1);
}
