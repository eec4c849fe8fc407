use vstd::prelude::*;

verus! {

/// An opaque type handle the code-generation target returned.
#[derive(Hash, Eq, PartialEq, Debug, Copy, Clone, Structural)]
pub struct TargetType(pub u64);

/// An opaque value handle the code-generation target returned.
#[derive(Hash, Eq, PartialEq, Debug, Copy, Clone, Structural)]
pub struct TargetValue(pub u64);

/// An opaque function handle the code-generation target returned.
#[derive(Hash, Eq, PartialEq, Debug, Copy, Clone, Structural)]
pub struct TargetFunction(pub u64);

/// An opaque basic-block handle the code-generation target returned.
#[derive(Hash, Eq, PartialEq, Debug, Copy, Clone, Structural)]
pub struct TargetBlock(pub u64);

/// How a declared function is visible to other translation units.
#[derive(Hash, Eq, PartialEq, Debug, Copy, Clone, Structural)]
pub enum Linkage {
    External,
    Private,
}

/// A function type signature on the code-generation target.
#[derive(Hash, Eq, PartialEq, Debug, Copy, Clone, Structural)]
pub struct TargetSignature {
    pub return_type: TargetType,
    pub is_variadic: bool,
}

/// One request driven into the code-generation target. The lowering
/// pass records the requests it makes in order; a concrete backend
/// replays them, handing each `result` handle its own object.
#[derive(Debug)]
pub enum TargetAction {
    MapIntType { bits: u32, result: TargetType },
    MapVoidType { result: TargetType },
    ConstBool { value: bool, result: TargetValue },
    DeclareFunction { name: String, signature: TargetSignature, linkage: Linkage, result: TargetFunction },
    OpenBlock { function: TargetFunction, result: TargetBlock },
    PositionAt { block: TargetBlock },
    BuildReturn { value: Option<TargetValue> },
}

/// Mathematical image of a `TargetAction`.
pub enum TargetActionView {
    MapIntType { bits: u32, result: TargetType },
    MapVoidType { result: TargetType },
    ConstBool { value: bool, result: TargetValue },
    DeclareFunction {
        name: Seq<char>,
        signature: TargetSignature,
        linkage: Linkage,
        result: TargetFunction,
    },
    OpenBlock { function: TargetFunction, result: TargetBlock },
    PositionAt { block: TargetBlock },
    BuildReturn { value: Option<TargetValue> },
}

impl View for TargetAction {
    type V = TargetActionView;

    open spec fn view(&self) -> TargetActionView {
        match self {
            TargetAction::MapIntType { bits, result } => TargetActionView::MapIntType {
                bits: *bits,
                result: *result,
            },
            TargetAction::MapVoidType { result } => TargetActionView::MapVoidType {
                result: *result,
            },
            TargetAction::ConstBool { value, result } => TargetActionView::ConstBool {
                value: *value,
                result: *result,
            },
            TargetAction::DeclareFunction { name, signature, linkage, result } => {
                TargetActionView::DeclareFunction {
                    name: name@,
                    signature: *signature,
                    linkage: *linkage,
                    result: *result,
                }
            },
            TargetAction::OpenBlock { function, result } => TargetActionView::OpenBlock {
                function: *function,
                result: *result,
            },
            TargetAction::PositionAt { block } => TargetActionView::PositionAt { block: *block },
            TargetAction::BuildReturn { value } => TargetActionView::BuildReturn {
                value: *value,
            },
        }
    }
}

} // verus!
