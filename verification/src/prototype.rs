use vstd::prelude::*;
use crate::node::KindGroup;

verus! {

/// A named, typed formal parameter of a function signature.
pub type Parameter = (String, KindGroup);

/// Mathematical image of a `Parameter`.
pub type ParameterView = (Seq<char>, KindGroup);

/// The view of a parameter list.
pub open spec fn view_parameters(ps: Seq<Parameter>) -> Seq<ParameterView> {
    ps.map_values(|p: Parameter| (p.0@, p.1))
}

/// A function signature: name, ordered parameters, a variadic flag and
/// the return kind group.
#[derive(Hash, Eq, PartialEq, Debug)]
pub struct Prototype {
    pub name: String,
    pub parameters: Vec<Parameter>,
    pub is_variadic: bool,
    pub return_kind_group: KindGroup,
}

/// Mathematical image of a `Prototype`.
pub struct PrototypeView {
    pub name: Seq<char>,
    pub parameters: Seq<ParameterView>,
    pub is_variadic: bool,
    pub return_kind_group: KindGroup,
}

impl View for Prototype {
    type V = PrototypeView;

    open spec fn view(&self) -> PrototypeView {
        PrototypeView {
            name: self.name@,
            parameters: view_parameters(self.parameters@),
            is_variadic: self.is_variadic,
            return_kind_group: self.return_kind_group,
        }
    }
}

impl Clone for Prototype {
    fn clone(&self) -> (r: Prototype)
        ensures
            r@ == self@,
    {
        let mut parameters: Vec<Parameter> = Vec::new();
        let mut i: usize = 0;
        while i < self.parameters.len()
            invariant
                i <= self.parameters.len(),
                parameters@.len() == i,
                forall|j: int| 0 <= j < i ==> parameters@[j].0@ == self.parameters@[j].0@
                    && parameters@[j].1 == self.parameters@[j].1,
            decreases self.parameters.len() - i,
        {
            let name = self.parameters[i].0.clone();
            let kind_group = self.parameters[i].1;
            parameters.push((name, kind_group));
            i += 1;
        }
        proof {
            assert(view_parameters(parameters@) =~= view_parameters(self.parameters@));
        }
        Prototype {
            name: self.name.clone(),
            parameters,
            is_variadic: self.is_variadic,
            return_kind_group: self.return_kind_group,
        }
    }
}

} // verus!
