use vstd::prelude::*;

use crate::text::{equal_text, views};

verus! {

/// One parameter of a build: its name and its value as JSON text.
#[derive(Debug)]
pub struct ParameterValue {
    pub name: String,
    pub value: String,
}

/// One action recorded on a build: its class and the parameters it holds.
#[derive(Debug)]
pub struct BuildAction {
    pub class: String,
    pub parameters: Vec<ParameterValue>,
}

/// The class of the action that holds a build's parameters.
pub open spec fn parameters_class() -> Seq<char> {
    "hudson.model.ParametersAction"@
}

/// `name=value`
pub open spec fn parameter_line(p: ParameterValue) -> Seq<char> {
    p.name@ + "="@ + p.value@
}

/// The lines of a parameter report: `name=value` for each parameter of each
/// parameters action, in order; other actions are passed over.
pub open spec fn parameter_report(actions: Seq<BuildAction>) -> Seq<Seq<char>>
    decreases actions.len(),
{
    if actions.len() == 0 {
        seq![]
    } else {
        let a = actions.last();
        parameter_report(actions.drop_last()) + if a.class@ == parameters_class() {
            a.parameters@.map_values(|p: ParameterValue| parameter_line(p))
        } else {
            seq![]
        }
    }
}

/// The lines of the parameter report of a build with these actions.
pub fn parameter_lines(actions: &Vec<BuildAction>) -> (r: Vec<String>)
    ensures
        views(r@) == parameter_report(actions@),
{
    let mut r: Vec<String> = Vec::new();
    let mut i: usize = 0;
    while i < actions.len()
        invariant
            i <= actions.len(),
            views(r@) == parameter_report(actions@.subrange(0, i as int)),
        decreases actions.len() - i,
    {
        let a = &actions[i];
        let ghost before = views(r@);
        assert(actions@.subrange(0, i + 1).drop_last() == actions@.subrange(0, i as int));
        if equal_text(a.class.as_str(), "hudson.model.ParametersAction") {
            let mut j: usize = 0;
            while j < a.parameters.len()
                invariant
                    j <= a.parameters.len(),
                    views(r@) == before + a.parameters@.subrange(0, j as int).map_values(
                        |p: ParameterValue| parameter_line(p),
                    ),
                decreases a.parameters.len() - j,
            {
                let p = &a.parameters[j];
                let mut line = p.name.clone();
                line.append("=");
                line.append(p.value.as_str());
                proof {
                    assert(views(r@.push(line)) =~= views(r@).push(line@));
                    assert(a.parameters@.subrange(0, j + 1).map_values(
                        |p: ParameterValue| parameter_line(p),
                    ) =~= a.parameters@.subrange(0, j as int).map_values(
                        |p: ParameterValue| parameter_line(p),
                    ).push(parameter_line(*p)));
                }
                r.push(line);
                j = j + 1;
            }
            assert(a.parameters@.subrange(0, a.parameters.len() as int) == a.parameters@);
        } else {
            assert(views(r@) =~= before + seq![]);
        }
        i = i + 1;
    }
    assert(actions@.subrange(0, actions.len() as int) == actions@);
    r
}

} // verus!
