//! Environment groups imported from a variable-group file: a named (or
//! default) group of the file's variables, followed by its environments.

use vstd::prelude::*;
use crate::api::pairs_view;
use crate::app::envs_view;

verus! {

/// A variable-group file: its environments (by name, in name order, each
/// with its variables in name order), its variables and an optional name.
pub struct VariableGroupFile {
    pub environments: Vec<(String, Vec<(String, String)>)>,
    pub variable: Vec<(String, String)>,
    pub name: Option<String>,
}

/// `default`.
pub open spec fn default_group_name() -> Seq<char> {
    seq!['d', 'e', 'f', 'a', 'u', 'l', 't']
}

/// The groups of a file: its variables as one group under the file's name
/// (or `default` when it has none and the variables are not empty), then
/// each environment as a group.
pub open spec fn variable_groups_spec(
    name: Option<Seq<char>>,
    vars: Seq<(Seq<char>, Seq<char>)>,
    envs: Seq<(Seq<char>, Seq<(Seq<char>, Seq<char>)>)>,
) -> Seq<(Seq<char>, Seq<(Seq<char>, Seq<char>)>)> {
    let head = match name {
        Some(n) => seq![(n, vars)],
        None => if vars.len() > 0 {
            seq![(default_group_name(), vars)]
        } else {
            Seq::empty()
        },
    };
    head + envs
}

/// The groups of a variable-group file (see `variable_groups_spec`).
pub fn variable_groups(file: VariableGroupFile) -> (r: Vec<(String, Vec<(String, String)>)>)
    ensures
        envs_view(r@) == variable_groups_spec(
            crate::api::opt_view(file.name),
            pairs_view(file.variable@),
            envs_view(file.environments@),
        ),
{
    let ghost name = crate::api::opt_view(file.name);
    let ghost vars = pairs_view(file.variable@);
    let ghost envs = envs_view(file.environments@);
    let VariableGroupFile { environments, variable, name: file_name } = file;
    let mut groups: Vec<(String, Vec<(String, String)>)> = Vec::new();
    match file_name {
        Some(n) => {
            groups.push((n, variable));
        },
        None => {
            if variable.len() > 0 {
                proof {
                    reveal_strlit("default");
                    assert("default"@ =~= default_group_name());
                }
                groups.push((crate::text::to_string("default"), variable));
            }
        },
    }
    let ghost head = envs_view(groups@);
    proof {
        assert(head + envs_view(environments@.take(0)) =~= head);
    }
    let mut i: usize = 0;
    while i < environments.len()
        invariant
            i <= environments@.len(),
            envs == envs_view(environments@),
            envs_view(groups@) == head + envs.take(i as int),
        decreases environments@.len() - i,
    {
        let e = &environments[i];
        let copy = (e.0.clone(), crate::api::clone_pairs(&e.1));
        let ghost before = groups@;
        groups.push(copy);
        i = i + 1;
        proof {
            assert(envs_view(groups@) =~= envs_view(before).push(envs[i - 1]));
            assert(envs.take(i as int) =~= envs.take(i - 1).push(envs[i - 1]));
        }
    }
    proof {
        assert(envs.take(i as int) =~= envs);
        assert(head =~= match name {
            Some(n) => seq![(n, vars)],
            None => if vars.len() > 0 {
                seq![(default_group_name(), vars)]
            } else {
                Seq::empty()
            },
        });
    }
    groups
}

} // verus!
