//! The directory enumerator: which of a scanned directory's children are
//! environments, and the record built for each.
//!
//! The caller lists the directory and probes each immediate child; this
//! module turns the per-child probe results into discovery records, one per
//! directory child with an interpreter, in enumeration order.

use vstd::prelude::*;
use crate::env::PythonEnv;
use crate::env::PythonEnvView;
use crate::env::opt_str_view;

verus! {

/// What probing one immediate child of the scanned directory found.
pub struct ChildProbe {
    /// Path of the child itself.
    pub path: String,
    /// Whether the child is a directory.
    pub is_dir: bool,
    /// The interpreter the prober found under the child, if any.
    pub executable: Option<String>,
    /// The version resolved for that interpreter, when one was found.
    pub version: Option<String>,
}

/// The environments discovered among the children from index `i` on: one
/// record per directory child with an interpreter, in enumeration order,
/// carrying the child's path as its root.
pub open spec fn environments_from(children: Seq<ChildProbe>, i: int) -> Seq<PythonEnvView>
    decreases children.len() - i,
{
    if i < 0 || i >= children.len() {
        seq![]
    } else {
        let rest = environments_from(children, i + 1);
        if !children[i].is_dir {
            rest
        } else {
            match children[i].executable {
                Some(exe) => seq![
                    PythonEnvView {
                        executable: exe@,
                        path: Some(children[i].path@),
                        version: opt_str_view(children[i].version),
                    },
                ] + rest,
                None => rest,
            }
        }
    }
}

fn clone_opt_string(o: &Option<String>) -> (r: Option<String>)
    ensures
        r == *o,
{
    match o {
        Some(s) => Some(s.clone()),
        None => None,
    }
}

/// Builds the discovery records for a scanned directory from the per-child
/// probe results: exactly the directory children with an interpreter, in
/// order, each with its root path set.
pub fn list_python_environments(children: &Vec<ChildProbe>) -> (r: Vec<PythonEnv>)
    ensures
        r@.map_values(|e: PythonEnv| e@) == environments_from(children@, 0),
{
    let n = children.len();
    let mut r: Vec<PythonEnv> = Vec::new();
    let mut i: usize = 0;
    while i < n
        invariant
            i <= n,
            n == children@.len(),
            environments_from(children@, 0) == r@.map_values(|e: PythonEnv| e@)
                + environments_from(children@, i as int),
        decreases n - i,
    {
        let ghost prev = r@.map_values(|e: PythonEnv| e@);
        let c = &children[i];
        if c.is_dir {
            if let Some(exe) = &c.executable {
                let env = PythonEnv::new(
                    exe.clone(),
                    Some(c.path.clone()),
                    clone_opt_string(&c.version),
                );
                r.push(env);
                proof {
                    assert(r@.map_values(|e: PythonEnv| e@) =~= prev.push(
                        r@[r@.len() - 1]@,
                    ));
                }
            }
        }
        proof {
            assert(environments_from(children@, 0) =~= r@.map_values(|e: PythonEnv| e@)
                + environments_from(children@, i + 1));
        }
        i = i + 1;
    }
    proof {
        assert(environments_from(children@, i as int) =~= Seq::<PythonEnvView>::empty());
        assert(environments_from(children@, 0) =~= r@.map_values(|e: PythonEnv| e@));
    }
    r
}

/// Law: every environment the enumerator reports carries a root path.
pub proof fn lemma_environments_have_roots(children: Seq<ChildProbe>, i: int)
    ensures
        forall|k: int|
            0 <= k < environments_from(children, i).len() ==> (#[trigger] environments_from(
                children,
                i,
            )[k]).path is Some,
    decreases children.len() - i,
{
    if 0 <= i < children.len() {
        lemma_environments_have_roots(children, i + 1);
    }
}

} // verus!
