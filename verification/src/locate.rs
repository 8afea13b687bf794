//! Where the executable of a TA is found, and how it is started.

use vstd::prelude::*;

use crate::open::EnsureTaError;
use crate::text::{decimal, decimal_text, join_path, joined};

verus! {

/// Why the executable of a TA was not found.
#[derive(Debug, Clone, Copy, PartialEq, Eq, Structural)]
pub enum ResolveTaError {
    NotFound,
}

/// The places where the executable of a TA is looked for, in this order: under
/// its uuid, under its uuid with the ending `.ta`, and under its uuid in a
/// directory of that name.
pub open spec fn candidates(root: Seq<char>, uuid: Seq<char>) -> Seq<Seq<char>> {
    seq![
        joined(root, uuid),
        joined(root, uuid + ".ta"@),
        joined(joined(root, uuid), uuid),
    ]
}

/// The first place where there is a file.
pub open spec fn first_file(is_file: Seq<bool>) -> Option<int> {
    if is_file[0] {
        Some(0)
    } else if is_file[1] {
        Some(1)
    } else if is_file[2] {
        Some(2)
    } else {
        None
    }
}

/// The places where the executable of a TA is looked for.
pub fn ta_candidates(root: &str, uuid: &str) -> (paths: Vec<String>)
    ensures
        paths@.len() == 3,
        forall|i: int|
            0 <= i < 3 ==> (#[trigger] paths@[i])@ == candidates(root@, uuid@)[i],
{
    let plain: String = join_path(root, uuid);
    let mut with_ending: String = uuid.to_owned();
    with_ending.append(".ta");
    let ending: String = join_path(root, with_ending.as_str());
    let nested: String = join_path(plain.as_str(), uuid);
    let mut paths: Vec<String> = Vec::new();
    paths.push(plain);
    paths.push(ending);
    paths.push(nested);
    paths
}

/// The executable of a TA: the first of its candidates that is a file.
/// `is_file` says of each of them whether it is one.
pub fn resolve_ta_executable(root: &str, uuid: &str, is_file: [bool; 3]) -> (path: Result<
    String,
    ResolveTaError,
>)
    ensures
        match first_file(is_file@) {
            Some(i) => path matches Ok(p) && p@ == candidates(root@, uuid@)[i],
            None => path == Err::<String, ResolveTaError>(ResolveTaError::NotFound),
        },
        path is Ok <==> exists|i: int| 0 <= i < 3 && #[trigger] is_file@[i],
        path matches Ok(p) ==> exists|i: int|
            0 <= i < 3 && #[trigger] is_file@[i] && p@ == candidates(root@, uuid@)[i] && forall|
                k: int,
            |
                0 <= k < i ==> !(#[trigger] is_file@[k]),
{
    let paths: Vec<String> = ta_candidates(root, uuid);
    let mut i: usize = 0;
    while i < 3
        invariant
            0 <= i <= 3,
            paths@.len() == 3,
            forall|k: int| 0 <= k < 3 ==> (#[trigger] paths@[k])@ == candidates(root@, uuid@)[k],
            forall|k: int| 0 <= k < i ==> !is_file@[k],
        decreases 3 - i,
    {
        if is_file[i] {
            return Ok(paths[i].clone());
        }
        i = i + 1;
    }
    Err(ResolveTaError::NotFound)
}

/// A process to start: the program, and a variable of its environment.
#[derive(Debug)]
pub struct SpawnPlan {
    pub program: String,
    pub variable: String,
    pub value: String,
}

/// How the process of an instance is started: the executable of its TA runs
/// with the number of the instance in its environment.
pub fn spawn_plan(root: &str, uuid: &str, instance_id: u32, is_file: [bool; 3]) -> (plan: Result<
    SpawnPlan,
    EnsureTaError,
>)
    ensures
        match first_file(is_file@) {
            Some(i) => plan matches Ok(p) && p.program@ == candidates(root@, uuid@)[i]
                && p.variable@ == "XTEE_TA_INSTANCE_ID"@ && p.value@ == decimal(
                instance_id as nat,
            ),
            None => plan == Err::<SpawnPlan, EnsureTaError>(EnsureTaError::NotFound),
        },
        plan is Ok <==> exists|i: int| 0 <= i < 3 && #[trigger] is_file@[i],
        plan matches Err(e) ==> e == EnsureTaError::NotFound,
{
    match resolve_ta_executable(root, uuid, is_file) {
        Ok(program) => Ok(
            SpawnPlan {
                program,
                variable: "XTEE_TA_INSTANCE_ID".to_owned(),
                value: decimal_text(instance_id as u128),
            },
        ),
        Err(ResolveTaError::NotFound) => Err(EnsureTaError::NotFound),
    }
}

} // verus!
