//! Installation orchestration: composing the installer's environment and
//! PATH, failing fast on unresolved dependencies, and turning the outcome of
//! the installer process into the install result.
//!
//! Spawning the installer is a collaborator outside this crate: it receives
//! the composed command as plain values and hands back a `ProcessOutcome`.

use vstd::prelude::*;
use crate::tool::ToolVersion;

verus! {

/// What running (or failing to run) the installer process came to.
#[derive(Debug)]
pub enum ProcessOutcome {
    /// The process ran and exited with this code.
    Exited { code: i32 },
    /// The process could not be started at all.
    SpawnFailed { detail: String },
}

/// Why an install attempt failed. Process failures carry the failing
/// tool + version identity; a partial install is never reported as success.
#[derive(Debug)]
pub enum InstallError {
    /// A declared dependency tool is not resolvable, found before any
    /// process was spawned.
    DependencyUnresolved { dependency: String },
    /// The installer process could not be started.
    ProcessSpawn { tool: String, version: String, detail: String },
    /// The installer process exited nonzero.
    ProcessExit { tool: String, version: String, code: i32 },
}

/// What every backend reads, and never writes, during an install: the
/// toolset's computed environment, the PATH contributions of the toolset's
/// already-resolved tools, the PATH contributions of this backend's resolved
/// dependencies, the ambient PATH entries, and the names of the tools the
/// registry can resolve.
#[derive(Debug)]
pub struct InstallContext {
    pub toolset_env: Vec<(String, String)>,
    pub toolset_paths: Vec<String>,
    pub dependency_paths: Vec<String>,
    pub ambient_paths: Vec<String>,
    pub resolved_tools: Vec<String>,
}

/// The fully composed installer invocation, handed to the process-running
/// collaborator: executable name, argument list, environment map, and the
/// PATH entries in order of precedence (first entry wins).
#[derive(Debug)]
pub struct InstallCommand {
    pub program: String,
    pub args: Vec<String>,
    pub env: Vec<(String, String)>,
    pub path: Vec<String>,
}

/// The composed PATH order: dependency entries first, then toolset entries,
/// then the ambient entries — a later prepend takes priority, so a backend's
/// declared dependencies shadow toolset and system installs of the same
/// tool.
pub fn compose_paths(
    dependency_paths: &Vec<String>,
    toolset_paths: &Vec<String>,
    ambient_paths: &Vec<String>,
) -> (r: Vec<String>)
    ensures
        r@ == dependency_paths@ + toolset_paths@ + ambient_paths@,
{
    let mut r: Vec<String> = Vec::new();
    append_cloned(&mut r, dependency_paths);
    append_cloned(&mut r, toolset_paths);
    append_cloned(&mut r, ambient_paths);
    proof {
        assert(r@ =~= dependency_paths@ + toolset_paths@ + ambient_paths@);
    }
    r
}

/// Pushes a clone of every element of `src` onto `dst`, in order.
fn append_cloned(dst: &mut Vec<String>, src: &Vec<String>)
    ensures
        final(dst)@ == old(dst)@ + src@,
{
    let mut i: usize = 0;
    while i < src.len()
        invariant
            i <= src@.len(),
            dst@ == old(dst)@ + src@.subrange(0, i as int),
        decreases src@.len() - i,
    {
        dst.push(src[i].clone());
        proof {
            assert(old(dst)@ + src@.subrange(0, i as int) + seq![src@[i as int]] =~= old(dst)@
                + src@.subrange(0, i + 1));
        }
        i = i + 1;
    }
    proof {
        assert(src@.subrange(0, src@.len() as int) =~= src@);
    }
}

/// A clone of an environment map, pair by pair.
pub fn clone_env(env: &Vec<(String, String)>) -> (r: Vec<(String, String)>)
    ensures
        r@ == env@,
{
    let mut r: Vec<(String, String)> = Vec::new();
    let mut i: usize = 0;
    while i < env.len()
        invariant
            i <= env@.len(),
            r@ == env@.subrange(0, i as int),
        decreases env@.len() - i,
    {
        r.push((env[i].0.clone(), env[i].1.clone()));
        proof {
            assert(env@.subrange(0, i as int).push(env@[i as int]) =~= env@.subrange(0, i + 1));
        }
        i = i + 1;
    }
    proof {
        assert(env@.subrange(0, env@.len() as int) =~= env@);
    }
    r
}

/// Whether some string in `names` reads `name`.
pub open spec fn contains_name(names: Seq<String>, name: Seq<char>) -> bool {
    exists|j: int| 0 <= j < names.len() && names[j]@ == name
}

fn contains_name_exec(names: &Vec<String>, name: &String) -> (r: bool)
    ensures
        r == contains_name(names@, name@),
{
    let mut j: usize = 0;
    while j < names.len()
        invariant
            j <= names@.len(),
            forall|k: int| 0 <= k < j ==> names@[k]@ != name@,
        decreases names@.len() - j,
    {
        if *name == names[j] {
            return true;
        }
        j = j + 1;
    }
    false
}

/// Fails fast when a declared dependency is not resolvable: `Ok` exactly
/// when every dependency is among the resolvable tools, else the first
/// unresolvable dependency, found before any installer process is spawned.
pub fn check_dependencies(dependencies: &Vec<String>, resolved_tools: &Vec<String>) -> (r: Result<
    (),
    InstallError,
>)
    ensures
        r is Ok <==> (forall|i: int|
            0 <= i < dependencies@.len() ==> contains_name(
                resolved_tools@,
                #[trigger] dependencies@[i]@,
            )),
        r matches Err(e) ==> e matches InstallError::DependencyUnresolved { dependency } && {
            exists|i: int|
                {
                    &&& 0 <= i < dependencies@.len()
                    &&& dependencies@[i]@ == dependency@
                    &&& !contains_name(resolved_tools@, dependency@)
                    &&& forall|k: int|
                        0 <= k < i ==> contains_name(resolved_tools@, #[trigger] dependencies@[k]@)
                }
        },
{
    let mut i: usize = 0;
    while i < dependencies.len()
        invariant
            i <= dependencies@.len(),
            forall|k: int|
                0 <= k < i ==> contains_name(resolved_tools@, #[trigger] dependencies@[k]@),
        decreases dependencies@.len() - i,
    {
        if !contains_name_exec(resolved_tools, &dependencies[i]) {
            return Err(
                InstallError::DependencyUnresolved { dependency: dependencies[i].clone() },
            );
        }
        i = i + 1;
    }
    Ok(())
}

/// The install result from the installer process's outcome: success exactly
/// on a zero exit, with the tool version's identity untouched; any other
/// outcome is an error carrying that identity, so a partial install is never
/// reported as installed.
pub fn finish_install(tv: ToolVersion, outcome: ProcessOutcome) -> (r: Result<
    ToolVersion,
    InstallError,
>)
    ensures
        (outcome is Exited && outcome->Exited_code == 0) <==> (r is Ok && r->Ok_0 == tv),
        outcome is Exited && outcome->Exited_code != 0 ==> r is Err && r->Err_0 is ProcessExit
            && r->Err_0->ProcessExit_tool == tv.tool && r->Err_0->ProcessExit_version == tv.version
            && r->Err_0->ProcessExit_code == outcome->Exited_code,
        outcome is SpawnFailed ==> r is Err && r->Err_0 is ProcessSpawn
            && r->Err_0->ProcessSpawn_tool == tv.tool && r->Err_0->ProcessSpawn_version
            == tv.version && r->Err_0->ProcessSpawn_detail == outcome->SpawnFailed_detail,
{
    match outcome {
        ProcessOutcome::Exited { code } => {
            if code == 0 {
                Ok(tv)
            } else {
                Err(InstallError::ProcessExit { tool: tv.tool, version: tv.version, code })
            }
        },
        ProcessOutcome::SpawnFailed { detail } => {
            Err(InstallError::ProcessSpawn { tool: tv.tool, version: tv.version, detail })
        },
    }
}

} // verus!
