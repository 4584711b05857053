//! Environment sanitization for spawned shells. Continuous-integration
//! indicator variables and IDE/editor integration hooks make spinner and
//! prompt libraries disable cursor-based redraws, which tears the rendering
//! inside an embedded terminal; they are removed from the command's
//! environment before the shell is spawned. Everything else — tokens,
//! credentials, tool configuration — passes through untouched.

use vstd::prelude::*;
use crate::pty::cmd_argv_of;
use crate::pty::cmd_env_of;
use crate::pty::cmd_env_remove;
use crate::strutil::prefix_of;
use crate::strutil::str_has_prefix;

verus! {

/// A fixed denylist of continuous-integration indicator variables.
pub open spec fn is_ci_var(k: Seq<char>) -> bool {
    ||| k == "CI"@
    ||| k == "CONTINUOUS_INTEGRATION"@
    ||| k == "BUILD_NUMBER"@
    ||| k == "RUN_ID"@
    ||| k == "CI_NAME"@
    ||| k == "GITHUB_ACTIONS"@
    ||| k == "GITLAB_CI"@
    ||| k == "CIRCLECI"@
    ||| k == "TRAVIS"@
    ||| k == "APPVEYOR"@
    ||| k == "BUILDKITE"@
    ||| k == "DRONE"@
    ||| k == "SEMAPHORE"@
    ||| k == "TF_BUILD"@
    ||| k == "TEAMCITY_VERSION"@
    ||| k == "JENKINS_URL"@
    ||| k == "HUDSON_URL"@
    ||| k == "BITBUCKET_COMMIT"@
    ||| k == "CODEBUILD_BUILD_ARN"@
    ||| k == "SYSTEM_TEAMFOUNDATIONCOLLECTIONURI"@
}

/// A short fixed list of terminal-identity and credential-prompt-hook
/// variables, removed unconditionally.
pub open spec fn is_hook_var(k: Seq<char>) -> bool {
    ||| k == "TERM_PROGRAM"@
    ||| k == "TERM_PROGRAM_VERSION"@
    ||| k == "VSCODE_IPC_HOOK_CLI"@
    ||| k == "GIT_ASKPASS"@
    ||| k == "SSH_ASKPASS"@
}

/// Names starting with an IDE/editor integration prefix.
pub open spec fn has_ide_prefix(k: Seq<char>) -> bool {
    ||| prefix_of("VSCODE_"@, k)
    ||| prefix_of("ELECTRON_"@, k)
    ||| prefix_of("GITHUB_CODESPACES_"@, k)
}

/// The variables the sanitizer removes, given the names present in the
/// ambient environment: the fixed CI denylist, the fixed hook list, and
/// every ambient name carrying an IDE prefix.
pub open spec fn denied(k: Seq<char>, ambient: Seq<Seq<char>>) -> bool {
    ||| is_ci_var(k)
    ||| is_hook_var(k)
    ||| (has_ide_prefix(k) && ambient.contains(k))
}

/// The set of all denied names, given the ambient environment's names.
pub open spec fn denied_keys(ambient: Seq<Seq<char>>) -> Set<Seq<char>> {
    Set::new(|k: Seq<char>| denied(k, ambient))
}

/// Does this name start with one of the IDE/editor integration prefixes?
pub fn name_has_ide_prefix(name: &str) -> (b: bool)
    ensures
        b == has_ide_prefix(name@),
{
    str_has_prefix(name, "VSCODE_") || str_has_prefix(name, "ELECTRON_") || str_has_prefix(
        name,
        "GITHUB_CODESPACES_",
    )
}

/// Strip environment variables that trick spinner/prompt libraries into
/// disabling cursor-based redraws (CI flags, IDE hooks, terminal identity,
/// credential-prompt hooks). `ambient` is the list of variable names of
/// the ambient process environment, which the caller supplies; a denylist
/// is used so that everything not denied passes through unchanged.
pub fn sanitize_env(cmd: &mut portable_pty::CommandBuilder, ambient: &Vec<String>)
    ensures
        cmd_argv_of(*final(cmd)) == cmd_argv_of(*old(cmd)),
        cmd_env_of(*final(cmd)) == cmd_env_of(*old(cmd)).remove_keys(
            denied_keys(ambient@.map_values(|n: String| n@)),
        ),
        forall|k: Seq<char>| #![trigger cmd_env_of(*final(cmd)).dom().contains(k)]
            cmd_env_of(*final(cmd)).dom().contains(k) <==> (cmd_env_of(
                *old(cmd),
            ).dom().contains(k) && !denied(k, ambient@.map_values(|n: String| n@))),
        forall|k: Seq<char>| #![trigger cmd_env_of(*final(cmd))[k]]
            cmd_env_of(*final(cmd)).dom().contains(k) ==> cmd_env_of(*final(cmd))[k] == cmd_env_of(
                *old(cmd),
            )[k],
{
    let ghost names = ambient@.map_values(|n: String| n@);
    let ghost env0 = cmd_env_of(*old(cmd));
    let ghost argv0 = cmd_argv_of(*old(cmd));
    cmd_env_remove(cmd, "CI");
    cmd_env_remove(cmd, "CONTINUOUS_INTEGRATION");
    cmd_env_remove(cmd, "BUILD_NUMBER");
    cmd_env_remove(cmd, "RUN_ID");
    cmd_env_remove(cmd, "CI_NAME");
    cmd_env_remove(cmd, "GITHUB_ACTIONS");
    cmd_env_remove(cmd, "GITLAB_CI");
    cmd_env_remove(cmd, "CIRCLECI");
    cmd_env_remove(cmd, "TRAVIS");
    cmd_env_remove(cmd, "APPVEYOR");
    cmd_env_remove(cmd, "BUILDKITE");
    cmd_env_remove(cmd, "DRONE");
    cmd_env_remove(cmd, "SEMAPHORE");
    cmd_env_remove(cmd, "TF_BUILD");
    cmd_env_remove(cmd, "TEAMCITY_VERSION");
    cmd_env_remove(cmd, "JENKINS_URL");
    cmd_env_remove(cmd, "HUDSON_URL");
    cmd_env_remove(cmd, "BITBUCKET_COMMIT");
    cmd_env_remove(cmd, "CODEBUILD_BUILD_ARN");
    cmd_env_remove(cmd, "SYSTEM_TEAMFOUNDATIONCOLLECTIONURI");
    let ghost env_ci = cmd_env_of(*cmd);
    proof {
        assert(forall|k: Seq<char>| #![trigger env_ci.dom().contains(k)]
            env_ci.dom().contains(k) <==> (env0.dom().contains(k) && !is_ci_var(k)));
        assert(forall|k: Seq<char>| #![trigger env_ci[k]]
            env_ci.dom().contains(k) ==> env_ci[k] == env0[k]);
    }
    let mut i: usize = 0;
    while i < ambient.len()
        invariant
            i <= ambient.len(),
            names == ambient@.map_values(|n: String| n@),
            names.len() == ambient.len(),
            cmd_argv_of(*cmd) == argv0,
            forall|k: Seq<char>| #![trigger cmd_env_of(*cmd).dom().contains(k)]
                cmd_env_of(*cmd).dom().contains(k) <==> (env_ci.dom().contains(k) && !(
                has_ide_prefix(k) && exists|j: int| 0 <= j < i && names[j] == k)),
            forall|k: Seq<char>| #![trigger cmd_env_of(*cmd)[k]]
                cmd_env_of(*cmd).dom().contains(k) ==> cmd_env_of(*cmd)[k] == env_ci[k],
        decreases ambient.len() - i,
    {
        proof {
            assert(names[i as int] == ambient@[i as int]@);
        }
        if name_has_ide_prefix(ambient[i].as_str()) {
            cmd_env_remove(cmd, ambient[i].as_str());
        }
        i = i + 1;
    }
    cmd_env_remove(cmd, "TERM_PROGRAM");
    cmd_env_remove(cmd, "TERM_PROGRAM_VERSION");
    cmd_env_remove(cmd, "VSCODE_IPC_HOOK_CLI");
    cmd_env_remove(cmd, "GIT_ASKPASS");
    cmd_env_remove(cmd, "SSH_ASKPASS");
    proof {
        assert(forall|k: Seq<char>| #![trigger names.contains(k)]
            names.contains(k) <==> exists|j: int| 0 <= j < names.len() && names[j] == k);
        assert(forall|k: Seq<char>| #![trigger cmd_env_of(*cmd).dom().contains(k)]
            cmd_env_of(*cmd).dom().contains(k) <==> (env0.dom().contains(k) && !denied(
            k,
            names,
        )));
        assert(cmd_env_of(*cmd) =~= env0.remove_keys(denied_keys(names)));
    }
}

} // verus!
