//! The Hackage (cabal) backend and the registry dispatch that routes a
//! backend discriminant to its implementation.

use vstd::prelude::*;
use crate::install::{
    check_dependencies, clone_env, compose_paths, contains_name, InstallCommand, InstallContext,
    InstallError,
};
use crate::remote::{
    accept_header, json_object_keys, remote_versions_url, versions_from_body, FetchError,
};
use crate::tool::{install_path_spec, BackendArg, ToolVersion};
use crate::version_order::{sorted, views};

verus! {

/// The stable discriminant a backend is selected by: one per supported
/// ecosystem, no two variants shared.
#[derive(Clone, Copy, Debug, PartialEq, Eq, Structural)]
pub enum BackendType {
    Cabal,
}

/// A remote version query, described as plain values for the HTTP
/// collaborator: where to ask, and the explicit header to ask with.
#[derive(Debug)]
pub struct RemoteQuery {
    pub url: String,
    pub header_name: String,
    pub header_value: String,
}

/// The backend for the Haskell ecosystem: lists installable versions from
/// Hackage and installs them through the `cabal` executable.
#[derive(Debug)]
pub struct CabalBackend {
    ba: BackendArg,
}

impl CabalBackend {
    /// The argument this backend owns, as contracts speak of it.
    pub closed spec fn arg(&self) -> BackendArg {
        self.ba
    }

    pub fn from_arg(ba: BackendArg) -> (r: Self)
        ensures
            r.arg() == ba,
    {
        Self { ba }
    }

    /// The discriminant this backend is registered under.
    pub fn get_type(&self) -> (t: BackendType)
        ensures
            t == BackendType::Cabal,
    {
        BackendType::Cabal
    }

    /// The argument this backend was built from.
    pub fn ba(&self) -> (r: &BackendArg)
        ensures
            *r == self.arg(),
    {
        &self.ba
    }

    /// The name of the tool this backend manages.
    pub fn tool_name(&self) -> (r: &String)
        ensures
            *r == self.arg().tool,
    {
        &self.ba.tool
    }

    /// The tools that must be resolvable before this backend's installer may
    /// run: the `cabal` executable itself.
    pub fn get_dependencies(&self) -> (r: Vec<String>)
        ensures
            views(r@) == seq!["cabal"@],
    {
        let mut v: Vec<String> = Vec::new();
        v.push(String::from_str("cabal"));
        proof {
            assert(views(v@) =~= seq!["cabal"@]);
        }
        v
    }

    /// The remote version query for this backend's tool: the fixed Hackage
    /// URL templated with the tool name, and the explicit JSON accept header
    /// that avoids the HTML fallback response.
    pub fn remote_query(&self) -> (r: RemoteQuery)
        ensures
            r.url@ == "https://hackage.haskell.org/package/"@ + self.arg().tool@,
            r.header_name@ == "Accept"@,
            r.header_value@ == "application/json"@,
    {
        let (header_name, header_value) = accept_header();
        RemoteQuery { url: remote_versions_url(self.ba.tool.as_str()), header_name, header_value }
    }

    /// Every version identifier the remote source lists for this tool, in
    /// ascending ecosystem order, from the fetched response body.
    pub fn list_remote_versions(&self, body: &str) -> (r: Result<Vec<String>, FetchError>)
        ensures
            r is Ok <==> json_object_keys(body@) is Some,
            r matches Ok(v) ==> json_object_keys(body@) == Some(views(v@).to_set()),
            r matches Ok(v) ==> views(v@).no_duplicates(),
            r matches Ok(v) ==> sorted(views(v@)),
            r matches Err(e) ==> e is MalformedBody,
    {
        versions_from_body(body)
    }

    /// Composes the installer invocation for one tool version. Fails fast,
    /// before any process is spawned, when a declared dependency is not
    /// resolvable; otherwise the `cabal install` command with the
    /// `<name>-<version>` token, the destination under the version's own
    /// binaries directory (never the bare install path), the toolset's
    /// environment, and the PATH composed so dependency entries win.
    pub fn install_plan(
        &self,
        ctx: &InstallContext,
        tv: &ToolVersion,
        installs_root: &str,
    ) -> (r: Result<InstallCommand, InstallError>)
        ensures
            r is Ok <==> contains_name(ctx.resolved_tools@, "cabal"@),
            r matches Ok(c) ==> c.program@ == "cabal"@,
            r matches Ok(c) ==> views(c.args@) == seq![
                "install"@,
                self.arg().tool@ + "-"@ + tv.version@,
                "--installdir"@,
                install_path_spec(installs_root@, tv.tool@, tv.version@) + "/bin"@,
            ],
            r matches Ok(c) ==> c.env@ == ctx.toolset_env@,
            r matches Ok(c) ==> c.path@ == ctx.dependency_paths@ + ctx.toolset_paths@
                + ctx.ambient_paths@,
            r matches Err(e) ==> e is DependencyUnresolved
                && e->DependencyUnresolved_dependency@ == "cabal"@,
    {
        let deps = self.get_dependencies();
        match check_dependencies(&deps, &ctx.resolved_tools) {
            Err(e) => {
                proof {
                    assert(views(deps@).len() == 1);
                    assert(views(deps@)[0] == deps@[0]@);
                    assert(deps@[0]@ == "cabal"@);
                }
                Err(e)
            },
            Ok(()) => {
                proof {
                    assert(views(deps@).len() == 1);
                    assert(deps@.len() == 1);
                    assert(views(deps@)[0] == deps@[0]@);
                    assert(deps@[0]@ == "cabal"@);
                    assert(contains_name(ctx.resolved_tools@, deps@[0]@));
                }
                let token = self.ba.tool.clone().concat("-").concat(tv.version.as_str());
                let mut dest = tv.install_path(installs_root);
                dest.append("/bin");
                let mut args: Vec<String> = Vec::new();
                args.push(String::from_str("install"));
                args.push(token);
                args.push(String::from_str("--installdir"));
                args.push(dest);
                proof {
                    assert(views(args@) =~= seq![
                        "install"@,
                        self.arg().tool@ + "-"@ + tv.version@,
                        "--installdir"@,
                        install_path_spec(installs_root@, tv.tool@, tv.version@) + "/bin"@,
                    ]);
                }
                Ok(
                    InstallCommand {
                        program: String::from_str("cabal"),
                        args,
                        env: clone_env(&ctx.toolset_env),
                        path: compose_paths(
                            &ctx.dependency_paths,
                            &ctx.toolset_paths,
                            &ctx.ambient_paths,
                        ),
                    },
                )
            },
        }
    }
}

/// The registry's routing: a backend discriminant and argument select the
/// backend implementation. Pure dispatch, no business logic of its own.
pub fn dispatch(t: BackendType, ba: BackendArg) -> (r: CabalBackend)
    ensures
        r.arg() == ba,
{
    match t {
        BackendType::Cabal => CabalBackend::from_arg(ba),
    }
}

} // verus!
