use cabal_backend::backend::{dispatch, BackendType, CabalBackend};
use cabal_backend::install::{
    check_dependencies, compose_paths, finish_install, InstallContext, InstallError,
    ProcessOutcome,
};
use cabal_backend::remote::{versions_from_body, FetchError};
use cabal_backend::tool::{BackendArg, ToolVersion};

fn strings(v: &[&str]) -> Vec<String> {
    v.iter().map(|s| s.to_string()).collect()
}

fn arg(tool: &str) -> BackendArg {
    BackendArg { tool: tool.to_string(), source: None }
}

fn context(resolved: &[&str]) -> InstallContext {
    InstallContext {
        toolset_env: vec![
            ("HOME".to_string(), "/home/user".to_string()),
            ("PATH".to_string(), "/usr/bin".to_string()),
        ],
        toolset_paths: strings(&["/toolset/ghc/9.4/bin"]),
        dependency_paths: strings(&["/installs/cabal/3.10/bin"]),
        ambient_paths: strings(&["/usr/bin"]),
        resolved_tools: strings(resolved),
    }
}

#[test]
fn backend_identity() {
    let b = CabalBackend::from_arg(arg("pandoc"));
    assert_eq!(b.get_type(), BackendType::Cabal);
    assert_eq!(b.ba().tool, "pandoc");
    assert_eq!(b.tool_name().as_str(), "pandoc");
    assert_eq!(b.get_dependencies(), strings(&["cabal"]));
}

#[test]
fn registry_routes_by_discriminant() {
    let b = dispatch(BackendType::Cabal, arg("hlint"));
    assert_eq!(b.get_type(), BackendType::Cabal);
    assert_eq!(b.tool_name().as_str(), "hlint");
}

#[test]
fn remote_query_is_fixed_endpoint_with_json_accept() {
    let b = CabalBackend::from_arg(arg("pandoc"));
    let q = b.remote_query();
    assert_eq!(q.url, "https://hackage.haskell.org/package/pandoc");
    assert_eq!(q.header_name, "Accept");
    assert_eq!(q.header_value, "application/json");
}

#[test]
fn remote_versions_are_listed_and_ordered() {
    let b = CabalBackend::from_arg(arg("pandoc"));
    let body = "{\"1.2.0\": {}, \"1.10.0\": {}, \"1.2.0-rc1\": {}}";
    let out = b.list_remote_versions(body).unwrap();
    assert_eq!(out, strings(&["1.2.0-rc1", "1.2.0", "1.10.0"]));
}

#[test]
fn remote_versions_malformed_body_is_an_error() {
    let err = versions_from_body("this is not json").unwrap_err();
    assert!(matches!(err, FetchError::MalformedBody));
    let err = versions_from_body("[\"1.0\"]").unwrap_err();
    assert!(matches!(err, FetchError::MalformedBody));
}

#[test]
fn path_composition_dependency_entries_win() {
    let ambient = strings(&["/ambient"]);
    let toolset = strings(&["/toolset"]);
    let dependency = strings(&["/dependency"]);
    let composed = compose_paths(&dependency, &toolset, &ambient);
    assert_eq!(composed, strings(&["/dependency", "/toolset", "/ambient"]));
}

#[test]
fn check_dependencies_ok_and_missing() {
    assert!(check_dependencies(&strings(&["cabal"]), &strings(&["ghc", "cabal"])).is_ok());
    let err = check_dependencies(&strings(&["cabal"]), &strings(&["ghc"])).unwrap_err();
    match err {
        InstallError::DependencyUnresolved { dependency } => assert_eq!(dependency, "cabal"),
        other => panic!("unexpected error {:?}", other),
    }
}

#[test]
fn install_plan_composes_command_env_and_path() {
    let b = CabalBackend::from_arg(arg("pandoc"));
    let ctx = context(&["cabal"]);
    let tv = ToolVersion::new("pandoc".to_string(), "3.1.11".to_string());
    let cmd = b.install_plan(&ctx, &tv, "/installs").unwrap();
    assert_eq!(cmd.program, "cabal");
    assert_eq!(
        cmd.args,
        strings(&["install", "pandoc-3.1.11", "--installdir", "/installs/pandoc/3.1.11/bin"])
    );
    assert_eq!(cmd.env, ctx.toolset_env);
    assert_eq!(
        cmd.path,
        strings(&["/installs/cabal/3.10/bin", "/toolset/ghc/9.4/bin", "/usr/bin"])
    );
}

#[test]
fn install_plan_fails_fast_without_dependency() {
    let b = CabalBackend::from_arg(arg("pandoc"));
    let ctx = context(&["ghc"]);
    let tv = ToolVersion::new("pandoc".to_string(), "3.1.11".to_string());
    let err = b.install_plan(&ctx, &tv, "/installs").unwrap_err();
    match err {
        InstallError::DependencyUnresolved { dependency } => assert_eq!(dependency, "cabal"),
        other => panic!("unexpected error {:?}", other),
    }
}

#[test]
fn finish_install_success_keeps_identity() {
    let tv = ToolVersion::new("pandoc".to_string(), "3.1.11".to_string());
    let installed = finish_install(tv, ProcessOutcome::Exited { code: 0 }).unwrap();
    assert_eq!(installed.tool, "pandoc");
    assert_eq!(installed.version, "3.1.11");
}

#[test]
fn finish_install_nonzero_exit_identifies_tool_and_version() {
    let tv = ToolVersion::new("pandoc".to_string(), "3.1.11".to_string());
    let err = finish_install(tv, ProcessOutcome::Exited { code: 2 }).unwrap_err();
    match err {
        InstallError::ProcessExit { tool, version, code } => {
            assert_eq!(tool, "pandoc");
            assert_eq!(version, "3.1.11");
            assert_eq!(code, 2);
        }
        other => panic!("unexpected error {:?}", other),
    }
}

#[test]
fn finish_install_spawn_failure_identifies_tool_and_version() {
    let tv = ToolVersion::new("hlint".to_string(), "3.8".to_string());
    let err = finish_install(
        tv,
        ProcessOutcome::SpawnFailed { detail: "no such executable".to_string() },
    )
    .unwrap_err();
    match err {
        InstallError::ProcessSpawn { tool, version, detail } => {
            assert_eq!(tool, "hlint");
            assert_eq!(version, "3.8");
            assert_eq!(detail, "no such executable");
        }
        other => panic!("unexpected error {:?}", other),
    }
}

#[test]
fn distinct_tool_versions_use_disjoint_install_directories() {
    let a = ToolVersion::new("pandoc".to_string(), "3.1.11".to_string());
    let b = ToolVersion::new("pandoc".to_string(), "3.2".to_string());
    let c = ToolVersion::new("hlint".to_string(), "3.2".to_string());
    let pa = a.install_path("/installs");
    let pb = b.install_path("/installs");
    let pc = c.install_path("/installs");
    assert_eq!(pa, "/installs/pandoc/3.1.11");
    assert_ne!(pa, pb);
    assert_ne!(pb, pc);
    assert_ne!(pa, pc);
    // Each install writes only below its own directory: the composed
    // destination stays under the version's install path.
    let backend = CabalBackend::from_arg(arg("pandoc"));
    let ctx = context(&["cabal"]);
    let cmd_a = backend.install_plan(&ctx, &a, "/installs").unwrap();
    let cmd_b = backend.install_plan(&ctx, &b, "/installs").unwrap();
    assert!(cmd_a.args[3].starts_with(&pa));
    assert!(cmd_b.args[3].starts_with(&pb));
    assert!(!cmd_a.args[3].starts_with(&pb));
    assert!(!cmd_b.args[3].starts_with(&pa));
}
