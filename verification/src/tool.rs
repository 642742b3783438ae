//! The data model: a backend argument, a resolved tool version, and the
//! deterministic, isolated install path computed from tool identity and
//! version.

use vstd::prelude::*;

verus! {

/// Identifies the tool a backend is built for: its name, and an optional
/// override of the remote source. Immutable once constructed.
#[derive(Debug)]
pub struct BackendArg {
    pub tool: String,
    pub source: Option<String>,
}

/// A resolved (tool, version) pair. Its install path is not stored: it is
/// computed deterministically from the identity, so equal identities always
/// name the same directory and distinct identities never share one.
#[derive(Debug)]
pub struct ToolVersion {
    pub tool: String,
    pub version: String,
}

/// A path component that keeps install paths isolated: non-empty and without
/// a separator, so it cannot escape into a sibling's directory.
pub open spec fn component_ok(s: Seq<char>) -> bool {
    s.len() > 0 && forall|i: int| 0 <= i < s.len() ==> s[i] != '/'
}

/// The install path of a tool version under a given installs root.
pub open spec fn install_path_spec(root: Seq<char>, tool: Seq<char>, version: Seq<char>) -> Seq<
    char,
> {
    root + seq!['/'] + tool + seq!['/'] + version
}

impl ToolVersion {
    pub fn new(tool: String, version: String) -> (r: ToolVersion)
        ensures
            r.tool == tool,
            r.version == version,
    {
        ToolVersion { tool, version }
    }

    /// Both components can stand as path components.
    pub open spec fn well_formed(&self) -> bool {
        component_ok(self.tool@) && component_ok(self.version@)
    }

    /// The isolated install directory of this tool version: keyed by tool
    /// identity and version under the installs root.
    pub fn install_path(&self, installs_root: &str) -> (r: String)
        ensures
            r@ == install_path_spec(installs_root@, self.tool@, self.version@),
    {
        let mut s = String::from_str(installs_root);
        s.append("/");
        s.append(self.tool.as_str());
        s.append("/");
        s.append(self.version.as_str());
        proof {
            reveal_strlit("/");
            assert("/"@ =~= seq!['/']);
            assert(s@ =~= install_path_spec(installs_root@, self.tool@, self.version@));
        }
        s
    }
}

/// Distinct tool versions never share an install directory: under one root,
/// well-formed identities map to distinct paths, so installs that run side by
/// side each write only below their own directory.
pub proof fn lemma_install_paths_disjoint(
    root: Seq<char>,
    t1: Seq<char>,
    v1: Seq<char>,
    t2: Seq<char>,
    v2: Seq<char>,
)
    requires
        component_ok(t1),
        component_ok(v1),
        component_ok(t2),
        component_ok(v2),
        t1 != t2 || v1 != v2,
    ensures
        install_path_spec(root, t1, v1) != install_path_spec(root, t2, v2),
{
    let sep = seq!['/'];
    let p1 = install_path_spec(root, t1, v1);
    let p2 = install_path_spec(root, t2, v2);
    let rl = root.len() as int;
    if p1 == p2 {
        assert(p1.len() == rl + 1 + t1.len() + 1 + v1.len());
        assert(p2.len() == rl + 1 + t2.len() + 1 + v2.len());
        if t1.len() < t2.len() {
            let idx = rl + 1 + t1.len() as int;
            assert(p1[idx] == '/');
            assert(p2[idx] == t2[t1.len() as int]);
            assert(false);
        }
        if t2.len() < t1.len() {
            let idx = rl + 1 + t2.len() as int;
            assert(p2[idx] == '/');
            assert(p1[idx] == t1[t2.len() as int]);
            assert(false);
        }
        assert(t1 =~= t2) by {
            assert forall|i: int| 0 <= i < t1.len() implies t1[i] == t2[i] by {
                assert(p1[rl + 1 + i] == t1[i]);
                assert(p2[rl + 1 + i] == t2[i]);
            }
        }
        assert(v1 =~= v2) by {
            assert forall|i: int| 0 <= i < v1.len() implies v1[i] == v2[i] by {
                assert(p1[rl + 1 + t1.len() + 1 + i] == v1[i]);
                assert(p2[rl + 1 + t2.len() + 1 + i] == v2[i]);
            }
        }
        assert(false);
    }
}

} // verus!
