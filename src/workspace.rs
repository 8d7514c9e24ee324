//! The workspace model: publish version and declared dependencies.
use vstd::prelude::*;
use vstd::string::*;
use crate::document::{TomlEntry, TomlNode};
use crate::errors::MaggError;
use crate::text::{strip_quotes, unquoted};

verus! {

/// A workspace manifest as far as publishing needs it.
pub struct Workspace {
    /// Full path of the workspace manifest file.
    manifest: String,
    /// Version given in the `[workspace.package]` table.
    version: String,
    /// Entries of the `[workspace.dependencies]` table, in table order.
    dependencies: Vec<Dependency>,
}

/// One entry of `[workspace.dependencies]`.
pub struct Dependency {
    /// Name of the dependency.
    pub name: String,
    /// Version attribute when present.
    pub version: Option<String>,
    /// Local path attribute when present, without enclosing quotes.
    pub path: Option<String>,
}

/// A workspace member.
pub struct Member {
    /// Package name of the crate.
    pub name: String,
}

pub struct DependencyView {
    pub name: Seq<char>,
    pub version: Option<Seq<char>>,
    pub path: Option<Seq<char>>,
}

pub struct WorkspaceView {
    pub manifest: Seq<char>,
    pub version: Seq<char>,
    pub dependencies: Seq<DependencyView>,
}

pub open spec fn opt_view(o: Option<String>) -> Option<Seq<char>> {
    match o {
        Some(s) => Some(s@),
        None => None,
    }
}

impl View for Dependency {
    type V = DependencyView;

    open spec fn view(&self) -> DependencyView {
        DependencyView { name: self.name@, version: opt_view(self.version), path: opt_view(self.path) }
    }
}

impl View for Workspace {
    type V = WorkspaceView;

    closed spec fn view(&self) -> WorkspaceView {
        WorkspaceView {
            manifest: self.manifest@,
            version: self.version@,
            dependencies: self.dependencies@.map_values(|d: Dependency| d@),
        }
    }
}

/// Reads a string attribute of a dependency entry: absent, a string, or an error.
pub open spec fn string_attribute(value: TomlNode, attribute: Seq<char>) -> Result<Option<Seq<char>>, ()> {
    match value.field(attribute) {
        None => Ok(None),
        Some(TomlNode::Str(s)) => Ok(Some(s@)),
        Some(_) => Err(()),
    }
}

pub open spec fn not_a_string_message(attribute: Seq<char>, name: Seq<char>) -> Seq<char> {
    "'"@ + attribute + "' is not a string for '"@ + name + "' in [workspace.dependencies] table"@
}

/// The dependency described by one entry of `[workspace.dependencies]`.
pub open spec fn dependency_of(entry: TomlEntry) -> Result<DependencyView, Seq<char>> {
    let name = entry.key@;
    match string_attribute(entry.value, "path"@) {
        Err(_) => Err(not_a_string_message("path"@, name)),
        Ok(path) => match string_attribute(entry.value, "version"@) {
            Err(_) => Err(not_a_string_message("version"@, name)),
            Ok(version) => Ok(
                DependencyView {
                    name,
                    version,
                    path: match path {
                        Some(p) => Some(unquoted(p)),
                        None => None,
                    },
                },
            ),
        },
    }
}

/// The dependencies of a table, in order, or the message of the first bad entry.
pub open spec fn dependencies_of(entries: Seq<TomlEntry>) -> Result<Seq<DependencyView>, Seq<char>>
    decreases entries.len(),
{
    if entries.len() == 0 {
        Ok(Seq::empty())
    } else {
        match dependencies_of(entries.drop_last()) {
            Err(m) => Err(m),
            Ok(ds) => match dependency_of(entries.last()) {
                Err(m) => Err(m),
                Ok(d) => Ok(ds.push(d)),
            },
        }
    }
}

/// The workspace described by a parsed manifest, or the message of its first defect.
pub open spec fn workspace_of(manifest: Seq<char>, doc: TomlNode) -> Result<WorkspaceView, Seq<char>> {
    match doc.field("workspace"@) {
        None => Err("missing [workspace] table"@),
        Some(ws) => match ws.field("package"@) {
            None => Err("missing [workspace.package] table"@),
            Some(package) => match package.field("version"@) {
                None => Err("missing 'version' in [workspace.package] table"@),
                Some(TomlNode::Str(version)) => match ws.field("dependencies"@) {
                    None => Err("missing [workspace.dependencies] table"@),
                    Some(TomlNode::Table(entries)) => match dependencies_of(entries@) {
                        Err(m) => Err(m),
                        Ok(dependencies) => Ok(
                            WorkspaceView { manifest, version: version@, dependencies },
                        ),
                    },
                    Some(_) => Err("[workspace.dependencies] is not a table"@),
                },
                Some(_) => Err("'version' is not a string in [workspace.package] table"@),
            },
        },
    }
}

/// The first bad entry decides the outcome of the whole table.
proof fn lemma_dependencies_prefix_error(entries: Seq<TomlEntry>, k: int)
    requires
        0 <= k <= entries.len(),
        dependencies_of(entries.subrange(0, k)) is Err,
    ensures
        dependencies_of(entries) == dependencies_of(entries.subrange(0, k)),
    decreases entries.len() - k,
{
    if k < entries.len() {
        let longer = entries.subrange(0, k + 1);
        assert(longer.drop_last() =~= entries.subrange(0, k));
        lemma_dependencies_prefix_error(entries, k + 1);
    } else {
        assert(entries.subrange(0, k) =~= entries);
    }
}

impl Workspace {
    /// Full path of the workspace manifest file.
    pub fn manifest(&self) -> (r: &str)
        ensures
            r@ == self@.manifest,
    {
        self.manifest.as_str()
    }

    /// The version every local crate is published under.
    pub fn version(&self) -> (r: &str)
        ensures
            r@ == self@.version,
    {
        self.version.as_str()
    }

    /// The declared dependencies, in table order.
    pub fn dependencies(&self) -> (r: &[Dependency])
        ensures
            r@.map_values(|d: Dependency| d@) == self@.dependencies,
    {
        self.dependencies.as_slice()
    }
}

fn not_a_string_error(attribute: &str, name: &str) -> (r: MaggError)
    ensures
        r@ == not_a_string_message(attribute@, name@),
{
    let m = String::from_str("'").concat(attribute).concat("' is not a string for '").concat(
        name,
    ).concat("' in [workspace.dependencies] table");
    MaggError::from_message(m)
}

/// Reads a string attribute of a dependency entry.
fn read_string_attribute(value: &TomlNode, attribute: &str, name: &str) -> (r: Result<Option<String>, MaggError>)
    ensures
        match string_attribute(*value, attribute@) {
            Ok(o) => r matches Ok(s) && opt_view(s) == o,
            Err(_) => r matches Err(e) && e@ == not_a_string_message(attribute@, name@),
        },
{
    match value.get(attribute) {
        None => Ok(None),
        Some(node) => match node.as_str() {
            Some(s) => Ok(Some(String::from_str(s))),
            None => Err(not_a_string_error(attribute, name)),
        },
    }
}

/// Builds the dependency of one table entry.
pub fn dependency_from_entry(entry: &TomlEntry) -> (r: Result<Dependency, MaggError>)
    ensures
        match dependency_of(*entry) {
            Ok(d) => r matches Ok(x) && x@ == d,
            Err(m) => r matches Err(e) && e@ == m,
        },
{
    let name = entry.key.as_str();
    let path = match read_string_attribute(&entry.value, "path", name) {
        Ok(p) => p,
        Err(e) => return Err(e),
    };
    let version = match read_string_attribute(&entry.value, "version", name) {
        Ok(v) => v,
        Err(e) => return Err(e),
    };
    let path = match path {
        Some(p) => Some(String::from_str(strip_quotes(p.as_str()))),
        None => None,
    };
    Ok(Dependency { name: String::from_str(name), version, path })
}

/// Reads the workspace model out of the parsed workspace manifest found at `manifest`.
pub fn load_workspace(manifest: &str, doc: &TomlNode) -> (r: Result<Workspace, MaggError>)
    ensures
        match workspace_of(manifest@, *doc) {
            Ok(w) => r matches Ok(x) && x@ == w,
            Err(m) => r matches Err(e) && e@ == m,
        },
{
    let ws = match doc.get("workspace") {
        Some(ws) => ws,
        None => return Err(MaggError::new("missing [workspace] table")),
    };
    let package = match ws.get("package") {
        Some(p) => p,
        None => return Err(MaggError::new("missing [workspace.package] table")),
    };
    let version = match package.get("version") {
        Some(v) => v,
        None => return Err(MaggError::new("missing 'version' in [workspace.package] table")),
    };
    let version = match version.as_str() {
        Some(v) => v,
        None => return Err(MaggError::new("'version' is not a string in [workspace.package] table")),
    };
    let table = match ws.get("dependencies") {
        Some(t) => t,
        None => return Err(MaggError::new("missing [workspace.dependencies] table")),
    };
    let entries = match table.as_table() {
        Some(es) => es,
        None => return Err(MaggError::new("[workspace.dependencies] is not a table")),
    };
    let mut dependencies: Vec<Dependency> = Vec::new();
    let mut i: usize = 0;
    assert(entries@.subrange(0, 0) =~= Seq::<TomlEntry>::empty());
    assert(dependencies@.map_values(|d: Dependency| d@) =~= Seq::<DependencyView>::empty());
    assert(workspace_of(manifest@, *doc) == match dependencies_of(entries@) {
            Err(m) => Err(m),
            Ok(ds) => Ok(WorkspaceView { manifest: manifest@, version: version@, dependencies: ds }),
        });
    while i < entries.len()
        invariant
            workspace_of(manifest@, *doc) == match dependencies_of(entries@) {
                Err(m) => Err(m),
                Ok(ds) => Ok(WorkspaceView { manifest: manifest@, version: version@, dependencies: ds }),
            },
            i <= entries@.len(),
            dependencies_of(entries@.subrange(0, i as int)) == Ok::<Seq<DependencyView>, Seq<char>>(
                dependencies@.map_values(|d: Dependency| d@),
            ),
        decreases entries@.len() - i,
    {
        let ghost before = entries@.subrange(0, i as int);
        assert(entries@.subrange(0, i + 1).drop_last() =~= before);
        match dependency_from_entry(&entries[i]) {
            Ok(d) => {
                let ghost prev = dependencies@.map_values(|d: Dependency| d@);
                let ghost dv = d@;
                dependencies.push(d);
                assert(dependencies@.map_values(|d: Dependency| d@) =~= prev.push(dv));
            },
            Err(e) => {
                proof {
                    lemma_dependencies_prefix_error(entries@, i + 1);
                }
                return Err(e);
            },
        }
        i = i + 1;
    }
    assert(entries@.subrange(0, entries@.len() as int) =~= entries@);
    let w = Workspace { manifest: String::from_str(manifest), version: String::from_str(version), dependencies };
    proof {
        assert(w@.dependencies == w.dependencies@.map_values(|d: Dependency| d@));
    }
    Ok(w)
}

} // verus!
