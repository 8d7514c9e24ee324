//! Cross-crate consistency checks of the crates' own manifests.
use vstd::prelude::*;
use vstd::string::*;
use crate::document::{TomlEntry, TomlNode};
use crate::errors::MaggError;
use crate::publisher::{CandidateView, CrateToPublish, views};

verus! {

pub open spec fn order_message(dependency: Seq<char>, krate: Seq<char>) -> Seq<char> {
    "invalid publish order, dependency '"@ + dependency + "' must be published before crate '"@
        + krate + "'"@
}

/// The defect of dependency `entry` of crate `i`, which names candidate `j`.
pub open spec fn dependency_defect(entry: TomlEntry, cs: Seq<CandidateView>, i: int, j: int) -> Option<
    Seq<char>,
> {
    let key = entry.key@;
    let name = cs[i].name;
    match entry.value.field("workspace"@) {
        None => Some("missing dependency "@ + key + ".workspace attribute in crate '"@ + name + "'"@),
        Some(TomlNode::Bool(b)) => if !b {
            Some(
                "dependency "@ + key + ".workspace attribute in crate '"@ + name
                    + "' must have value 'true'"@,
            )
        } else if entry.value.has_field("version"@) {
            Some(
                "'"@ + key + "' dependency must not have 'version' attribute set in crate '"@ + name
                    + "'"@,
            )
        } else if entry.value.has_field("path"@) {
            Some(
                "'"@ + key + "' dependency must not have 'path' attribute set in crate '"@ + name
                    + "'"@,
            )
        } else if cs[i].line_number <= cs[j].line_number {
            Some(order_message(cs[j].name, name))
        } else {
            None
        },
        Some(_) => Some("invalid dependency "@ + key + ".workspace attribute in crate '"@ + name + "'"@),
    }
}

/// The first defect of `entry` against the candidates `j..`, other than `i` itself, that it names.
pub open spec fn entry_defect_from(entry: TomlEntry, cs: Seq<CandidateView>, i: int, j: int) -> Option<
    Seq<char>,
>
    decreases cs.len() - j,
{
    if j < 0 || j >= cs.len() {
        None
    } else if j != i && cs[j].name == entry.key@ && dependency_defect(entry, cs, i, j) is Some {
        dependency_defect(entry, cs, i, j)
    } else {
        entry_defect_from(entry, cs, i, j + 1)
    }
}

/// The first defect among the dependency entries `k..` of crate `i`.
pub open spec fn dependencies_defect_from(entries: Seq<TomlEntry>, cs: Seq<CandidateView>, i: int, k: int) -> Option<
    Seq<char>,
>
    decreases entries.len() - k,
{
    if k < 0 || k >= entries.len() {
        None
    } else if entry_defect_from(entries[k], cs, i, 0) is Some {
        entry_defect_from(entries[k], cs, i, 0)
    } else {
        dependencies_defect_from(entries, cs, i, k + 1)
    }
}

/// The defect of the dependency table `section` of crate `i`'s manifest.
pub open spec fn section_defect(doc: TomlNode, section: Seq<char>, cs: Seq<CandidateView>, i: int) -> Option<
    Seq<char>,
> {
    match doc.field(section) {
        None => None,
        Some(TomlNode::Table(entries)) => dependencies_defect_from(entries@, cs, i, 0),
        Some(_) => Some("["@ + section + "] section is not a table in crate '"@ + cs[i].name + "'"@),
    }
}

/// The first defect of crate `i`'s own manifest `doc`, if any.
pub open spec fn manifest_defect(doc: TomlNode, cs: Seq<CandidateView>, i: int) -> Option<Seq<char>> {
    let name = cs[i].name;
    let tail = " in manifest for dependency '"@ + name + "'"@;
    match doc.field("package"@) {
        None => Some("missing [package] section"@ + tail),
        Some(package) => match package.field("name"@) {
            None => Some("missing [package].name attribute"@ + tail),
            Some(TomlNode::Str(actual)) => if actual@ != name {
                Some(
                    "expected 'name = \""@ + name + "\"', actual 'name = \""@ + actual@ + "\"'"@
                        + tail,
                )
            } else {
                match package.field("version"@) {
                    None => Some("missing [package].version attribute"@ + tail),
                    Some(version) => match version.field("workspace"@) {
                        None => Some("missing [package].version.workspace attribute"@ + tail),
                        Some(TomlNode::Bool(b)) => if !b {
                            Some(
                                "[package].version.workspace attribute in crate '"@ + name
                                    + "' must have value 'true'"@,
                            )
                        } else if section_defect(doc, "dependencies"@, cs, i) is Some {
                            section_defect(doc, "dependencies"@, cs, i)
                        } else {
                            section_defect(doc, "dev-dependencies"@, cs, i)
                        },
                        Some(_) => Some("invalid [package].version.workspace attribute"@ + tail),
                    },
                }
            },
            Some(_) => Some("invalid [package].name attribute"@ + tail),
        },
    }
}

fn join3(a: &str, b: &str, c: &str) -> (r: MaggError)
    ensures
        r@ == a@ + b@ + c@,
{
    MaggError::from_message(String::from_str(a).concat(b).concat(c))
}

fn join2(a: &str, b: &str) -> (r: MaggError)
    ensures
        r@ == a@ + b@,
{
    MaggError::from_message(String::from_str(a).concat(b))
}

fn join5(a: &str, b: &str, c: &str, d: &str, e: &str) -> (r: MaggError)
    ensures
        r@ == a@ + b@ + c@ + d@ + e@,
{
    MaggError::from_message(String::from_str(a).concat(b).concat(c).concat(d).concat(e))
}

/// Checks dependency `entry` of crate `i`, which names candidate `j`.
fn check_dependency(entry: &TomlEntry, crates: &Vec<CrateToPublish>, i: usize, j: usize) -> (r: Result<(), MaggError>)
    requires
        i < crates@.len(),
        j < crates@.len(),
    ensures
        match dependency_defect(*entry, views(crates@), i as int, j as int) {
            None => r is Ok,
            Some(m) => r matches Err(e) && e@ == m,
        },
{
    let key = entry.key.as_str();
    let name = crates[i].name.as_str();
    let workspace = match entry.value.get("workspace") {
        Some(w) => w,
        None => {
            return Err(join5("missing dependency ", key, ".workspace attribute in crate '", name, "'"));
        },
    };
    let inherited = match workspace.as_bool() {
        Some(b) => b,
        None => {
            return Err(join5("invalid dependency ", key, ".workspace attribute in crate '", name, "'"));
        },
    };
    if !inherited {
        return Err(
            join5("dependency ", key, ".workspace attribute in crate '", name, "' must have value 'true'"),
        );
    }
    if entry.value.get("version").is_some() {
        return Err(
            join5("'", key, "' dependency must not have 'version' attribute set in crate '", name, "'"),
        );
    }
    if entry.value.get("path").is_some() {
        return Err(
            join5("'", key, "' dependency must not have 'path' attribute set in crate '", name, "'"),
        );
    }
    if crates[i].line_number <= crates[j].line_number {
        return Err(
            join5(
                "invalid publish order, dependency '",
                crates[j].name.as_str(),
                "' must be published before crate '",
                name,
                "'",
            ),
        );
    }
    Ok(())
}

/// Checks every dependency entry of crate `i` against the other candidates.
pub fn validate_crate_dependencies(entries: &Vec<TomlEntry>, crates: &Vec<CrateToPublish>, i: usize) -> (r: Result<(), MaggError>)
    requires
        i < crates@.len(),
    ensures
        match dependencies_defect_from(entries@, views(crates@), i as int, 0) {
            None => r is Ok,
            Some(m) => r matches Err(e) && e@ == m,
        },
{
    let ghost cs = views(crates@);
    let mut k: usize = 0;
    while k < entries.len()
        invariant
            i < crates@.len(),
            cs == views(crates@),
            k <= entries@.len(),
            dependencies_defect_from(entries@, cs, i as int, 0) == dependencies_defect_from(entries@, cs, i as int, k as int),
        decreases entries@.len() - k,
    {
        let entry = &entries[k];
        let mut j: usize = 0;
        while j < crates.len()
            invariant
                i < crates@.len(),
                cs == views(crates@),
                j <= crates@.len(),
                k < entries@.len(),
                dependencies_defect_from(entries@, cs, i as int, 0) == dependencies_defect_from(entries@, cs, i as int, k as int),
                *entry == entries@[k as int],
                entry_defect_from(*entry, cs, i as int, 0) == entry_defect_from(*entry, cs, i as int, j as int),
            decreases crates@.len() - j,
        {
            if j != i && crates[j].name == entry.key {
                match check_dependency(entry, crates, i, j) {
                    Ok(()) => {},
                    Err(e) => { return Err(e); },
                }
            }
            j = j + 1;
        }
        k = k + 1;
    }
    Ok(())
}

/// Checks one dependency table of crate `i`'s manifest, if the table is there.
fn validate_section(doc: &TomlNode, section: &str, crates: &Vec<CrateToPublish>, i: usize) -> (r: Result<(), MaggError>)
    requires
        i < crates@.len(),
    ensures
        match section_defect(*doc, section@, views(crates@), i as int) {
            None => r is Ok,
            Some(m) => r matches Err(e) && e@ == m,
        },
{
    match doc.get(section) {
        None => Ok(()),
        Some(node) => match node.as_table() {
            Some(entries) => validate_crate_dependencies(entries, crates, i),
            None => Err(join5("[", section, "] section is not a table in crate '", crates[i].name.as_str(), "'")),
        },
    }
}

/// Checks crate `i`'s own manifest `doc`: its name, its workspace-inherited
/// version, and its dependencies on the other candidates.
pub fn validate_crate(doc: &TomlNode, crates: &Vec<CrateToPublish>, i: usize) -> (r: Result<(), MaggError>)
    requires
        i < crates@.len(),
    ensures
        match manifest_defect(*doc, views(crates@), i as int) {
            None => r is Ok,
            Some(m) => r matches Err(e) && e@ == m,
        },
{
    let name = crates[i].name.as_str();
    let tail = String::from_str(" in manifest for dependency '").concat(name).concat("'");
    let package = match doc.get("package") {
        Some(p) => p,
        None => { return Err(join2("missing [package] section", tail.as_str())); },
    };
    let package_name = match package.get("name") {
        Some(n) => n,
        None => { return Err(join2("missing [package].name attribute", tail.as_str())); },
    };
    let actual = match package_name.as_str() {
        Some(s) => s,
        None => { return Err(join2("invalid [package].name attribute", tail.as_str())); },
    };
    if String::from_str(actual) != crates[i].name {
        let m = String::from_str("expected 'name = \"").concat(name).concat("\"', actual 'name = \"").concat(
            actual,
        ).concat("\"'").concat(tail.as_str());
        return Err(MaggError::from_message(m));
    }
    let version = match package.get("version") {
        Some(v) => v,
        None => { return Err(join2("missing [package].version attribute", tail.as_str())); },
    };
    let workspace = match version.get("workspace") {
        Some(w) => w,
        None => { return Err(join2("missing [package].version.workspace attribute", tail.as_str())); },
    };
    let inherited = match workspace.as_bool() {
        Some(b) => b,
        None => { return Err(join2("invalid [package].version.workspace attribute", tail.as_str())); },
    };
    if !inherited {
        return Err(join3("[package].version.workspace attribute in crate '", name, "' must have value 'true'"));
    }
    match validate_section(doc, "dependencies", crates, i) {
        Ok(()) => {},
        Err(e) => { return Err(e); },
    }
    validate_section(doc, "dev-dependencies", crates, i)
}

proof fn lemma_entry_order(entry: TomlEntry, cs: Seq<CandidateView>, i: int, j0: int)
    requires
        0 <= i < cs.len(),
        0 <= j0,
        entry_defect_from(entry, cs, i, j0) is None,
    ensures
        forall|j: int|
            j0 <= j < cs.len() && j != i && #[trigger] cs[j].name == entry.key@ ==> cs[j].line_number
                < cs[i].line_number,
    decreases cs.len() - j0,
{
    if j0 < cs.len() {
        lemma_entry_order(entry, cs, i, j0 + 1);
    }
}

proof fn lemma_entries_order(entries: Seq<TomlEntry>, cs: Seq<CandidateView>, i: int, k0: int)
    requires
        0 <= i < cs.len(),
        0 <= k0,
        dependencies_defect_from(entries, cs, i, k0) is None,
    ensures
        forall|k: int, j: int|
            k0 <= k < entries.len() && 0 <= j < cs.len() && j != i && #[trigger] cs[j].name
                == #[trigger] entries[k].key@ ==> cs[j].line_number < cs[i].line_number,
    decreases entries.len() - k0,
{
    if k0 < entries.len() {
        lemma_entry_order(entries[k0], cs, i, 0);
        lemma_entries_order(entries, cs, i, k0 + 1);
    }
}

/// A crate whose dependency table passes the checks lists after itself every
/// other candidate it depends on: each such candidate's line number is smaller.
pub proof fn lemma_dependencies_published_first(entries: Seq<TomlEntry>, cs: Seq<CandidateView>, i: int)
    requires
        0 <= i < cs.len(),
        dependencies_defect_from(entries, cs, i, 0) is None,
    ensures
        forall|k: int, j: int|
            0 <= k < entries.len() && 0 <= j < cs.len() && j != i && #[trigger] cs[j].name
                == #[trigger] entries[k].key@ ==> cs[j].line_number < cs[i].line_number,
{
    lemma_entries_order(entries, cs, i, 0);
}

/// A crate that depends, in either dependency table, on a candidate whose line
/// does not come before its own fails the checks of its manifest.
pub proof fn lemma_order_violation_rejected(doc: TomlNode, cs: Seq<CandidateView>, i: int, section: Seq<char>, k: int, j: int)
    requires
        0 <= i < cs.len(),
        0 <= j < cs.len(),
        j != i,
        section == "dependencies"@ || section == "dev-dependencies"@,
        doc.field(section) matches Some(TomlNode::Table(entries)) && 0 <= k < entries@.len()
            && entries@[k].key@ == cs[j].name,
        cs[i].line_number <= cs[j].line_number,
    ensures
        manifest_defect(doc, cs, i) is Some,
{
    let entries = doc.field(section)->Some_0->Table_0@;
    if manifest_defect(doc, cs, i) is None {
        lemma_dependencies_published_first(entries, cs, i);
        assert(cs[j].name == entries[k].key@);
    }
}

} // verus!
