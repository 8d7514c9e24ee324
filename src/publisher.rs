//! Candidates for publishing: collection, publish order and display padding.
use vstd::prelude::*;
use vstd::string::*;
use vstd::multiset::Multiset;
use crate::errors::MaggError;
use crate::text::{get_line_number, line_number_of};
use crate::workspace::{Dependency, DependencyView, Workspace};

verus! {

broadcast use vstd::seq_lib::group_to_multiset_ensures;

/// A path dependency of the workspace that is to be published.
pub struct CrateToPublish {
    /// Name of the crate in the workspace manifest.
    pub name: String,
    /// Local path where the crate is defined.
    pub local_path: String,
    /// Start of the dependency's line while it is a path dependency.
    pub search_prefix: String,
    /// What `search_prefix` becomes once the crate is published.
    pub replacement_prefix: String,
    /// 1-based number of the dependency's line in the workspace manifest.
    pub line_number: usize,
    /// Spaces after the name that align the crates' columns when listed.
    pub padding: usize,
}

pub struct CandidateView {
    pub name: Seq<char>,
    pub local_path: Seq<char>,
    pub search_prefix: Seq<char>,
    pub replacement_prefix: Seq<char>,
    pub line_number: nat,
}

impl View for CrateToPublish {
    type V = CandidateView;

    open spec fn view(&self) -> CandidateView {
        CandidateView {
            name: self.name@,
            local_path: self.local_path@,
            search_prefix: self.search_prefix@,
            replacement_prefix: self.replacement_prefix@,
            line_number: self.line_number as nat,
        }
    }
}

pub open spec fn views(s: Seq<CrateToPublish>) -> Seq<CandidateView> {
    s.map_values(|c: CrateToPublish| c@)
}

/// How a path dependency's line starts in the workspace manifest.
pub open spec fn search_prefix_of(name: Seq<char>, path: Seq<char>) -> Seq<char> {
    name + " = { path = \""@ + path + "\""@
}

/// How the same line starts once the crate is published under `version`.
pub open spec fn replacement_prefix_of(name: Seq<char>, version: Seq<char>) -> Seq<char> {
    name + " = { version = \""@ + version + "\""@
}

pub open spec fn version_conflict_message(name: Seq<char>) -> Seq<char> {
    "dependency '"@ + name + "' must not have 'version' attribute set"@
}

pub open spec fn formatting_message(name: Seq<char>, prefix: Seq<char>) -> Seq<char> {
    "invalid formatting for dependency '"@ + name + "', expected '"@ + prefix + "'"@
}

/// The candidate made of one workspace dependency: none for a dependency
/// without a path, else the candidate or the message of its defect.
pub open spec fn candidate_of(d: DependencyView, text: Seq<char>, version: Seq<char>) -> Option<
    Result<CandidateView, Seq<char>>,
> {
    match d.path {
        None => None,
        Some(path) => Some(
            if d.version is Some {
                Err(version_conflict_message(d.name))
            } else {
                let prefix = search_prefix_of(d.name, path);
                match line_number_of(text, prefix) {
                    None => Err(formatting_message(d.name, prefix)),
                    Some(line) => Ok(
                        CandidateView {
                            name: d.name,
                            local_path: path,
                            search_prefix: prefix,
                            replacement_prefix: replacement_prefix_of(d.name, version),
                            line_number: line,
                        },
                    ),
                }
            },
        ),
    }
}

/// The candidates of the dependencies in table order, or the first defect.
pub open spec fn candidates_of(deps: Seq<DependencyView>, text: Seq<char>, version: Seq<char>) -> Result<
    Seq<CandidateView>,
    Seq<char>,
>
    decreases deps.len(),
{
    if deps.len() == 0 {
        Ok(Seq::empty())
    } else {
        match candidates_of(deps.drop_last(), text, version) {
            Err(m) => Err(m),
            Ok(cs) => match candidate_of(deps.last(), text, version) {
                None => Ok(cs),
                Some(Err(m)) => Err(m),
                Some(Ok(c)) => Ok(cs.push(c)),
            },
        }
    }
}

pub open spec fn sorted_by_line(s: Seq<CandidateView>) -> bool {
    forall|a: int, b: int| 0 <= a < b < s.len() ==> s[a].line_number <= s[b].line_number
}

/// `order` lists the candidates `cs`, each as often as there, ascending by line.
pub open spec fn is_publish_order(order: Seq<CandidateView>, cs: Seq<CandidateView>) -> bool {
    sorted_by_line(order) && order.to_multiset() == cs.to_multiset()
}

pub open spec fn max_name_len(s: Seq<CrateToPublish>) -> nat
    decreases s.len(),
{
    if s.len() == 0 {
        0
    } else {
        let rest = max_name_len(s.drop_last());
        let n = s.last().name@.len();
        if n > rest {
            n
        } else {
            rest
        }
    }
}

/// Every crate's padding fills its name up to the longest name.
pub open spec fn padded(s: Seq<CrateToPublish>) -> bool {
    forall|i: int| 0 <= i < s.len() ==> #[trigger] s[i].padding + s[i].name@.len() == max_name_len(s)
}

fn version_conflict_error(name: &str) -> (r: MaggError)
    ensures
        r@ == version_conflict_message(name@),
{
    MaggError::from_message(
        String::from_str("dependency '").concat(name).concat("' must not have 'version' attribute set"),
    )
}

fn formatting_error(name: &str, prefix: &str) -> (r: MaggError)
    ensures
        r@ == formatting_message(name@, prefix@),
{
    MaggError::from_message(
        String::from_str("invalid formatting for dependency '").concat(name).concat(
            "', expected '",
        ).concat(prefix).concat("'"),
    )
}

/// The candidate made of one workspace dependency.
fn candidate_from(d: &Dependency, text: &str, version: &str) -> (r: Option<Result<CrateToPublish, MaggError>>)
    ensures
        match candidate_of(d@, text@, version@) {
            None => r is None,
            Some(Ok(c)) => r matches Some(Ok(x)) && x@ == c && x.padding == 0,
            Some(Err(m)) => r matches Some(Err(e)) && e@ == m,
        },
{
    match &d.path {
        None => None,
        Some(path) => {
            let name = d.name.as_str();
            if d.version.is_some() {
                return Some(Err(version_conflict_error(name)));
            }
            let prefix = String::from_str(name).concat(" = { path = \"").concat(path.as_str()).concat(
                "\"",
            );
            match get_line_number(text, prefix.as_str()) {
                None => Some(Err(formatting_error(name, prefix.as_str()))),
                Some(line_number) => {
                    let replacement = String::from_str(name).concat(" = { version = \"").concat(
                        version,
                    ).concat("\"");
                    Some(
                        Ok(
                            CrateToPublish {
                                name: String::from_str(name),
                                local_path: String::from_str(path.as_str()),
                                search_prefix: prefix,
                                replacement_prefix: replacement,
                                line_number,
                                padding: 0,
                            },
                        ),
                    )
                },
            }
        },
    }
}

/// Sorts the crates ascending by line number (insertion sort).
pub fn sort_by_line(crates: Vec<CrateToPublish>) -> (r: Vec<CrateToPublish>)
    ensures
        is_publish_order(views(r@), views(crates@)),
{
    let mut rest = crates;
    let mut sorted: Vec<CrateToPublish> = Vec::new();
    proof {
        assert(views(sorted@) =~= Seq::<CandidateView>::empty());
        assert(views(sorted@).to_multiset() =~= Multiset::<CandidateView>::empty());
        assert(views(sorted@).to_multiset().add(views(rest@).to_multiset()) =~= views(crates@).to_multiset());
    }
    while rest.len() > 0
        invariant
            sorted_by_line(views(sorted@)),
            views(sorted@).to_multiset().add(views(rest@).to_multiset()) == views(crates@).to_multiset(),
        decreases rest@.len(),
    {
        let ghost rest_before = rest@;
        let c = match rest.pop() {
            Some(c) => c,
            None => { return sorted; },
        };
        proof {
            assert(rest_before =~= rest@.push(c));
            assert(views(rest_before) =~= views(rest@).push(c@));
            assert(rest_before[rest@.len() as int] == c);
        }
        let mut j: usize = 0;
        while j < sorted.len() && sorted[j].line_number <= c.line_number
            invariant
                j <= sorted@.len(),
                forall|k: int| 0 <= k < j ==> #[trigger] sorted@[k].line_number <= c.line_number,
            decreases sorted@.len() - j,
        {
            j = j + 1;
        }
        let ghost sorted_before = sorted@;
        let ghost cv = c@;
        sorted.insert(j, c);
        proof {
            assert(views(sorted@) =~= views(sorted_before).insert(j as int, cv));
            let v = views(sorted@);
            assert forall|a: int, b: int| 0 <= a < b < v.len() implies v[a].line_number <= v[b].line_number by {
                if b < j {
                } else if b == j {
                    assert(sorted_before[a].line_number <= cv.line_number);
                } else if a < j {
                    assert(sorted_before[a].line_number <= cv.line_number);
                    if j < sorted_before.len() {
                        assert(sorted_before[j as int].line_number > cv.line_number);
                        assert(views(sorted_before)[a] == v[a]);
                    }
                } else if a == j {
                    assert(sorted_before[j as int].line_number > cv.line_number);
                    assert(views(sorted_before)[j as int].line_number <= views(sorted_before)[b - 1].line_number);
                } else {
                    assert(v[a] == views(sorted_before)[a - 1]);
                    assert(v[b] == views(sorted_before)[b - 1]);
                }
            }
        }
    }
    proof {
        assert(views(rest@) =~= Seq::<CandidateView>::empty());
        assert(views(rest@).to_multiset() =~= Multiset::<CandidateView>::empty());
        assert(views(sorted@).to_multiset().add(views(rest@).to_multiset()) =~= views(sorted@).to_multiset());
    }
    sorted
}

/// Sets each crate's padding so that names and paddings add up to the longest name.
pub fn update_padding(crates: &mut Vec<CrateToPublish>)
    ensures
        views(final(crates)@) == views(old(crates)@),
        padded(final(crates)@),
        max_name_len(final(crates)@) == max_name_len(old(crates)@),
{
    let mut max_length: usize = 0;
    let mut i: usize = 0;
    while i < crates.len()
        invariant
            i <= crates@.len(),
            max_length as nat == max_name_len(crates@.subrange(0, i as int)),
        decreases crates@.len() - i,
    {
        assert(crates@.subrange(0, i + 1).drop_last() =~= crates@.subrange(0, i as int));
        let n = crates[i].name.as_str().unicode_len();
        if n > max_length {
            max_length = n;
        }
        i = i + 1;
    }
    assert(crates@.subrange(0, crates@.len() as int) =~= crates@);
    let ghost initial = crates@;
    let mut k: usize = 0;
    while k < crates.len()
        invariant
            k <= crates@.len(),
            crates@.len() == initial.len(),
            max_length as nat == max_name_len(initial),
            views(crates@) == views(initial),
            forall|m: int| 0 <= m < crates@.len() ==> #[trigger] crates@[m].name == initial[m].name,
            forall|m: int| 0 <= m < k ==> #[trigger] crates@[m].padding + crates@[m].name@.len() == max_length,
        decreases crates@.len() - k,
    {
        proof {
            lemma_max_name_len_bound(initial, k as int);
        }
        let n = crates[k].name.as_str().unicode_len();
        let ghost before = crates@;
        crates[k].padding = max_length - n;
        proof {
            assert(views(crates@) =~= views(before));
        }
        k = k + 1;
    }
    proof {
        lemma_max_name_len_same_names(crates@, initial);
    }
}

proof fn lemma_max_name_len_bound(s: Seq<CrateToPublish>, i: int)
    requires
        0 <= i < s.len(),
    ensures
        s[i].name@.len() <= max_name_len(s),
    decreases s.len(),
{
    if i < s.len() - 1 {
        lemma_max_name_len_bound(s.drop_last(), i);
    }
}

proof fn lemma_max_name_len_same_names(a: Seq<CrateToPublish>, b: Seq<CrateToPublish>)
    requires
        a.len() == b.len(),
        forall|m: int| 0 <= m < a.len() ==> #[trigger] a[m].name == b[m].name,
    ensures
        max_name_len(a) == max_name_len(b),
    decreases a.len(),
{
    if a.len() > 0 {
        lemma_max_name_len_same_names(a.drop_last(), b.drop_last());
    }
}

/// The first defective dependency decides the outcome of the whole table.
proof fn lemma_candidates_prefix_error(deps: Seq<DependencyView>, text: Seq<char>, version: Seq<char>, k: int)
    requires
        0 <= k <= deps.len(),
        candidates_of(deps.subrange(0, k), text, version) is Err,
    ensures
        candidates_of(deps, text, version) == candidates_of(deps.subrange(0, k), text, version),
    decreases deps.len() - k,
{
    if k < deps.len() {
        assert(deps.subrange(0, k + 1).drop_last() =~= deps.subrange(0, k));
        lemma_candidates_prefix_error(deps, text, version, k + 1);
    } else {
        assert(deps.subrange(0, k) =~= deps);
    }
}

/// Collects the path dependencies of the workspace as crates to publish, in
/// publish order (ascending line number in `text`, the manifest's contents).
pub fn collect_crates(workspace: &Workspace, text: &str) -> (r: Result<Vec<CrateToPublish>, MaggError>)
    ensures
        match candidates_of(workspace@.dependencies, text@, workspace@.version) {
            Err(m) => r matches Err(e) && e@ == m,
            Ok(cs) => if cs.len() == 0 {
                r matches Err(e) && e@ == "no crates to publish"@
            } else {
                r matches Ok(v) && is_publish_order(views(v@), cs) && padded(v@)
            },
        },
{
    let deps = workspace.dependencies();
    let version = workspace.version();
    let ghost dv = workspace@.dependencies;
    let mut crates: Vec<CrateToPublish> = Vec::new();
    let mut i: usize = 0;
    assert(dv.subrange(0, 0) =~= Seq::<DependencyView>::empty());
    assert(views(crates@) =~= Seq::<CandidateView>::empty());
    while i < deps.len()
        invariant
            deps@.map_values(|d: Dependency| d@) == dv,
            dv == workspace@.dependencies,
            version@ == workspace@.version,
            i <= deps@.len(),
            candidates_of(dv.subrange(0, i as int), text@, version@) == Ok::<Seq<CandidateView>, Seq<char>>(views(crates@)),
        decreases deps@.len() - i,
    {
        assert(dv.subrange(0, i + 1).drop_last() =~= dv.subrange(0, i as int));
        assert(dv.subrange(0, i + 1).last() == deps@[i as int]@);
        match candidate_from(&deps[i], text, version) {
            None => {},
            Some(Ok(c)) => {
                let ghost before = views(crates@);
                crates.push(c);
                assert(views(crates@) =~= before.push(c@));
            },
            Some(Err(e)) => {
                proof {
                    lemma_candidates_prefix_error(dv, text@, version@, i + 1);
                }
                return Err(e);
            },
        }
        i = i + 1;
    }
    assert(dv.subrange(0, deps@.len() as int) =~= dv);
    if crates.len() == 0 {
        return Err(MaggError::new("no crates to publish"));
    }
    let mut sorted = sort_by_line(crates);
    update_padding(&mut sorted);
    Ok(sorted)
}

/// A dependency with both a path and a version is never taken as either: the
/// table is rejected, and when nothing before it is at fault, with the
/// message that names this dependency.
pub proof fn lemma_path_with_version_rejected(deps: Seq<DependencyView>, text: Seq<char>, version: Seq<char>, i: int)
    requires
        0 <= i < deps.len(),
        deps[i].path is Some,
        deps[i].version is Some,
    ensures
        candidates_of(deps, text, version) is Err,
        candidates_of(deps.subrange(0, i), text, version) is Ok ==> candidates_of(deps, text, version)
            == Err::<Seq<CandidateView>, Seq<char>>(version_conflict_message(deps[i].name)),
{
    let upto = deps.subrange(0, i + 1);
    assert(upto.drop_last() =~= deps.subrange(0, i));
    assert(upto.last() == deps[i]);
    lemma_candidates_prefix_error(deps, text, version, i + 1);
}

pub open spec fn distinct_lines(cs: Seq<CandidateView>) -> bool {
    forall|a: int, b: int|
        0 <= a < cs.len() && 0 <= b < cs.len() && a != b ==> cs[a].line_number != cs[b].line_number
}

/// Two positions of `s` holding equal candidates make its multiset count them twice.
proof fn lemma_twice_counted(s: Seq<CandidateView>, a: int, b: int)
    requires
        0 <= a < s.len(),
        0 <= b < s.len(),
        a != b,
        s[a] == s[b],
    ensures
        s.to_multiset().count(s[a]) >= 2,
{
    let x = s[a];
    let rest = s.remove(a);
    let k = if b < a { b } else { b - 1 };
    assert(rest[k] == x);
    assert(rest.contains(x));
    assert(rest.to_multiset().count(x) > 0);
    assert(rest.to_multiset() == s.to_multiset().remove(x));
}

/// A multiset that counts a candidate twice comes from two positions holding it.
proof fn lemma_two_positions(s: Seq<CandidateView>, x: CandidateView)
    requires
        s.to_multiset().count(x) >= 2,
    ensures
        exists|a: int, b: int| 0 <= a < s.len() && 0 <= b < s.len() && a != b && s[a] == x && s[b] == x,
{
    assert(s.contains(x));
    let a = choose|a: int| 0 <= a < s.len() && s[a] == x;
    let rest = s.remove(a);
    assert(rest.to_multiset() == s.to_multiset().remove(x));
    assert(rest.to_multiset().count(x) > 0);
    assert(rest.contains(x));
    let k = choose|k: int| 0 <= k < rest.len() && rest[k] == x;
    let b = if k < a { k } else { k + 1 };
    assert(s[b] == x);
}

/// Rearranging candidates keeps their line numbers distinct.
proof fn lemma_distinct_lines_permuted(c: Seq<CandidateView>, r: Seq<CandidateView>)
    requires
        distinct_lines(c),
        r.to_multiset() == c.to_multiset(),
    ensures
        distinct_lines(r),
{
    assert forall|a: int, b: int|
        0 <= a < r.len() && 0 <= b < r.len() && a != b implies r[a].line_number != r[b].line_number by {
        if r[a].line_number == r[b].line_number {
            if r[a] == r[b] {
                lemma_twice_counted(r, a, b);
                lemma_two_positions(c, r[a]);
            } else {
                assert(r.contains(r[a]));
                assert(r.contains(r[b]));
                assert(r.to_multiset().count(r[a]) > 0);
                assert(r.to_multiset().count(r[b]) > 0);
                assert(c.to_multiset().count(r[a]) > 0);
                assert(c.to_multiset().count(r[b]) > 0);
                assert(c.contains(r[a]));
                assert(c.contains(r[b]));
                let a2 = choose|i: int| 0 <= i < c.len() && c[i] == r[a];
                let b2 = choose|i: int| 0 <= i < c.len() && c[i] == r[b];
                assert(a2 != b2);
            }
        }
    }
}

/// Two line-sorted arrangements of the same candidates with distinct line numbers agree.
proof fn lemma_sorted_arrangements_agree(r1: Seq<CandidateView>, r2: Seq<CandidateView>)
    requires
        sorted_by_line(r1),
        sorted_by_line(r2),
        r1.to_multiset() == r2.to_multiset(),
        distinct_lines(r1),
    ensures
        r1 == r2,
    decreases r1.len(),
{
    assert(r1.to_multiset().len() == r1.len());
    assert(r2.to_multiset().len() == r2.len());
    if r1.len() == 0 {
        assert(r1 =~= r2);
    } else {
        let x = r1[0];
        let y = r2[0];
        assert(r1.contains(x));
        assert(r1.to_multiset().count(x) > 0);
        assert(r2.to_multiset().count(x) > 0);
        assert(r2.contains(x));
        assert(r2.contains(y));
        assert(r2.to_multiset().count(y) > 0);
        assert(r1.to_multiset().count(y) > 0);
        assert(r1.contains(y));
        let j = choose|j: int| 0 <= j < r2.len() && r2[j] == x;
        let k = choose|k: int| 0 <= k < r1.len() && r1[k] == y;
        assert(y.line_number <= x.line_number);
        assert(x.line_number <= y.line_number);
        assert(k == 0);
        assert(x == y);
        let t1 = r1.remove(0);
        let t2 = r2.remove(0);
        assert(t1.to_multiset() == r1.to_multiset().remove(x));
        assert(t2.to_multiset() == r2.to_multiset().remove(x));
        assert(t1 =~= r1.drop_first());
        assert(t2 =~= r2.drop_first());
        assert(sorted_by_line(t1)) by {
            assert forall|a: int, b: int| 0 <= a < b < t1.len() implies t1[a].line_number <= t1[b].line_number by {
                assert(t1[a] == r1[a + 1]);
                assert(t1[b] == r1[b + 1]);
            }
        }
        assert(sorted_by_line(t2)) by {
            assert forall|a: int, b: int| 0 <= a < b < t2.len() implies t2[a].line_number <= t2[b].line_number by {
                assert(t2[a] == r2[a + 1]);
                assert(t2[b] == r2[b + 1]);
            }
        }
        assert(distinct_lines(t1)) by {
            assert forall|a: int, b: int| 0 <= a < t1.len() && 0 <= b < t1.len() && a != b implies t1[a].line_number != t1[b].line_number by {
                assert(t1[a] == r1[a + 1]);
                assert(t1[b] == r1[b + 1]);
            }
        }
        lemma_sorted_arrangements_agree(t1, t2);
        assert(r1 =~= r2) by {
            assert forall|i: int| 0 <= i < r1.len() implies r1[i] == r2[i] by {
                if i > 0 {
                    assert(r1[i] == t1[i - 1]);
                    assert(r2[i] == t2[i - 1]);
                }
            }
        }
    }
}

/// The publish order depends on which candidates there are, not on the order
/// in which the table hands them out: when their line numbers are distinct,
/// any two publish orders of the same candidates are the same sequence.
pub proof fn lemma_publish_order_deterministic(
    c1: Seq<CandidateView>,
    c2: Seq<CandidateView>,
    r1: Seq<CandidateView>,
    r2: Seq<CandidateView>,
)
    requires
        c1.to_multiset() == c2.to_multiset(),
        distinct_lines(c1),
        is_publish_order(r1, c1),
        is_publish_order(r2, c2),
    ensures
        r1 == r2,
{
    lemma_distinct_lines_permuted(c1, r1);
    lemma_sorted_arrangements_agree(r1, r2);
}

/// What one dependency adds to the candidates.
pub open spec fn contribution(d: DependencyView, text: Seq<char>, version: Seq<char>) -> Multiset<CandidateView> {
    match candidate_of(d, text, version) {
        Some(Ok(c)) => Multiset::singleton(c),
        _ => Multiset::empty(),
    }
}

pub open spec fn candidate_multiset(deps: Seq<DependencyView>, text: Seq<char>, version: Seq<char>) -> Multiset<CandidateView>
    decreases deps.len(),
{
    if deps.len() == 0 {
        Multiset::empty()
    } else {
        candidate_multiset(deps.drop_last(), text, version).add(contribution(deps.last(), text, version))
    }
}

/// No dependency of the table is defective.
pub open spec fn all_acceptable(deps: Seq<DependencyView>, text: Seq<char>, version: Seq<char>) -> bool {
    forall|i: int| 0 <= i < deps.len() ==> !(#[trigger] candidate_of(deps[i], text, version) matches Some(Err(_)))
}

proof fn lemma_candidates_accepted(deps: Seq<DependencyView>, text: Seq<char>, version: Seq<char>)
    ensures
        candidates_of(deps, text, version) is Ok <==> all_acceptable(deps, text, version),
        candidates_of(deps, text, version) is Ok ==> candidates_of(deps, text, version)->Ok_0.to_multiset()
            == candidate_multiset(deps, text, version),
    decreases deps.len(),
{
    if deps.len() == 0 {
        assert(Seq::<CandidateView>::empty().to_multiset() =~= Multiset::<CandidateView>::empty());
    } else {
        let dl = deps.drop_last();
        lemma_candidates_accepted(dl, text, version);
        assert forall|i: int| 0 <= i < dl.len() implies #[trigger] dl[i] == deps[i] by {}
        if all_acceptable(deps, text, version) {
            assert(all_acceptable(dl, text, version)) by {
                assert forall|i: int| 0 <= i < dl.len() implies !(#[trigger] candidate_of(dl[i], text, version) matches Some(Err(_))) by {
                    assert(dl[i] == deps[i]);
                }
            }
            assert(!(candidate_of(deps[deps.len() - 1], text, version) matches Some(Err(_))));
            let cs = candidates_of(dl, text, version)->Ok_0;
            match candidate_of(deps.last(), text, version) {
                Some(Ok(c)) => {
                    assert(cs.push(c).to_multiset() =~= cs.to_multiset().insert(c));
                },
                _ => {
                    assert(candidate_multiset(deps, text, version) =~= candidate_multiset(dl, text, version));
                },
            }
        } else {
            let i = choose|i: int| 0 <= i < deps.len() && (#[trigger] candidate_of(deps[i], text, version) matches Some(Err(_)));
            if i < deps.len() - 1 {
                assert(dl[i] == deps[i]);
            }
        }
    }
}

proof fn lemma_candidate_multiset_remove(deps: Seq<DependencyView>, j: int, text: Seq<char>, version: Seq<char>)
    requires
        0 <= j < deps.len(),
    ensures
        candidate_multiset(deps, text, version) == candidate_multiset(deps.remove(j), text, version).add(
            contribution(deps[j], text, version),
        ),
    decreases deps.len(),
{
    if j == deps.len() - 1 {
        assert(deps.remove(j) =~= deps.drop_last());
    } else {
        let dl = deps.drop_last();
        lemma_candidate_multiset_remove(dl, j, text, version);
        assert(deps.remove(j).drop_last() =~= dl.remove(j));
        assert(deps.remove(j).last() == deps.last());
        assert(dl[j] == deps[j]);
        let a = candidate_multiset(dl.remove(j), text, version);
        let x = contribution(deps[j], text, version);
        let y = contribution(deps.last(), text, version);
        assert(a.add(x).add(y) =~= a.add(y).add(x));
    }
}

proof fn lemma_candidate_multiset_permuted(d1: Seq<DependencyView>, d2: Seq<DependencyView>, text: Seq<char>, version: Seq<char>)
    requires
        d1.to_multiset() == d2.to_multiset(),
    ensures
        candidate_multiset(d1, text, version) == candidate_multiset(d2, text, version),
    decreases d1.len(),
{
    assert(d1.to_multiset().len() == d1.len());
    assert(d2.to_multiset().len() == d2.len());
    if d1.len() == 0 {
        assert(d1 =~= d2);
    } else {
        let x = d1.last();
        assert(d1.contains(x)) by {
            assert(d1[d1.len() - 1] == x);
        }
        assert(d1.to_multiset().count(x) > 0);
        assert(d2.to_multiset().count(x) > 0);
        assert(d2.contains(x));
        let j = choose|j: int| 0 <= j < d2.len() && d2[j] == x;
        lemma_candidate_multiset_remove(d2, j, text, version);
        assert(d1.remove(d1.len() - 1) =~= d1.drop_last());
        assert(d1.drop_last().to_multiset() == d1.to_multiset().remove(x));
        assert(d2.remove(j).to_multiset() == d2.to_multiset().remove(x));
        lemma_candidate_multiset_permuted(d1.drop_last(), d2.remove(j), text, version);
    }
}

proof fn lemma_acceptable_permuted(d1: Seq<DependencyView>, d2: Seq<DependencyView>, text: Seq<char>, version: Seq<char>)
    requires
        d1.to_multiset() == d2.to_multiset(),
        all_acceptable(d1, text, version),
    ensures
        all_acceptable(d2, text, version),
{
    assert forall|i: int| 0 <= i < d2.len() implies !(#[trigger] candidate_of(d2[i], text, version) matches Some(Err(_))) by {
        assert(d2.contains(d2[i]));
        assert(d2.to_multiset().count(d2[i]) > 0);
        assert(d1.to_multiset().count(d2[i]) > 0);
        assert(d1.contains(d2[i]));
        let k = choose|k: int| 0 <= k < d1.len() && d1[k] == d2[i];
        assert(!(candidate_of(d1[k], text, version) matches Some(Err(_))));
    }
}

/// The publish order does not depend on the order in which the dependency
/// table hands out its entries: for the same entries in any other order, the
/// path dependencies are accepted as well, and when their line numbers are
/// distinct, every publish order of the one is the publish order of the other.
pub proof fn lemma_publish_order_independent_of_table_order(
    d1: Seq<DependencyView>,
    d2: Seq<DependencyView>,
    text: Seq<char>,
    version: Seq<char>,
    r1: Seq<CandidateView>,
    r2: Seq<CandidateView>,
)
    requires
        d1.to_multiset() == d2.to_multiset(),
        candidates_of(d1, text, version) is Ok,
        distinct_lines(candidates_of(d1, text, version)->Ok_0),
        is_publish_order(r1, candidates_of(d1, text, version)->Ok_0),
        is_publish_order(r2, candidates_of(d2, text, version)->Ok_0),
    ensures
        candidates_of(d2, text, version) is Ok,
        r1 == r2,
{
    lemma_candidates_accepted(d1, text, version);
    lemma_acceptable_permuted(d1, d2, text, version);
    lemma_candidates_accepted(d2, text, version);
    lemma_candidate_multiset_permuted(d1, d2, text, version);
    lemma_publish_order_deterministic(
        candidates_of(d1, text, version)->Ok_0,
        candidates_of(d2, text, version)->Ok_0,
        r1,
        r2,
    );
}

} // verus!
