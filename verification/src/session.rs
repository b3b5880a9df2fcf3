//! The `new` command as a sequence of steps: the library decides, the caller does the
//! work each step asks for (downloading, writing files, opening) and reports back.

use vstd::prelude::*;
use crate::error::NewError;
use crate::group::Group;
use crate::package::{package_globals, package_planned, plan_new_package, PackageLayout};
use crate::external::liquid_render_in;
use crate::plan::{
    first_contest_segments, group_found, group_of_outcome, index_url_map, index_url_pairs, pair_paths,
    plan_retrieval, retrieval_planned, urls, NewTarget, Retrieval, RetrievedProblem,
};
use crate::str_map::{map_of_pairs, sorted_keys};

verus! {

/// What `cargo compete new` was asked for, with what `compete.toml` says of new packages.
#[derive(Debug)]
pub struct NewRequest {
    /// The path of `compete.toml`.
    pub config_path: String,
    /// Where new packages go, a liquid template.
    pub path_template: String,
    /// Where problems come from.
    pub target: NewTarget,
    /// The contest given on the command line.
    pub contest: Option<String>,
    /// The problems given on the command line.
    pub problems: Option<Vec<String>>,
    /// Whether to open the URLs and files at the end.
    pub open: bool,
}

/// Where the command stands.
#[derive(Debug)]
pub enum NewPhase {
    /// Waiting for the problems of this retrieval.
    Retrieving(Retrieval),
    /// Waiting for the package of this layout to be made.
    Creating { group: Group, layout: PackageLayout, urls: Vec<String> },
    /// Waiting for the test cases to be saved, one file per binary.
    Saving { group: Group, layout: PackageLayout, urls: Vec<String> },
    /// Waiting for the URLs and the (source, test cases) files to be opened.
    Opening { layout: PackageLayout, urls: Vec<String>, file_paths: Vec<(String, String)> },
    /// Done, or given up.
    Finished,
}

/// What the caller reports.
#[derive(Debug)]
pub enum NewEvent {
    /// The problems were downloaded, in the order of the download. For `oj-api`, in the
    /// order of their URLs (see `problems_by_url`), each with that URL as its `url`.
    Retrieved(Vec<RetrievedProblem>),
    /// The package was made.
    PackageCreated,
    /// The test cases were saved; the file of each binary, in order.
    TestCasesSaved(Vec<String>),
    /// The URLs and files were opened.
    Opened,
}

/// What the caller is asked to do next; the data is in the phase.
#[derive(Debug)]
pub enum NewAction {
    Retrieve,
    CreatePackage,
    SaveTestCases,
    Open,
    Finish,
    Fail(NewError),
}

/// The state of the command.
#[derive(Debug)]
pub struct NewSession {
    pub config_path: String,
    pub path_template: String,
    pub open: bool,
    pub phase: NewPhase,
}

/// `ks` and `vs` are the sorted keys and their values of the problems keyed by index.
pub open spec fn is_index_map(ks: Seq<Seq<char>>, vs: Seq<String>, outcome: Seq<RetrievedProblem>) -> bool {
    &&& ks.len() == vs.len()
    &&& sorted_keys(ks)
    &&& Map::new(|q: Seq<char>| ks.contains(q), |q: Seq<char>| vs[ks.index_of(q)])
        == map_of_pairs(index_url_pairs(outcome))
}

/// The URLs of the problems, in order.
pub open spec fn urls_are(us: Seq<String>, outcome: Seq<RetrievedProblem>) -> bool {
    us.len() == outcome.len() && forall|i: int| 0 <= i < us.len() ==> #[trigger] us[i]@ == outcome[i].url@
}

/// What laying out the package gives for the group and the problems of `outcome`, keyed
/// by index, with the path template rendered with the group's variables in whatever
/// circumstances.
pub open spec fn planned_for(config_path: Seq<char>, template: Seq<char>, group: Group, outcome: Seq<RetrievedProblem>, r: Result<PackageLayout, NewError>) -> bool {
    exists|ks: Seq<Seq<char>>, vs: Seq<String>, env: int|
        #[trigger] package_planned(config_path, liquid_render_in(template, package_globals(group), env), group, ks, vs, r)
            && is_index_map(ks, vs, outcome)
}

/// The step after the problems of `ret` arrived as `outcome`: find the group, key the
/// problems by index, and lay out the package, whatever rendering the path template gave;
/// any error ends the command.
pub open spec fn retrieved_step(
    config_path: Seq<char>,
    template: Seq<char>,
    ret: Retrieval,
    outcome: Seq<RetrievedProblem>,
    phase: NewPhase,
    action: NewAction,
) -> bool {
    let segs = first_contest_segments(outcome);
    match (phase, action) {
        (NewPhase::Creating { group, layout, urls }, NewAction::CreatePackage) => {
            &&& group_found(ret, segs, Ok(group))
            &&& urls_are(urls@, outcome)
            &&& planned_for(config_path, template, group, outcome, Ok(layout))
        },
        (NewPhase::Finished, NewAction::Fail(e)) => {
            ||| group_found(ret, segs, Err(e))
            ||| exists|g: Group| #[trigger] planned_for(config_path, template, g, outcome, Err(e)) && group_found(ret, segs, Ok(g))
        },
        _ => false,
    }
}

/// The source files of the binaries, in order.
pub open spec fn src_paths_of(layout: PackageLayout) -> Seq<String> {
    layout.bins@.map_values(|b: crate::package::BinTarget| b.src_path)
}

/// The step after the problems of `ret` arrived as `outcome`.
fn on_retrieved(config_path: &str, path_template: &str, ret: Retrieval, outcome: Vec<RetrievedProblem>) -> (r: (NewPhase, NewAction))
    ensures
        retrieved_step(config_path@, path_template@, ret, outcome@, r.0, r.1),
{
    match group_of_outcome(&ret, &outcome) {
        Err(e) => (NewPhase::Finished, NewAction::Fail(e)),
        Ok(group) => {
            let problems = index_url_map(&outcome);
            let us = urls(&outcome);
            let count = problems.len();
            assert(count == problems.keys().len());
            assert(is_index_map(problems.keys(), problems.values(), outcome@));
            let planned = plan_new_package(config_path, path_template, &group, &problems);
            let ghost env = choose|env: int|
                package_planned(config_path@, liquid_render_in(path_template@, package_globals(group), env), group, problems.keys(), problems.values(), planned);
            let ghost ks = problems.keys();
            let ghost vs = problems.values();
            assert(package_planned(config_path@, liquid_render_in(path_template@, package_globals(group), env), group, ks, vs, planned));
            assert(planned_for(config_path@, path_template@, group, outcome@, planned));
            match planned {
                Err(e) => {
                    assert(group_found(ret, first_contest_segments(outcome@), Ok(group)));
                    assert(planned_for(config_path@, path_template@, group, outcome@, Err(e)));
                    (NewPhase::Finished, NewAction::Fail(e))
                },
                Ok(layout) => {
                    assert(planned_for(config_path@, path_template@, group, outcome@, Ok(layout)));
                    (NewPhase::Creating { group, layout, urls: us }, NewAction::CreatePackage)
                },
            }
        },
    }
}


impl NewSession {
    /// Whether `event` is what the phase waits for; saved test cases come one per binary.
    pub open spec fn expects(&self, event: NewEvent) -> bool {
        match (self.phase, event) {
            (NewPhase::Retrieving(_), NewEvent::Retrieved(_)) => true,
            (NewPhase::Creating { .. }, NewEvent::PackageCreated) => true,
            (NewPhase::Saving { layout, .. }, NewEvent::TestCasesSaved(paths)) => paths@.len() == layout.bins@.len(),
            (NewPhase::Opening { .. }, NewEvent::Opened) => true,
            _ => false,
        }
    }

    /// Begins the command: plans what to retrieve, or fails.
    pub fn start(request: NewRequest) -> (r: (NewSession, NewAction))
        ensures
            r.0.config_path == request.config_path,
            r.0.path_template == request.path_template,
            r.0.open == request.open,
            match (r.0.phase, r.1) {
                (NewPhase::Retrieving(ret), NewAction::Retrieve) =>
                    retrieval_planned(request.target, request.contest, request.problems, Ok(ret)),
                (NewPhase::Finished, NewAction::Fail(e)) =>
                    retrieval_planned(request.target, request.contest, request.problems, Err(e)),
                _ => false,
            },
    {
        let NewRequest { config_path, path_template, target, contest, problems, open } = request;
        let (phase, action) = match plan_retrieval(&target, contest, problems) {
            Ok(ret) => (NewPhase::Retrieving(ret), NewAction::Retrieve),
            Err(e) => (NewPhase::Finished, NewAction::Fail(e)),
        };
        (NewSession { config_path, path_template, open, phase }, action)
    }

    /// Goes on with what the caller reports.
    pub fn step(self, event: NewEvent) -> (r: (NewSession, NewAction))
        requires
            self.expects(event),
        ensures
            r.0.config_path == self.config_path,
            r.0.path_template == self.path_template,
            r.0.open == self.open,
            match (self.phase, event) {
                (NewPhase::Retrieving(ret), NewEvent::Retrieved(outcome)) =>
                    retrieved_step(self.config_path@, self.path_template@, ret, outcome@, r.0.phase, r.1),
                (NewPhase::Creating { group, layout, urls }, NewEvent::PackageCreated) =>
                    r.0.phase == (NewPhase::Saving { group, layout, urls }) && r.1 is SaveTestCases,
                (NewPhase::Saving { layout, urls, .. }, NewEvent::TestCasesSaved(paths)) => if self.open {
                    &&& r.1 is Open
                    &&& r.0.phase matches NewPhase::Opening { layout: l, urls: u, file_paths: f }
                        && l == layout && u == urls && f@.len() == paths@.len()
                        && forall|i: int| 0 <= i < f@.len() ==> #[trigger] f@[i] == (src_paths_of(layout)[i], paths@[i])
                } else {
                    r.0.phase is Finished && r.1 is Finish
                },
                (NewPhase::Opening { .. }, NewEvent::Opened) => r.0.phase is Finished && r.1 is Finish,
                _ => false,
            },
    {
        let NewSession { config_path, path_template, open, phase } = self;
        let (phase, action) = match (phase, event) {
            (NewPhase::Retrieving(ret), NewEvent::Retrieved(outcome)) =>
                on_retrieved(config_path.as_str(), path_template.as_str(), ret, outcome),
            (NewPhase::Creating { group, layout, urls }, NewEvent::PackageCreated) => (
                NewPhase::Saving { group, layout, urls },
                NewAction::SaveTestCases,
            ),
            (NewPhase::Saving { layout, urls, .. }, NewEvent::TestCasesSaved(paths)) => {
                if open {
                    let mut sources: Vec<String> = Vec::new();
                    let mut i: usize = 0;
                    while i < layout.bins.len()
                        invariant
                            i <= layout.bins@.len(),
                            sources@.len() == i,
                            forall|j: int| 0 <= j < i ==> #[trigger] sources@[j] == src_paths_of(layout)[j],
                        decreases layout.bins.len() - i,
                    {
                        sources.push(layout.bins[i].src_path.clone());
                        i = i + 1;
                    }
                    let file_paths = pair_paths(sources, paths);
                    (NewPhase::Opening { layout, urls, file_paths }, NewAction::Open)
                } else {
                    (NewPhase::Finished, NewAction::Finish)
                }
            },
            (NewPhase::Opening { .. }, NewEvent::Opened) => (NewPhase::Finished, NewAction::Finish),
            (phase, _) => (phase, NewAction::Finish),
        };
        (NewSession { config_path, path_template, open, phase }, action)
    }
}

} // verus!
