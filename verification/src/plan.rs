//! The decisions of the `new` command: what to retrieve for the arguments given, which
//! group the retrieved problems form, and how the problems are keyed and named.

use vstd::prelude::*;
use crate::error::NewError;
use crate::external::{
    globals_view, kebab_case, liquid_render_in, parse_url, path_segments, render_liquid,
    rendered_view, strings_view, to_kebab_case, url_parse, url_path_segments,
};
use crate::group::Group;
use crate::str_map::{map_of_pairs, pairs_view, sorted_keys, StrMap};

verus! {

/// A platform that cargo-compete retrieves from itself.
#[derive(Clone, Copy, Debug, PartialEq, Eq, Structural)]
pub enum Platform {
    Atcoder,
    Codeforces,
    Yukicoder,
}

/// What the `new` section of `compete.toml` says to retrieve from: a platform, or the
/// `oj-api` tool with a template of the contest URL.
#[derive(Clone, Debug)]
pub enum NewTarget {
    CargoCompete(Platform),
    OjApi { url: String },
}

/// What to retrieve. Problem lists are sorted and hold no index twice (a set).
#[derive(Debug)]
pub enum Retrieval {
    Atcoder { contest: String, problems: Option<Vec<String>> },
    Codeforces { contest: String, problems: Option<Vec<String>> },
    YukicoderContest { contest: String, problems: Option<Vec<String>> },
    YukicoderProblems { problem_nos: Vec<String> },
    OjApi { contest_id: String, contest_url: String },
}

/// A problem as the download gives it: its index, its URL and, where known, the URL of
/// its contest.
#[derive(Clone, Debug)]
pub struct RetrievedProblem {
    pub index: String,
    pub url: String,
    pub contest_url: Option<String>,
}

/// `r` is sorted, has no element twice, and holds exactly the elements of `input`.
pub open spec fn is_sorted_set_of(r: Seq<Seq<char>>, input: Seq<Seq<char>>) -> bool {
    &&& sorted_keys(r)
    &&& forall|x: Seq<char>| r.contains(x) <==> input.contains(x)
}

/// An optional list of problems, turned into a set where it is there.
pub open spec fn is_problem_set_of(r: Option<Vec<String>>, input: Option<Vec<String>>) -> bool {
    match (r, input) {
        (None, None) => true,
        (Some(a), Some(b)) => is_sorted_set_of(strings_view(a@), strings_view(b@)),
        _ => false,
    }
}

/// The strings of a list, optionally.
pub open spec fn opt_strings_view(v: Option<Vec<String>>) -> Option<Seq<Seq<char>>> {
    match v {
        Some(v) => Some(strings_view(v@)),
        None => None,
    }
}

/// The variables the contest URL template of `oj-api` is rendered with: `id`, the
/// contest.
pub open spec fn contest_url_globals(contest_id: Seq<char>) -> Seq<(Seq<char>, Option<Seq<char>>)> {
    seq![("id"@, Some(contest_id))]
}

/// The variables the contest URL template is rendered with (see `contest_url_globals`).
pub fn contest_url_variables(contest_id: &str) -> (r: Vec<(String, Option<String>)>)
    ensures
        globals_view(r@) == contest_url_globals(contest_id@),
{
    let mut globals: Vec<(String, Option<String>)> = Vec::new();
    globals.push((String::from_str("id"), Some(contest_id.to_owned())));
    assert(globals_view(globals@) =~= contest_url_globals(contest_id@));
    globals
}

/// What `contest_url_from_rendered` gives for the contest and the outcome of rendering
/// the contest URL template: the render's error, or the URL's, or the retrieval.
pub open spec fn contest_url_planned(contest_id: Seq<char>, rendered: Result<Seq<char>, Seq<char>>, r: Result<Retrieval, NewError>) -> bool {
    match rendered {
        Err(m) => r matches Err(NewError::ContestUrlTemplate(e)) && e@ == m,
        Ok(text) => match url_parse(text) {
            None => r matches Err(NewError::ContestUrl(_)),
            Some(u) => r matches Ok(Retrieval::OjApi { contest_id: id, contest_url: cu })
                && id@ == contest_id && cu@ == u,
        },
    }
}

/// The problems as a set: sorted in the order of `String`, each once.
pub fn problem_set(problems: &Vec<String>) -> (r: Vec<String>)
    ensures
        is_sorted_set_of(strings_view(r@), strings_view(problems@)),
{
    let mut set: StrMap<()> = StrMap::new();
    let mut i: usize = 0;
    while i < problems.len()
        invariant
            i <= problems.len(),
            sorted_keys(set.keys()),
            forall|x: Seq<char>| set.keys().contains(x) <==> strings_view(problems@).take(i as int).contains(x),
        decreases problems.len() - i,
    {
        let ghost before = set.as_map();
        let ghost old_keys = set.keys();
        let p = problems[i].clone();
        set.insert(p, ());
        proof {
            let taken = strings_view(problems@).take(i + 1);
            assert(taken =~= strings_view(problems@).take(i as int).push(problems@[i as int]@));
            assert forall|x: Seq<char>| set.keys().contains(x) <==> taken.contains(x) by {
                assert(set.as_map().dom().contains(x) == set.keys().contains(x));
                assert(before.dom().contains(x) == old_keys.contains(x));
                if x == problems@[i as int]@ {
                    assert(taken[i as int] == x);
                } else if taken.contains(x) {
                    let j = choose|j: int| 0 <= j < taken.len() && taken[j] == x;
                    assert(strings_view(problems@).take(i as int)[j] == x);
                } else if old_keys.contains(x) {
                    let j = choose|j: int| 0 <= j < i && strings_view(problems@).take(i as int)[j] == x;
                    assert(taken[j] == x);
                }
            }
        }
        i = i + 1;
    }
    assert(strings_view(problems@).take(i as int) =~= strings_view(problems@));
    let r = set.keys_vec();
    r
}

/// A set of the optional problems.
fn optional_problem_set(problems: &Option<Vec<String>>) -> (r: Option<Vec<String>>)
    ensures
        is_problem_set_of(r, *problems),
{
    match problems {
        Some(ps) => Some(problem_set(ps)),
        None => None,
    }
}

/// What `plan_retrieval` gives for the target, the contest and the problems.
pub open spec fn retrieval_planned(
    target: NewTarget,
    contest: Option<String>,
    problems: Option<Vec<String>>,
    r: Result<Retrieval, NewError>,
) -> bool {
    match target {
        NewTarget::CargoCompete(Platform::Atcoder) => match contest {
            None => r matches Err(NewError::AtcoderContestRequired),
            Some(c) => r matches Ok(Retrieval::Atcoder { contest: rc, problems: rp })
                && rc@ == c@ && is_problem_set_of(rp, problems),
        },
        NewTarget::CargoCompete(Platform::Codeforces) => match contest {
            None => r matches Err(NewError::CodeforcesContestRequired),
            Some(c) => r matches Ok(Retrieval::Codeforces { contest: rc, problems: rp })
                && rc@ == c@ && is_problem_set_of(rp, problems),
        },
        NewTarget::CargoCompete(Platform::Yukicoder) => match contest {
            Some(c) => r matches Ok(Retrieval::YukicoderContest { contest: rc, problems: rp })
                && rc@ == c@ && is_problem_set_of(rp, problems),
            None => match problems {
                Some(ps) => r matches Ok(Retrieval::YukicoderProblems { problem_nos: rp })
                    && is_sorted_set_of(strings_view(rp@), strings_view(ps@)),
                None => r matches Err(NewError::YukicoderTargetRequired),
            },
        },
        NewTarget::OjApi { url } => if problems is Some {
            r matches Err(NewError::ProblemsNotAllowedForOjApi)
        } else {
            match contest {
                None => r matches Err(NewError::OjApiContestRequired),
                Some(c) => exists|env: int|
                    #[trigger] contest_url_planned(c@, liquid_render_in(url@, contest_url_globals(c@), env), r),
            }
        },
    }
}

/// What to retrieve for the target of the configuration, the contest and the problems
/// given on the command line: AtCoder and Codeforces need a contest; yukicoder needs a
/// contest or problems; `oj-api` takes no problems, needs a contest, and renders its
/// contest URL template with the contest as `id` (what the render gives, which may
/// depend on the clock, goes to `contest_url_from_rendered`).
pub fn plan_retrieval(target: &NewTarget, contest: Option<String>, problems: Option<Vec<String>>) -> (r: Result<Retrieval, NewError>)
    ensures
        retrieval_planned(*target, contest, problems, r),
{
    match target {
        NewTarget::CargoCompete(Platform::Atcoder) => match contest {
            None => Err(NewError::AtcoderContestRequired),
            Some(c) => Ok(Retrieval::Atcoder { contest: c, problems: optional_problem_set(&problems) }),
        },
        NewTarget::CargoCompete(Platform::Codeforces) => match contest {
            None => Err(NewError::CodeforcesContestRequired),
            Some(c) => Ok(Retrieval::Codeforces { contest: c, problems: optional_problem_set(&problems) }),
        },
        NewTarget::CargoCompete(Platform::Yukicoder) => match contest {
            Some(c) => Ok(Retrieval::YukicoderContest { contest: c, problems: optional_problem_set(&problems) }),
            None => match problems {
                Some(ps) => Ok(Retrieval::YukicoderProblems { problem_nos: problem_set(&ps) }),
                None => Err(NewError::YukicoderTargetRequired),
            },
        },
        NewTarget::OjApi { url } => {
            if problems.is_some() {
                return Err(NewError::ProblemsNotAllowedForOjApi);
            }
            let contest_id = match contest {
                Some(c) => c,
                None => return Err(NewError::OjApiContestRequired),
            };
            let globals = contest_url_variables(contest_id.as_str());
            let rendered = render_liquid(url.as_str(), &globals);
            let ghost rv = rendered_view(rendered);
            let ghost env = choose|env: int| rv == liquid_render_in(url@, globals_view(globals@), env);
            let ghost cv = contest_id@;
            let r = contest_url_from_rendered(contest_id, rendered);
            assert(contest_url_planned(cv, liquid_render_in(url@, contest_url_globals(cv), env), r));
            r
        },
    }
}

/// The `oj-api` retrieval for the contest, from the rendered contest URL template: a
/// render error is an error; the rendered text must parse as a URL, which is kept as
/// `url` serializes it.
pub fn contest_url_from_rendered(contest_id: String, rendered: Result<String, String>) -> (r: Result<Retrieval, NewError>)
    ensures
        contest_url_planned(contest_id@, rendered_view(rendered), r),
{
    let rendered = match rendered {
        Ok(s) => s,
        Err(m) => return Err(NewError::ContestUrlTemplate(m)),
    };
    let contest_url = match parse_url(rendered.as_str()) {
        Ok(u) => u,
        Err(m) => return Err(NewError::ContestUrl(m)),
    };
    Ok(Retrieval::OjApi { contest_id, contest_url })
}

/// What `group_for` gives for the retrieval, given the path segments `segs` of the
/// first problem's contest URL.
pub open spec fn group_found(retrieval: Retrieval, segs: Option<Seq<Seq<char>>>, r: Result<Group, NewError>) -> bool {
    match retrieval {
        Retrieval::Atcoder { .. } => if segs is Some && segs->Some_0.len() >= 2 {
            r matches Ok(Group::Atcoder(c)) && c@ == segs->Some_0[1]
        } else {
            r matches Err(NewError::EmptyResult)
        },
        Retrieval::Codeforces { .. } => if segs is Some && segs->Some_0.len() >= 2 {
            r matches Ok(Group::Codeforces(c)) && c@ == segs->Some_0[1]
        } else {
            r matches Err(NewError::EmptyResult)
        },
        Retrieval::YukicoderContest { .. } | Retrieval::YukicoderProblems { .. } =>
            if segs is Some && segs->Some_0.len() >= 1 {
                r matches Ok(Group::YukicoderContest(c)) && c@ == segs->Some_0.last()
            } else {
                r matches Ok(Group::YukicoderProblems)
            },
        Retrieval::OjApi { contest_id, .. } => r matches Ok(Group::OjApi(c)) && c@ == contest_id@,
    }
}

/// The group for what was retrieved, given the path segments of the first problem's
/// contest URL: for AtCoder and Codeforces the contest is the second segment (an error
/// where there is none); for yukicoder the last segment, if any, names the contest;
/// for `oj-api` the contest is the one asked for.
pub fn group_for(retrieval: &Retrieval, segments: Option<Vec<String>>) -> (r: Result<Group, NewError>)
    ensures
        group_found(*retrieval, opt_strings_view(segments), r),
{
    match retrieval {
        Retrieval::Atcoder { .. } => match segments {
            Some(s) if s.len() >= 2 => Ok(Group::Atcoder(s[1].clone())),
            _ => Err(NewError::EmptyResult),
        },
        Retrieval::Codeforces { .. } => match segments {
            Some(s) if s.len() >= 2 => Ok(Group::Codeforces(s[1].clone())),
            _ => Err(NewError::EmptyResult),
        },
        Retrieval::YukicoderContest { .. } | Retrieval::YukicoderProblems { .. } => match segments {
            Some(s) if s.len() >= 1 => Ok(Group::YukicoderContest(s[s.len() - 1].clone())),
            _ => Ok(Group::YukicoderProblems),
        },
        Retrieval::OjApi { contest_id, .. } => Ok(Group::OjApi(contest_id.clone())),
    }
}

/// The path segments of the contest URL of the first problem, where there is one.
pub open spec fn first_contest_segments(outcome: Seq<RetrievedProblem>) -> Option<Seq<Seq<char>>> {
    if outcome.len() > 0 && outcome[0].contest_url is Some {
        url_path_segments(outcome[0].contest_url->Some_0@)
    } else {
        None
    }
}

/// The group for what was retrieved, found from the contest URL of the first problem.
pub fn group_of_outcome(retrieval: &Retrieval, outcome: &Vec<RetrievedProblem>) -> (r: Result<Group, NewError>)
    ensures
        group_found(*retrieval, first_contest_segments(outcome@), r),
{
    let segments = if outcome.len() > 0 {
        match &outcome[0].contest_url {
            Some(u) => path_segments(u.as_str()),
            None => None,
        }
    } else {
        None
    };
    group_for(retrieval, segments)
}

/// The URLs of the problems, in order.
pub fn urls(outcome: &Vec<RetrievedProblem>) -> (r: Vec<String>)
    ensures
        r@.len() == outcome@.len(),
        forall|i: int| 0 <= i < r@.len() ==> #[trigger] r@[i]@ == outcome@[i].url@,
{
    let mut r: Vec<String> = Vec::new();
    let mut i: usize = 0;
    while i < outcome.len()
        invariant
            i <= outcome.len(),
            r@.len() == i,
            forall|j: int| 0 <= j < i ==> #[trigger] r@[j]@ == outcome@[j].url@,
        decreases outcome.len() - i,
    {
        r.push(outcome[i].url.clone());
        i = i + 1;
    }
    r
}

/// The pairs (index, URL) of the problems, in order.
pub open spec fn index_url_pairs(outcome: Seq<RetrievedProblem>) -> Seq<(Seq<char>, String)> {
    outcome.map_values(|p: RetrievedProblem| (p.index@, p.url))
}

/// The problems keyed by index, sorted (`BTreeMap<&str, &Url>`); where two problems share
/// an index, the later one's URL wins.
pub fn index_url_map(outcome: &Vec<RetrievedProblem>) -> (m: StrMap<String>)
    ensures
        m.as_map() == map_of_pairs(index_url_pairs(outcome@)),
        sorted_keys(m.keys()),
{
    let mut pairs: Vec<(String, String)> = Vec::new();
    let mut i: usize = 0;
    while i < outcome.len()
        invariant
            i <= outcome.len(),
            pairs@.len() == i,
            pairs_view(pairs@) == index_url_pairs(outcome@).take(i as int),
        decreases outcome.len() - i,
    {
        let ghost before = pairs@;
        pairs.push((outcome[i].index.clone(), outcome[i].url.clone()));
        proof {
            assert forall|j: int| 0 <= j < i + 1 implies #[trigger] pairs_view(pairs@)[j]
                == index_url_pairs(outcome@).take(i + 1)[j] by {
                if j < i {
                    assert(pairs@[j] == before[j]);
                    assert(pairs_view(before)[j] == index_url_pairs(outcome@).take(i as int)[j]);
                }
            }
            assert(pairs_view(pairs@) =~= index_url_pairs(outcome@).take(i + 1));
        }
        i = i + 1;
    }
    assert(index_url_pairs(outcome@).take(i as int) =~= index_url_pairs(outcome@));
    StrMap::from_pairs(pairs)
}

/// The problems of `oj-api` keyed by their URL, sorted by it (`BTreeMap<Url, _>`); a
/// later problem of the same URL wins.
pub fn problems_by_url<P>(pairs: Vec<(String, P)>) -> (m: StrMap<P>)
    ensures
        m.as_map() == map_of_pairs(pairs_view(pairs@)),
        sorted_keys(m.keys()),
{
    StrMap::from_pairs(pairs)
}

/// The names the test cases of a problem are saved under: the package name, a hyphen,
/// and the problem index in kebab case.
pub fn test_suite_names(group: &Group, index: &str) -> (r: Vec<String>)
    ensures
        r@.len() == 1,
        r@[0]@ == group.spec_package_name() + "-"@ + kebab_case(index@),
{
    let name = group.package_name().concat("-").concat(to_kebab_case(index).as_str());
    let mut r = Vec::new();
    r.push(name);
    r
}

/// The directory names of a problem: its index in kebab case.
pub fn problem_dir_names(index: &str) -> (r: Vec<String>)
    ensures
        r@.len() == 1,
        r@[0]@ == kebab_case(index@),
{
    let mut r = Vec::new();
    r.push(to_kebab_case(index));
    r
}

/// Pairs the source files with the test suite files, one for one (`zip_eq`).
pub fn pair_paths(sources: Vec<String>, tests: Vec<String>) -> (r: Vec<(String, String)>)
    requires
        sources@.len() == tests@.len(),
    ensures
        r@.len() == sources@.len(),
        forall|i: int| 0 <= i < r@.len() ==> #[trigger] r@[i] == (sources@[i], tests@[i]),
{
    let mut r: Vec<(String, String)> = Vec::new();
    let mut i: usize = 0;
    while i < sources.len()
        invariant
            i <= sources.len(),
            sources@.len() == tests@.len(),
            r@.len() == i,
            forall|j: int| 0 <= j < i ==> #[trigger] r@[j] == (sources@[j], tests@[j]),
        decreases sources.len() - i,
    {
        r.push((sources[i].clone(), tests[i].clone()));
        i = i + 1;
    }
    r
}

} // verus!

verus! {

/// The problems given on the command line are a set: lists with the same elements, in
/// any order and with any repeats, give the same problems to retrieve.
pub proof fn lemma_problem_set_ignores_order_and_repeats(
    r1: Seq<Seq<char>>,
    input1: Seq<Seq<char>>,
    r2: Seq<Seq<char>>,
    input2: Seq<Seq<char>>,
)
    requires
        is_sorted_set_of(r1, input1),
        is_sorted_set_of(r2, input2),
        forall|x: Seq<char>| input1.contains(x) <==> input2.contains(x),
    ensures
        r1 == r2,
{
    crate::str_map::lemma_sorted_keys_unique(r1, r2);
}

/// With a contest given, AtCoder, Codeforces and yukicoder retrieve from that contest,
/// and the problems given decide which: none given (no `--problems`) means every
/// problem of the contest; given, exactly those indices, each once.
pub proof fn lemma_contest_retrieval_keeps_the_problems(
    p: Platform,
    c: String,
    problems: Option<Vec<String>>,
    r: Result<Retrieval, NewError>,
)
    requires
        retrieval_planned(NewTarget::CargoCompete(p), Some(c), problems, r),
    ensures
        match r {
            Ok(Retrieval::Atcoder { contest, problems: rp }) => p == Platform::Atcoder && contest@ == c@
                && (rp is None <==> problems is None)
                && (rp is Some ==> forall|x: Seq<char>|
                    strings_view(rp->Some_0@).contains(x) <==> strings_view(problems->Some_0@).contains(x)),
            Ok(Retrieval::Codeforces { contest, problems: rp }) => p == Platform::Codeforces && contest@ == c@
                && (rp is None <==> problems is None)
                && (rp is Some ==> forall|x: Seq<char>|
                    strings_view(rp->Some_0@).contains(x) <==> strings_view(problems->Some_0@).contains(x)),
            Ok(Retrieval::YukicoderContest { contest, problems: rp }) => p == Platform::Yukicoder && contest@ == c@
                && (rp is None <==> problems is None)
                && (rp is Some ==> forall|x: Seq<char>|
                    strings_view(rp->Some_0@).contains(x) <==> strings_view(problems->Some_0@).contains(x)),
            _ => false,
        },
{
}

/// For yukicoder the group comes from the contest URL alone, whether a contest or
/// problem numbers were asked for: where the URL's path has a segment, the group is the
/// contest named by the last one; otherwise the problems stand alone.
pub proof fn lemma_yukicoder_group_from_url(ret: Retrieval, segs: Option<Seq<Seq<char>>>, r: Result<Group, NewError>)
    requires
        ret is YukicoderContest || ret is YukicoderProblems,
        group_found(ret, segs, r),
    ensures
        segs is Some && segs->Some_0.len() > 0 ==> (r matches Ok(Group::YukicoderContest(c)) && c@ == segs->Some_0.last()),
        !(segs is Some && segs->Some_0.len() > 0) ==> r matches Ok(Group::YukicoderProblems),
{
}

/// Two yukicoder retrievals whose first problems have the same contest URL form the
/// same group.
pub proof fn lemma_yukicoder_group_same_for_both(
    a: Retrieval,
    b: Retrieval,
    segs: Option<Seq<Seq<char>>>,
    ra: Result<Group, NewError>,
    rb: Result<Group, NewError>,
)
    requires
        a is YukicoderContest || a is YukicoderProblems,
        b is YukicoderContest || b is YukicoderProblems,
        group_found(a, segs, ra),
        group_found(b, segs, rb),
    ensures
        ra matches Ok(ga) && rb matches Ok(gb) && ga.spec_contest() == gb.spec_contest()
            && (ga is YukicoderContest <==> gb is YukicoderContest),
{
}

} // verus!
