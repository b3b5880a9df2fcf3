//! The group a new package is made for: a contest of a platform, or a set of problems.

use vstd::prelude::*;

verus! {

/// What a new package holds.
#[derive(Clone, Debug)]
pub enum Group {
    Atcoder(String),
    Codeforces(String),
    YukicoderProblems,
    YukicoderContest(String),
    OjApi(String),
}

/// The word a package of loose problems is named after.
pub open spec fn problems_word() -> Seq<char> {
    seq!['p', 'r', 'o', 'b', 'l', 'e', 'm', 's']
}

/// The word put before a name that starts with a digit.
pub open spec fn contest_word() -> Seq<char> {
    seq!['c', 'o', 'n', 't', 'e', 's', 't']
}

/// Whether `s` starts with an ASCII digit.
pub open spec fn starts_with_digit(s: Seq<char>) -> bool {
    s.len() > 0 && '0' <= s[0] && s[0] <= '9'
}

/// The package name for a group whose contest is `contest`: the contest, or `problems`
/// where there is none, with `contest` before it where it starts with a digit.
pub open spec fn package_name_for(contest: Option<Seq<char>>) -> Seq<char> {
    let base = match contest {
        Some(c) => c,
        None => problems_word(),
    };
    if starts_with_digit(base) {
        contest_word() + base
    } else {
        base
    }
}

impl Group {
    /// The contest of the group, if it has one.
    pub open spec fn spec_contest(&self) -> Option<Seq<char>> {
        match self {
            Group::Atcoder(c) => Some(c@),
            Group::Codeforces(c) => Some(c@),
            Group::YukicoderContest(c) => Some(c@),
            Group::OjApi(c) => Some(c@),
            Group::YukicoderProblems => None,
        }
    }

    /// The name of the package made for the group.
    pub open spec fn spec_package_name(&self) -> Seq<char> {
        package_name_for(self.spec_contest())
    }

    /// The contest of the group, if it has one.
    pub fn contest(&self) -> (r: Option<&str>)
        ensures
            r.is_some() == self.spec_contest().is_some(),
            r matches Some(c) ==> self.spec_contest() == Some(c@),
    {
        match self {
            Group::Atcoder(contest) => Some(contest.as_str()),
            Group::Codeforces(contest) => Some(contest.as_str()),
            Group::YukicoderContest(contest) => Some(contest.as_str()),
            Group::OjApi(contest) => Some(contest.as_str()),
            Group::YukicoderProblems => None,
        }
    }

    /// The name of the package made for the group: its contest (or `problems`), with
    /// `contest` put before it where it starts with a digit, so that it is a valid
    /// package name.
    pub fn package_name(&self) -> (r: String)
        ensures
            r@ == self.spec_package_name(),
            !starts_with_digit(r@),
    {
        let mut package_name = match self.contest() {
            Some(contest) => contest.to_owned(),
            None => {
                let p = String::from_str("problems");
                proof {
                    reveal_strlit("problems");
                }
                assert(p@ =~= problems_word());
                p
            },
        };
        if starts_with_ascii_digit(package_name.as_str()) {
            let prefix = String::from_str("contest");
            proof {
                reveal_strlit("contest");
            }
            assert(prefix@ =~= contest_word());
            package_name = prefix.concat(package_name.as_str());
        }
        package_name
    }
}

/// Whether `s` starts with an ASCII digit.
pub fn starts_with_ascii_digit(s: &str) -> (r: bool)
    ensures
        r == starts_with_digit(s@),
{
    if s.unicode_len() == 0 {
        false
    } else {
        let c = s.get_char(0);
        '0' <= c && c <= '9'
    }
}

} // verus!
