//! Turning a free-text image term into a `namespace/repo` pair.
use vstd::prelude::*;
use vstd::string::*;
use crate::text::{
    chars_of, contains, contains_char, same_chars, contains_exec, find_char, first_index, lower, starts_with,
    starts_with_exec, string_of, to_lower, trim, trimmed,
};

verus! {

#[derive(Debug, Clone)]
pub struct ResolvedRepository {
    pub namespace: String,
    pub repo: String,
}

/// One entry of a repository search. `pull_points` is `floor(ln(1 + pull_count) * 10)` for the
/// entry's pull count, worked out by the caller.
#[derive(Debug, Clone)]
pub struct RepoSearchResult {
    pub repo_name: String,
    pub pull_points: u32,
    pub star_count: u64,
    pub is_official: bool,
}

/// What resolving a term needs: nothing to look up, a pair given outright, or a search
/// for the (trimmed) term.
#[derive(Debug, Clone)]
pub enum Resolution {
    Empty,
    Direct(ResolvedRepository),
    Search(String),
}

/// `a/b` split at the first slash, both halves trimmed and non-empty.
pub open spec fn split_pair(name: Seq<char>) -> Option<(Seq<char>, Seq<char>)> {
    match first_index(name, '/') {
        Some(k) => if trim(name.take(k)).len() > 0 && trim(name.skip(k + 1)).len() > 0 {
            Some((trim(name.take(k)), trim(name.skip(k + 1))))
        } else {
            None
        },
        None => None,
    }
}

/// The `(namespace, repo)` that a search entry names: a name with a slash must split into two
/// non-empty halves; a bare official name lives in `library`.
pub open spec fn repo_name_parts(name: Seq<char>, is_official: bool) -> Option<(Seq<char>, Seq<char>)> {
    if name.contains('/') {
        split_pair(name)
    } else if is_official && trim(name).len() > 0 {
        Some(("library"@, trim(name)))
    } else {
        None
    }
}

pub open spec fn name_bonus(repo: Seq<char>, term: Seq<char>) -> int {
    let r = lower(repo);
    let t = lower(term);
    if r == t {
        2000
    } else if starts_with(r, t) {
        1200
    } else if contains(r, t) {
        600
    } else {
        0
    }
}

pub open spec fn is_floor_sqrt(n: nat, r: nat) -> bool {
    r * r <= n < (r + 1) * (r + 1)
}

/// `floor(sqrt(n))`.
pub open spec fn floor_sqrt(n: nat) -> nat {
    choose|r: nat| is_floor_sqrt(n, r)
}

/// The score that marks an entry that names no repository.
pub open spec fn unusable_score() -> int {
    i64::MIN / 2
}

pub open spec fn candidate_score(c: RepoSearchResult, term: Seq<char>) -> int {
    match repo_name_parts(c.repo_name@, c.is_official) {
        None => unusable_score(),
        Some(parts) => name_bonus(parts.1, term) + (if c.is_official || c.repo_name@ == parts.1 {
            1500int
        } else {
            0int
        }) + floor_sqrt(36 * c.star_count as nat) + c.pull_points,
    }
}

/// `i` is the first entry with the highest score.
pub open spec fn is_best(results: Seq<RepoSearchResult>, term: Seq<char>, i: int) -> bool {
    &&& 0 <= i < results.len()
    &&& forall|j: int| 0 <= j < results.len() ==> candidate_score(#[trigger] results[j], term) <= candidate_score(results[i], term)
    &&& forall|j: int| 0 <= j < i ==> candidate_score(#[trigger] results[j], term) < candidate_score(results[i], term)
}

pub open spec fn resolved_view(r: ResolvedRepository) -> (Seq<char>, Seq<char>) {
    (r.namespace@, r.repo@)
}

proof fn lemma_floor_sqrt_unique(n: nat, r: nat)
    requires
        is_floor_sqrt(n, r),
    ensures
        floor_sqrt(n) == r,
{
    let s = floor_sqrt(n);
    assert(is_floor_sqrt(n, s));
    if s < r {
        assert((s + 1) * (s + 1) <= r * r) by (nonlinear_arith)
            requires
                s + 1 <= r,
        ;
    } else if s > r {
        assert((r + 1) * (r + 1) <= s * s) by (nonlinear_arith)
            requires
                r + 1 <= s,
        ;
    }
}

/// `floor(sqrt(n))` by bisection.
fn floor_sqrt_exec(n: u128) -> (r: u64)
    requires
        n < 0x40_0000_0000_0000_0000,
    ensures
        r as nat == floor_sqrt(n as nat),
        r < 0x8_0000_0000,
{
    let mut lo: u64 = 0;
    let mut hi: u64 = 0x8_0000_0000;
    assert(n < (hi as nat) * (hi as nat)) by (nonlinear_arith)
        requires
            hi == 0x8_0000_0000,
            n < 0x40_0000_0000_0000_0000,
    ;
    while hi - lo > 1
        invariant
            lo < hi <= 0x8_0000_0000,
            (lo as nat) * (lo as nat) <= n,
            n < (hi as nat) * (hi as nat),
        decreases hi - lo,
    {
        let mid: u64 = lo + (hi - lo) / 2;
        assert((mid as nat) * (mid as nat) <= 0x40_0000_0000_0000_0000) by (nonlinear_arith)
            requires
                mid <= 0x8_0000_0000,
        ;
        let sq: u128 = (mid as u128) * (mid as u128);
        if sq <= n {
            lo = mid;
        } else {
            hi = mid;
        }
    }
    proof {
        assert(hi == lo + 1);
        lemma_floor_sqrt_unique(n as nat, lo as nat);
    }
    lo
}

/// Splits `a/b` at the first slash; both halves trimmed and non-empty.
fn split_pair_exec(name: &Vec<char>) -> (r: Option<(Vec<char>, Vec<char>)>)
    ensures
        r matches Some(p) ==> split_pair(name@) == Some((p.0@, p.1@)),
        r is None ==> split_pair(name@) is None,
{
    match find_char(name, '/') {
        None => None,
        Some(k) => {
            let mut left: Vec<char> = Vec::new();
            let mut right: Vec<char> = Vec::new();
            let mut i: usize = 0;
            while i < name.len()
                invariant
                    k < name.len(),
                    i <= name.len(),
                    left@ == name@.take(if i < k { i as int } else { k as int }),
                    right@ == if i <= k { Seq::<char>::empty() } else { name@.subrange(k + 1, i as int) },
                decreases name.len() - i,
            {
                if i < k {
                    left.push(name[i]);
                    assert(name@.take(i + 1) == name@.take(i as int).push(name@[i as int]));
                } else if i > k {
                    right.push(name[i]);
                    assert(name@.subrange(k + 1, i + 1) == name@.subrange(k + 1, i as int).push(name@[i as int]));
                } else {
                    assert(name@.subrange(k + 1, k + 1) == Seq::<char>::empty());
                }
                i = i + 1;
            }
            assert(right@ == name@.skip(k + 1));
            let l = trimmed(&left);
            let r = trimmed(&right);
            if l.len() > 0 && r.len() > 0 {
                Some((l, r))
            } else {
                None
            }
        },
    }
}

fn parse_repo_name(repo_name: &str, is_official: bool) -> (r: Option<(String, String)>)
    ensures
        r matches Some(p) ==> repo_name_parts(repo_name@, is_official) == Some((p.0@, p.1@)),
        r is None ==> repo_name_parts(repo_name@, is_official) is None,
{
    let name = chars_of(repo_name);
    if contains_char(&name, '/') {
        return match split_pair_exec(&name) {
            Some((namespace, repo)) => Some((string_of(&namespace), string_of(&repo))),
            None => None,
        };
    }
    let whole = trimmed(&name);
    if is_official && whole.len() > 0 {
        Some((String::from_str("library"), string_of(&whole)))
    } else {
        None
    }
}


/// How well a search entry fits `term` (see `candidate_score`).
pub fn score_repo_candidate(result: &RepoSearchResult, term: &str) -> (r: i64)
    ensures
        r as int == candidate_score(*result, term@),
{
    let term_lower = to_lower(&chars_of(term));
    let repo = match parse_repo_name(result.repo_name.as_str(), result.is_official) {
        Some(value) => value.1,
        None => {
            return i64::MIN / 2;
        },
    };
    let repo_lower = to_lower(&chars_of(repo.as_str()));
    let mut score: i64 = 0;
    if same_chars(&repo_lower, &term_lower) {
        score = 2000;
    } else if starts_with_exec(&repo_lower, &term_lower) {
        score = 1200;
    } else if contains_exec(&repo_lower, &term_lower) {
        score = 600;
    }
    if result.is_official || same_chars(&chars_of(result.repo_name.as_str()), &chars_of(repo.as_str())) {
        score = score + 1500;
    }
    let stars = floor_sqrt_exec((result.star_count as u128) * 36);
    score = score + stars as i64 + result.pull_points as i64;
    score
}

/// The first search entry with the highest score, as a repository; `None` when there are no
/// entries or the best one names no repository.
pub fn pick_best_repository(results: &Vec<RepoSearchResult>, term: &str) -> (r: Option<ResolvedRepository>)
    ensures
        results.len() == 0 ==> r is None,
        results.len() > 0 ==> exists|i: int|
            is_best(results@, term@, i) && match repo_name_parts(results@[i].repo_name@, results@[i].is_official) {
                Some(p) => r matches Some(x) && resolved_view(x) == p,
                None => r is None,
            },
{
    if results.len() == 0 {
        return None;
    }
    let mut best: usize = 0;
    let mut best_score = score_repo_candidate(&results[0], term);
    let mut i: usize = 1;
    while i < results.len()
        invariant
            1 <= i <= results.len(),
            best < i,
            best_score as int == candidate_score(results@[best as int], term@),
            forall|j: int| 0 <= j < i ==> candidate_score(#[trigger] results@[j], term@) <= best_score,
            forall|j: int| 0 <= j < best ==> candidate_score(#[trigger] results@[j], term@) < best_score,
        decreases results.len() - i,
    {
        let s = score_repo_candidate(&results[i], term);
        if s > best_score {
            best = i;
            best_score = s;
        }
        i = i + 1;
    }
    assert(is_best(results@, term@, best as int));
    let chosen = &results[best];
    match parse_repo_name(chosen.repo_name.as_str(), chosen.is_official) {
        Some((namespace, repo)) => Some(ResolvedRepository { namespace, repo }),
        None => None,
    }
}

/// What `term` needs in order to be resolved: empty after trimming gives `Empty`; a slash with
/// non-empty halves gives the pair at once; anything else is searched for.
pub fn resolve_start(term: &str) -> (r: Resolution)
    ensures
        trim(term@).len() == 0 ==> r is Empty,
        trim(term@).len() > 0 && split_pair(trim(term@)) is Some ==> (r matches Resolution::Direct(x)
            && resolved_view(x) == split_pair(trim(term@))->0),
        trim(term@).len() > 0 && split_pair(trim(term@)) is None ==> (r matches Resolution::Search(s)
            && s@ == trim(term@)),
{
    let input = trimmed(&chars_of(term));
    if input.len() == 0 {
        return Resolution::Empty;
    }
    match split_pair_exec(&input) {
        Some((namespace, repo)) => Resolution::Direct(
            ResolvedRepository { namespace: string_of(&namespace), repo: string_of(&repo) },
        ),
        None => Resolution::Search(string_of(&input)),
    }
}

} // verus!
