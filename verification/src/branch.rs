//! Which branch counts as a repository's default branch.
//!
//! The decision needs git's answers (the remote HEAD, whether a local branch
//! exists), so it is a step function: given the answers so far it names the
//! next question or the result.
use vstd::prelude::*;

use crate::text::{chars_of, strip_prefix_once, string_of, without_prefix};

verus! {

/// The next move in finding the default branch.
pub enum DefaultBranchStep {
    /// Ask whether the local branch `refs/heads/<name>` exists.
    ProbeLocal(String),
    /// The answer: `(ref for merge-base, short name)`, or none at all.
    Resolved(Option<(String, String)>),
}

/// [`DefaultBranchStep`] seen as characters.
pub enum DefaultBranchDecision {
    ProbeLocal(Seq<char>),
    Resolved(Option<(Seq<char>, Seq<char>)>),
}

impl View for DefaultBranchStep {
    type V = DefaultBranchDecision;

    open spec fn view(&self) -> DefaultBranchDecision {
        match self {
            DefaultBranchStep::ProbeLocal(s) => DefaultBranchDecision::ProbeLocal(s@),
            DefaultBranchStep::Resolved(None) => DefaultBranchDecision::Resolved(None),
            DefaultBranchStep::Resolved(Some((r, s))) => DefaultBranchDecision::Resolved(
                Some((r@, s@)),
            ),
        }
    }
}

/// The local branches tried, in order, when the remote HEAD is unknown.
pub open spec fn local_candidate(i: int) -> Seq<char> {
    if i == 0 {
        "main"@
    } else {
        "master"@
    }
}

/// The default branch given the remote HEAD (`origin/HEAD`'s short symbolic
/// ref, when git has one) and the answers so far for the local candidates:
/// the remote HEAD wins, with its leading `origin/` removed as the short name
/// (so branch names with a `/` survive); else the
/// first local candidate that exists; else the next candidate to ask about;
/// else none.
pub open spec fn default_branch_decision(
    remote_head: Option<Seq<char>>,
    probes: Seq<bool>,
) -> DefaultBranchDecision {
    match remote_head {
        Some(s) => DefaultBranchDecision::Resolved(Some((s, without_prefix(s, "origin/"@)))),
        None => if probes.len() >= 1 && probes[0] {
            DefaultBranchDecision::Resolved(Some((local_candidate(0), local_candidate(0))))
        } else if probes.len() >= 2 && probes[1] {
            DefaultBranchDecision::Resolved(Some((local_candidate(1), local_candidate(1))))
        } else if probes.len() < 2 {
            DefaultBranchDecision::ProbeLocal(local_candidate(probes.len() as int))
        } else {
            DefaultBranchDecision::Resolved(None)
        },
    }
}

/// The next step in finding the default branch of a repository.
///
/// `remote_head` is the output of `git symbolic-ref --quiet --short
/// refs/remotes/origin/HEAD` when that succeeded; `local_probes[i]` tells
/// whether the i-th local candidate (`main`, then `master`) exists.
pub fn default_branch(remote_head: &Option<String>, local_probes: &Vec<bool>) -> (r:
    DefaultBranchStep)
    ensures
        r@ == default_branch_decision(remote_head.deep_view(), local_probes@),
{
    match remote_head {
        Some(s) => {
            let cs = chars_of(s.as_str());
            let origin = chars_of("origin/");
            let short = strip_prefix_once(&cs, &origin);
            let short_s = string_of(&short);
            DefaultBranchStep::Resolved(Some((s.clone(), short_s)))
        },
        None => {
            let main_name = chars_of("main");
            let master_name = chars_of("master");
            if local_probes.len() >= 1 && local_probes[0] {
                DefaultBranchStep::Resolved(
                    Some((string_of(&main_name), string_of(&main_name))),
                )
            } else if local_probes.len() >= 2 && local_probes[1] {
                DefaultBranchStep::Resolved(
                    Some((string_of(&master_name), string_of(&master_name))),
                )
            } else if local_probes.len() == 0 {
                DefaultBranchStep::ProbeLocal(string_of(&main_name))
            } else if local_probes.len() == 1 {
                DefaultBranchStep::ProbeLocal(string_of(&master_name))
            } else {
                DefaultBranchStep::Resolved(None)
            }
        },
    }
}

/// Law: the remote HEAD, when git reports one, is the default branch whatever
/// the local branches are.
pub proof fn lemma_remote_head_wins(s: Seq<char>, p1: Seq<bool>, p2: Seq<bool>)
    ensures
        default_branch_decision(Some(s), p1) == default_branch_decision(Some(s), p2),
        default_branch_decision(Some(s), p1) is Resolved,
{
}

/// Law: at most two local branches are ever asked about: after two answers
/// the decision is final.
pub proof fn lemma_at_most_two_probes(remote_head: Option<Seq<char>>, probes: Seq<bool>)
    requires
        probes.len() >= 2,
    ensures
        default_branch_decision(remote_head, probes) is Resolved,
{
}

} // verus!
