//! Naming rules: how an item number becomes a location to fetch from, and the
//! name of the file an item is saved under.
use vstd::prelude::*;
use crate::decimal::{padded, decimal, push_padded, push_decimal};

verus! {

/// One way in which a hosting origin names an item: the origin's base, the
/// width to which the number is zero-padded (0 leaves it unpadded), and what
/// follows the number (the extension and any query string).
pub struct NamingRule {
    pub origin: String,
    pub pad_width: usize,
    pub suffix: String,
}

/// The location that `rule` gives for item `n`.
pub open spec fn candidate_of(rule: NamingRule, n: nat) -> Seq<char> {
    rule.origin@ + padded(n, rule.pad_width as nat) + rule.suffix@
}

/// The locations to try for item `n`, one per rule, in the rules' order.
pub open spec fn candidates_of(rules: Seq<NamingRule>, n: nat) -> Seq<Seq<char>> {
    Seq::new(rules.len(), |i: int| candidate_of(rules[i], n))
}

pub open spec fn aws_origin() -> Seq<char> {
    "https://s3-eu-west-1.amazonaws.com/crateandcrowbar/episodes/CCEp"@
}

pub open spec fn pentadact_origin() -> Seq<char> {
    "https://www.pentadact.com/podcast/CCEp"@
}

pub open spec fn episode_suffix() -> Seq<char> {
    ".mp3"@
}

/// The name of the file that item `n` is saved under.
pub open spec fn destination_of(n: nat) -> Seq<char> {
    "CC"@ + decimal(n) + ".mp3"@
}

impl NamingRule {
    /// Builds a rule from its parts.
    pub fn new(origin: &str, pad_width: usize, suffix: &str) -> (r: NamingRule)
        ensures
            r.origin@ == origin@,
            r.pad_width == pad_width,
            r.suffix@ == suffix@,
    {
        NamingRule { origin: String::from_str(origin), pad_width, suffix: String::from_str(suffix) }
    }

    /// The location that this rule gives for `item`.
    pub fn candidate(&self, item: usize) -> (r: String)
        ensures
            r@ == candidate_of(*self, item as nat),
    {
        let mut s = self.origin.clone();
        push_padded(&mut s, item as u64, self.pad_width);
        s.append(self.suffix.as_str());
        s
    }
}

/// The candidate locations for `item`, one per rule and in the rules' order.
pub fn candidates(rules: &Vec<NamingRule>, item: usize) -> (r: Vec<String>)
    ensures
        r@.len() == rules@.len(),
        forall|i: int| 0 <= i < r@.len() ==> #[trigger] r@[i]@ == candidates_of(rules@, item as nat)[i],
{
    let mut r: Vec<String> = Vec::new();
    let mut i: usize = 0;
    while i < rules.len()
        invariant
            i <= rules@.len(),
            r@.len() == i,
            forall|j: int| 0 <= j < i ==> #[trigger] r@[j]@ == candidate_of(rules@[j], item as nat),
        decreases rules@.len() - i,
    {
        r.push(rules[i].candidate(item));
        i = i + 1;
    }
    r
}

/// Asking twice for the candidates of one item under one list of rules gives
/// the same locations in the same order: one per rule, the first rule's first.
pub proof fn lemma_candidate_order_stable(rules: Seq<NamingRule>, n: nat, m: nat)
    ensures
        n == m ==> candidates_of(rules, n) == candidates_of(rules, m),
        candidates_of(rules, n).len() == rules.len(),
        forall|i: int| 0 <= i < rules.len() ==> #[trigger] candidates_of(rules, n)[i] == candidate_of(rules[i], n),
{
}

/// The primary archive: three-digit zero-padded numbers.
pub fn aws_rule() -> (r: NamingRule)
    ensures
        r.origin@ == aws_origin(),
        r.pad_width == 3,
        r.suffix@ == episode_suffix(),
{
    NamingRule::new("https://s3-eu-west-1.amazonaws.com/crateandcrowbar/episodes/CCEp", 3, ".mp3")
}

/// The secondary host with three-digit zero-padded numbers.
pub fn pentadact_padded_rule() -> (r: NamingRule)
    ensures
        r.origin@ == pentadact_origin(),
        r.pad_width == 3,
        r.suffix@ == episode_suffix(),
{
    NamingRule::new("https://www.pentadact.com/podcast/CCEp", 3, ".mp3")
}

/// The secondary host with unpadded numbers.
pub fn pentadact_unpadded_rule() -> (r: NamingRule)
    ensures
        r.origin@ == pentadact_origin(),
        r.pad_width == 0,
        r.suffix@ == episode_suffix(),
{
    NamingRule::new("https://www.pentadact.com/podcast/CCEp", 0, ".mp3")
}

/// The rules in the order in which they are tried: the primary archive, then the
/// secondary host padded, then unpadded.
pub fn default_rules() -> (r: Vec<NamingRule>)
    ensures
        r@.len() == 3,
        r@[0].origin@ == aws_origin() && r@[0].pad_width == 3 && r@[0].suffix@ == episode_suffix(),
        r@[1].origin@ == pentadact_origin() && r@[1].pad_width == 3 && r@[1].suffix@ == episode_suffix(),
        r@[2].origin@ == pentadact_origin() && r@[2].pad_width == 0 && r@[2].suffix@ == episode_suffix(),
{
    let mut r: Vec<NamingRule> = Vec::new();
    r.push(aws_rule());
    r.push(pentadact_padded_rule());
    r.push(pentadact_unpadded_rule());
    r
}

/// Given an episode number, returns the URL for downloading that episode from the AWS server.
pub fn format_aws_url(ep_no: usize) -> (r: String)
    ensures
        r@ == aws_origin() + padded(ep_no as nat, 3) + episode_suffix(),
{
    aws_rule().candidate(ep_no)
}

/// Given an episode number, returns the zero-padded URL for that episode on the secondary host.
pub fn format_pentadact_url_with_zero(ep_no: usize) -> (r: String)
    ensures
        r@ == pentadact_origin() + padded(ep_no as nat, 3) + episode_suffix(),
{
    pentadact_padded_rule().candidate(ep_no)
}

/// Given an episode number, returns the unpadded URL for that episode on the secondary host.
pub fn format_pentadact_url_no_zero(ep_no: usize) -> (r: String)
    ensures
        r@ == pentadact_origin() + decimal(ep_no as nat) + episode_suffix(),
{
    proof { crate::decimal::lemma_decimal_no_leading_zero(ep_no as nat); }
    pentadact_unpadded_rule().candidate(ep_no)
}

/// The name of the file that `item` is saved under.
pub fn destination_name(item: usize) -> (r: String)
    ensures
        r@ == destination_of(item as nat),
{
    let mut s = String::from_str("CC");
    push_decimal(&mut s, item as u64);
    s.append(".mp3");
    s
}

} // verus!
