//! Multi-dimensional trust: the trust dimensions, policy evaluation over the
//! conditions that a user meets, and explicit designations with the authority
//! that they grant.
//!
//! A single scalar trust score can be attacked: a good voice deepfake should
//! not pass a check that also needs typing behaviour and a known device.
//! Policies therefore combine independent conditions, one per dimension.

use vstd::prelude::*;

use crate::text::same_text;

verus! {

/// Trust dimension
#[derive(Debug, Clone, Copy, PartialEq, Eq, Structural)]
pub enum TrustDimension {
    Voice,
    Typing,
    Face,
    Location,
    Device,
    Relationship,
    Authority,
}

/// Policy mode
#[derive(Debug, Clone, Copy, PartialEq, Eq, Structural)]
pub enum PolicyMode {
    /// All conditions must be met (AND)
    All,
    /// At least one condition must be met (OR)
    Any,
    /// At least N conditions must be met
    AtLeastN(usize),
}

/// How many of the conditions are met.
pub open spec fn count_met(met: Seq<bool>) -> nat
    decreases met.len(),
{
    if met.len() == 0 {
        0
    } else {
        count_met(met.drop_last()) + if met.last() {
            1nat
        } else {
            0nat
        }
    }
}

/// Whether a policy in the given mode passes, given for each of its
/// conditions whether the user meets it.
pub open spec fn mode_satisfied(mode: PolicyMode, met: Seq<bool>) -> bool {
    match mode {
        PolicyMode::All => forall|i: int| 0 <= i < met.len() ==> #[trigger] met[i],
        PolicyMode::Any => exists|i: int| 0 <= i < met.len() && #[trigger] met[i],
        PolicyMode::AtLeastN(n) => count_met(met) >= n,
    }
}

impl PolicyMode {
    /// Decide a policy in this mode, given for each of its conditions (in
    /// order) whether the user meets it.
    pub fn is_satisfied(&self, met: &Vec<bool>) -> (r: bool)
        ensures
            r == mode_satisfied(*self, met@),
    {
        match self {
            PolicyMode::All => all_true(met),
            PolicyMode::Any => any_true(met),
            PolicyMode::AtLeastN(n) => {
                let count: usize = count_true(met);
                count >= *n
            },
        }
    }
}

/// Whether every entry is `true`.
fn all_true(met: &Vec<bool>) -> (r: bool)
    ensures
        r == forall|i: int| 0 <= i < met@.len() ==> #[trigger] met@[i],
{
    for i in 0..met.len()
        invariant
            forall|q: int| 0 <= q < i ==> #[trigger] met@[q],
    {
        if !met[i] {
            assert(!met@[i as int]);
            return false;
        }
    }
    true
}

/// Whether some entry is `true`.
fn any_true(met: &Vec<bool>) -> (r: bool)
    ensures
        r == exists|i: int| 0 <= i < met@.len() && #[trigger] met@[i],
{
    for i in 0..met.len()
        invariant
            forall|q: int| 0 <= q < i ==> !#[trigger] met@[q],
    {
        if met[i] {
            assert(met@[i as int]);
            return true;
        }
    }
    false
}

/// The number of `true` entries.
fn count_true(met: &Vec<bool>) -> (count: usize)
    ensures
        count == count_met(met@),
{
    let mut count: usize = 0;
    for i in 0..met.len()
        invariant
            count == count_met(met@.take(i as int)),
            count <= i,
    {
        assert(met@.take(i + 1).drop_last() =~= met@.take(i as int));
        if met[i] {
            count = count + 1;
        }
    }
    assert(met@.take(met@.len() as int) =~= met@);
    count
}

proof fn lemma_count_bounds(met: Seq<bool>)
    ensures
        count_met(met) <= met.len(),
        count_met(met) == met.len() <==> forall|i: int| 0 <= i < met.len() ==> #[trigger] met[i],
        count_met(met) >= 1 <==> exists|i: int| 0 <= i < met.len() && #[trigger] met[i],
    decreases met.len(),
{
    if met.len() > 0 {
        let rest = met.drop_last();
        lemma_count_bounds(rest);
        if forall|i: int| 0 <= i < met.len() ==> #[trigger] met[i] {
            assert forall|i: int| 0 <= i < rest.len() implies #[trigger] rest[i] by {
                assert(rest[i] == met[i]);
            }
            assert(met[met.len() - 1]);
        }
        if count_met(met) == met.len() {
            assert forall|i: int| 0 <= i < met.len() implies #[trigger] met[i] by {
                if i < met.len() - 1 {
                    assert(rest[i] == met[i]);
                }
            }
        }
        if exists|i: int| 0 <= i < met.len() && #[trigger] met[i] {
            let w = choose|i: int| 0 <= i < met.len() && #[trigger] met[i];
            if w < met.len() - 1 {
                assert(rest[w] == met[w]);
            }
        }
        if exists|i: int| 0 <= i < rest.len() && #[trigger] rest[i] {
            let w = choose|i: int| 0 <= i < rest.len() && #[trigger] rest[i];
            assert(met[w] == rest[w]);
        }
        if met.last() {
            assert(met[met.len() - 1]);
        }
    }
}

proof fn lemma_count_monotone(weaker: Seq<bool>, stronger: Seq<bool>)
    requires
        weaker.len() == stronger.len(),
        forall|i: int| 0 <= i < weaker.len() && #[trigger] weaker[i] ==> stronger[i],
    ensures
        count_met(weaker) <= count_met(stronger),
    decreases weaker.len(),
{
    if weaker.len() > 0 {
        let a = weaker.drop_last();
        let b = stronger.drop_last();
        assert forall|i: int| 0 <= i < a.len() && #[trigger] a[i] implies b[i] by {
            assert(a[i] == weaker[i] && b[i] == stronger[i]);
        }
        lemma_count_monotone(a, b);
        assert(weaker.last() ==> stronger.last()) by {
            assert(weaker.last() == weaker[weaker.len() - 1]);
        }
    }
}

/// `All` passes exactly when every condition is met, which is `AtLeastN`
/// with N the number of conditions.
pub proof fn lemma_all_is_at_least_every(met: Seq<bool>)
    ensures
        mode_satisfied(PolicyMode::All, met) <==> count_met(met) == met.len(),
        met.len() <= usize::MAX ==> (mode_satisfied(PolicyMode::All, met) <==> mode_satisfied(
            PolicyMode::AtLeastN(met.len() as usize),
            met,
        )),
{
    lemma_count_bounds(met);
}

/// `Any` passes exactly when `AtLeastN(1)` does: some condition is met.
pub proof fn lemma_any_is_at_least_one(met: Seq<bool>)
    ensures
        mode_satisfied(PolicyMode::Any, met) <==> mode_satisfied(PolicyMode::AtLeastN(1), met),
{
    lemma_count_bounds(met);
}

/// Meeting more conditions never makes a policy fail: if every condition
/// met in `weaker` is also met in `stronger`, a policy that passes on
/// `weaker` passes on `stronger`, whatever its mode.
pub proof fn lemma_policy_monotone(mode: PolicyMode, weaker: Seq<bool>, stronger: Seq<bool>)
    requires
        weaker.len() == stronger.len(),
        forall|i: int| 0 <= i < weaker.len() && #[trigger] weaker[i] ==> stronger[i],
    ensures
        mode_satisfied(mode, weaker) ==> mode_satisfied(mode, stronger),
{
    lemma_count_monotone(weaker, stronger);
    if mode_satisfied(PolicyMode::Any, weaker) {
        let w = choose|i: int| 0 <= i < weaker.len() && #[trigger] weaker[i];
        assert(stronger[w]);
    }
    if mode_satisfied(PolicyMode::All, weaker) {
        assert forall|i: int| 0 <= i < stronger.len() implies #[trigger] stronger[i] by {
            assert(weaker[i]);
        }
    }
}

/// Raising the required number of conditions never lets more users pass.
pub proof fn lemma_at_least_antitone(met: Seq<bool>, lower: usize, higher: usize)
    requires
        lower <= higher,
    ensures
        mode_satisfied(PolicyMode::AtLeastN(higher), met) ==> mode_satisfied(PolicyMode::AtLeastN(lower), met),
{
}

// ---------------------------------------------------------------------------
// Explicit designations
// ---------------------------------------------------------------------------

/// Authority that explicit designations grant. Authority is gated by
/// designation, not by the number of interactions, so it cannot be
/// speed-run.
#[derive(Debug, Clone, Copy, PartialEq, Eq, Structural)]
pub enum AuthorityGrant {
    /// `inner_circle`: authority 1.0
    Full,
    /// `hr` or `successor`: authority 0.8
    High,
    /// `trusted_contact`: authority 0.5
    Partial,
    /// no designation that grants authority: authority 0.0
    NoAuthority,
}

/// The authority that adding a designation grants; custom designations
/// grant none of their own.
pub open spec fn grant_of(designation: Seq<char>) -> Option<AuthorityGrant> {
    if designation == "inner_circle"@ {
        Some(AuthorityGrant::Full)
    } else if designation == "hr"@ || designation == "successor"@ {
        Some(AuthorityGrant::High)
    } else if designation == "trusted_contact"@ {
        Some(AuthorityGrant::Partial)
    } else {
        None
    }
}

/// The authority that a set of designations amounts to: the strongest
/// designation held decides.
pub open spec fn standing_of(names: Seq<Seq<char>>) -> AuthorityGrant {
    if names.contains("inner_circle"@) {
        AuthorityGrant::Full
    } else if names.contains("hr"@) || names.contains("successor"@) {
        AuthorityGrant::High
    } else if names.contains("trusted_contact"@) {
        AuthorityGrant::Partial
    } else {
        AuthorityGrant::NoAuthority
    }
}

/// Keeps every designation but the given one.
pub open spec fn other_than(designation: Seq<char>) -> spec_fn(Seq<char>) -> bool {
    |name: Seq<char>| name != designation
}

/// The authority that adding `designation` grants, if any.
pub fn designation_grant(designation: &str) -> (g: Option<AuthorityGrant>)
    ensures
        g == grant_of(designation@),
{
    if same_text(designation, "inner_circle") {
        Some(AuthorityGrant::Full)
    } else if same_text(designation, "hr") || same_text(designation, "successor") {
        Some(AuthorityGrant::High)
    } else if same_text(designation, "trusted_contact") {
        Some(AuthorityGrant::Partial)
    } else {
        None
    }
}

/// Check if a user has an explicit designation
pub fn has_designation(designations: &Vec<String>, designation: &str) -> (r: bool)
    ensures
        r == designations.deep_view().contains(designation@),
{
    let n: usize = designations.len();
    for k in 0..n
        invariant
            n == designations@.len(),
            forall|q: int| 0 <= q < k ==> #[trigger] designations.deep_view()[q] != designation@,
    {
        if same_text(designations[k].as_str(), designation) {
            assert(designations.deep_view()[k as int] == designation@);
            return true;
        }
    }
    false
}

/// The authority that the designations held amount to.
pub fn standing_authority(designations: &Vec<String>) -> (g: AuthorityGrant)
    ensures
        g == standing_of(designations.deep_view()),
{
    if has_designation(designations, "inner_circle") {
        AuthorityGrant::Full
    } else if has_designation(designations, "hr") || has_designation(designations, "successor") {
        AuthorityGrant::High
    } else if has_designation(designations, "trusted_contact") {
        AuthorityGrant::Partial
    } else {
        AuthorityGrant::NoAuthority
    }
}

/// Every designation that a policy requires is held.
pub open spec fn holds_all(required: Seq<Seq<char>>, held: Seq<Seq<char>>) -> bool {
    forall|i: int| 0 <= i < required.len() ==> held.contains(#[trigger] required[i])
}

/// Whether a user passes a policy: the conditions that the user meets
/// (given in order) satisfy the policy's mode, and the user holds every
/// designation that the policy requires.
pub fn policy_admits(mode: PolicyMode, met: &Vec<bool>, required: &Vec<String>, held: &Vec<String>) -> (r: bool)
    ensures
        r == (mode_satisfied(mode, met@) && holds_all(required.deep_view(), held.deep_view())),
{
    if !mode.is_satisfied(met) {
        return false;
    }
    let n: usize = required.len();
    for i in 0..n
        invariant
            n == required@.len(),
            forall|q: int| 0 <= q < i ==> held.deep_view().contains(#[trigger] required.deep_view()[q]),
    {
        if !has_designation(held, required[i].as_str()) {
            assert(!held.deep_view().contains(required.deep_view()[i as int]));
            return false;
        }
    }
    true
}

/// Add an explicit designation unless it is already held. Returns whether
/// it was added.
pub fn add_designation(designations: &mut Vec<String>, designation: String) -> (added: bool)
    ensures
        added == !old(designations).deep_view().contains(designation@),
        added ==> final(designations).deep_view() == old(designations).deep_view().push(designation@),
        !added ==> final(designations)@ == old(designations)@,
{
    if has_designation(designations, designation.as_str()) {
        false
    } else {
        let ghost before = designations.deep_view();
        designations.push(designation);
        assert(designations.deep_view() =~= before.push(designation@));
        true
    }
}

/// Remove every copy of a designation, keeping the others in order.
pub fn remove_designation(designations: &mut Vec<String>, designation: &str)
    ensures
        final(designations).deep_view() == old(designations).deep_view().filter(other_than(designation@)),
{
    let ghost names = designations.deep_view();
    let ghost keep = other_than(designation@);
    let mut kept: Vec<String> = Vec::new();
    let n: usize = designations.len();
    for i in 0..n
        invariant
            n == designations@.len(),
            names == designations.deep_view(),
            keep == other_than(designation@),
            kept.deep_view() == names.take(i as int).filter(keep),
    {
        let ghost before = kept.deep_view();
        reveal(Seq::filter);
        assert(names.take(i + 1).drop_last() =~= names.take(i as int));
        assert(names.take(i + 1).last() == designations@[i as int]@);
        if !same_text(designations[i].as_str(), designation) {
            kept.push(designations[i].clone());
            assert(kept.deep_view() =~= before.push(designations@[i as int]@));
        }
    }
    assert(names.take(n as int) =~= names);
    *designations = kept;
}

/// After a designation is removed it is no longer held, and every other
/// designation is held exactly as before.
pub proof fn lemma_remove_designation_effect(names: Seq<Seq<char>>, removed: Seq<char>, other: Seq<char>)
    requires
        other != removed,
    ensures
        !names.filter(other_than(removed)).contains(removed),
        names.filter(other_than(removed)).contains(other) == names.contains(other),
{
    if names.filter(other_than(removed)).contains(removed) {
        let w = choose|w: int| 0 <= w < names.filter(other_than(removed)).len() && names.filter(other_than(removed))[w] == removed;
        names.lemma_filter_pred(other_than(removed), w);
    }
    if names.contains(other) {
        let w = choose|w: int| 0 <= w < names.len() && names[w] == other;
        names.lemma_filter_contains(other_than(removed), w);
    }
    if names.filter(other_than(removed)).contains(other) {
        names.lemma_filter_contains_rev(other_than(removed), other);
    }
}

/// Adding a designation and then removing it leaves the other designations
/// as they were.
pub proof fn lemma_add_then_remove_designation(names: Seq<Seq<char>>, designation: Seq<char>)
    ensures
        names.push(designation).filter(other_than(designation)) == names.filter(other_than(designation)),
{
    reveal(Seq::filter);
    assert(names.push(designation).drop_last() =~= names);
}

/// Holding `inner_circle` amounts to full authority, and once it is
/// removed that authority is gone.
pub proof fn lemma_inner_circle_authority(names: Seq<Seq<char>>)
    ensures
        standing_of(names.push("inner_circle"@)) == AuthorityGrant::Full,
        standing_of(names.filter(other_than("inner_circle"@))) != AuthorityGrant::Full,
{
    assert(names.push("inner_circle"@)[names.len() as int] == "inner_circle"@);
    if names.filter(other_than("inner_circle"@)).contains("inner_circle"@) {
        let f = names.filter(other_than("inner_circle"@));
        let w = choose|w: int| 0 <= w < f.len() && f[w] == "inner_circle"@;
        names.lemma_filter_pred(other_than("inner_circle"@), w);
    }
}

// ---------------------------------------------------------------------------
// Stored form of the designations
// ---------------------------------------------------------------------------

#[verifier::external_type_specification]
#[verifier::external_body]
pub struct ExJsonError(serde_json::Error);

/// The outcome of `serde_json::to_string` on a list of strings: its JSON
/// text, or `None` where serialisation fails.
pub uninterp spec fn json_text_of_strings(items: Seq<Seq<char>>) -> Option<Seq<char>>;

/// The outcome of `serde_json::from_str::<Vec<String>>` on a text: the
/// strings it reads, or `None` where the text is not a JSON list of strings.
pub uninterp spec fn json_strings_of_text(text: Seq<char>) -> Option<Seq<Seq<char>>>;

/// Calls `serde_json::to_string` on a list of strings. Claimed: the result
/// depends on the strings alone (it is `json_text_of_strings` of them); it
/// never fails, since strings serialise into an in-memory buffer that
/// cannot refuse a write; and `serde_json::from_str` reads the text back as
/// the same strings (strings are written escaped and read unescaped).
/// Nothing is claimed of what the text looks like.
#[verifier::external_body]
fn json_to_string(items: &Vec<String>) -> (r: Result<String, serde_json::Error>)
    ensures
        r is Ok,
        match r {
            Ok(text) => {
                &&& json_text_of_strings(items.deep_view()) == Some(text@)
                &&& json_strings_of_text(text@) == Some(items.deep_view())
            },
            Err(_) => json_text_of_strings(items.deep_view()) is None,
        },
{
    serde_json::to_string(items)
}

/// Calls `serde_json::from_str` to read a list of strings. Claimed: the
/// result depends on the text alone (it is `json_strings_of_text` of it);
/// nothing is claimed of which texts it accepts.
#[verifier::external_body]
fn json_from_str(text: &str) -> (r: Result<Vec<String>, serde_json::Error>)
    ensures
        match r {
            Ok(items) => json_strings_of_text(text@) == Some(items.deep_view()),
            Err(_) => json_strings_of_text(text@) is None,
        },
{
    serde_json::from_str(text)
}

/// The stored text for an outcome of serialising the designations: the
/// JSON text, or `[]` where serialisation failed.
pub fn stored_designations_text(encoded: Option<String>) -> (text: String)
    ensures
        match encoded {
            Some(json) => text@ == json@,
            None => text@ == "[]"@,
        },
{
    match encoded {
        Some(json) => json,
        None => String::from_str("[]"),
    }
}

/// The designations for an outcome of reading stored text: the strings
/// read, or none where the text was not a JSON list of strings.
pub fn designations_read(decoded: Option<Vec<String>>) -> (designations: Vec<String>)
    ensures
        match decoded {
            Some(items) => designations@ == items@,
            None => designations@.len() == 0,
        },
{
    match decoded {
        Some(items) => items,
        None => Vec::new(),
    }
}

/// The stored text of a list of designations: its JSON text, which reads
/// back as the same designations.
pub fn encode_designations(designations: &Vec<String>) -> (text: String)
    ensures
        json_text_of_strings(designations.deep_view()) == Some(text@),
        json_strings_of_text(text@) == Some(designations.deep_view()),
{
    stored_designations_text(json_to_string(designations).ok())
}

/// The designations that stored text holds; text that is not a JSON list
/// of strings holds none.
pub fn decode_designations(text: &str) -> (designations: Vec<String>)
    ensures
        match json_strings_of_text(text@) {
            Some(items) => designations.deep_view() == items,
            None => designations@.len() == 0,
        },
{
    designations_read(json_from_str(text).ok())
}

// ---------------------------------------------------------------------------
// Interaction frequency
// ---------------------------------------------------------------------------

/// More than ten interactions per day on average since the user was first
/// seen, counting at least one day.
pub open spec fn high_interaction_rate(total_interactions: int, days_since_first: int) -> bool {
    let days: int = if days_since_first < 1 {
        1
    } else {
        days_since_first
    };
    total_interactions > 10 * days
}

/// Whether the interactions come too fast (more than ten a day): such
/// traffic looks like spam, and relationship trust then grows at half the
/// rate.
pub fn exceeds_daily_interaction_limit(total_interactions: u32, days_since_first: i64) -> (r: bool)
    ensures
        r == high_interaction_rate(total_interactions as int, days_since_first as int),
{
    let days: i64 = if days_since_first < 1 {
        1
    } else {
        days_since_first
    };
    (total_interactions as i128) > 10 * (days as i128)
}

/// Keeps the conditions that are met.
pub open spec fn met_only() -> spec_fn(bool) -> bool {
    |b: bool| b
}

proof fn lemma_count_is_filter(met: Seq<bool>)
    ensures
        count_met(met) == met.filter(met_only()).len(),
    decreases met.len(),
{
    reveal(Seq::filter);
    if met.len() > 0 {
        lemma_count_is_filter(met.drop_last());
    }
}

/// Each mode judged by the met conditions themselves: `AtLeastN(n)` passes
/// exactly when at least `n` entries are `true`, whatever the number of
/// conditions; `All` when every entry is; `Any` when at least one is.
pub proof fn lemma_modes_count_met_conditions(n: usize, met: Seq<bool>)
    ensures
        mode_satisfied(PolicyMode::AtLeastN(n), met) <==> met.filter(met_only()).len() >= n,
        mode_satisfied(PolicyMode::All, met) <==> met.filter(met_only()).len() == met.len(),
        mode_satisfied(PolicyMode::Any, met) <==> met.filter(met_only()).len() >= 1,
{
    lemma_count_is_filter(met);
    lemma_count_bounds(met);
}

/// How strong an authority grant is.
pub open spec fn authority_rank(grant: AuthorityGrant) -> int {
    match grant {
        AuthorityGrant::Full => 3,
        AuthorityGrant::High => 2,
        AuthorityGrant::Partial => 1,
        AuthorityGrant::NoAuthority => 0,
    }
}

/// What each designation grants: `inner_circle` full authority, `hr` and
/// `successor` high, `trusted_contact` partial; any other designation
/// grants none of its own.
pub proof fn lemma_designation_grant_table(other: Seq<char>)
    ensures
        grant_of("inner_circle"@) == Some(AuthorityGrant::Full),
        grant_of("hr"@) == Some(AuthorityGrant::High),
        grant_of("successor"@) == Some(AuthorityGrant::High),
        grant_of("trusted_contact"@) == Some(AuthorityGrant::Partial),
        other != "inner_circle"@ && other != "hr"@ && other != "successor"@ && other != "trusted_contact"@
            ==> grant_of(other) is None,
{
    reveal_strlit("inner_circle");
    reveal_strlit("hr");
    reveal_strlit("successor");
    reveal_strlit("trusted_contact");
    assert("hr"@ != "inner_circle"@) by { assert("hr"@.len() != "inner_circle"@.len()); }
    assert("successor"@ != "inner_circle"@) by { assert("successor"@.len() != "inner_circle"@.len()); }
    assert("trusted_contact"@ != "inner_circle"@) by { assert("trusted_contact"@.len() != "inner_circle"@.len()); }
    assert("trusted_contact"@ != "hr"@) by { assert("trusted_contact"@.len() != "hr"@.len()); }
    assert("trusted_contact"@ != "successor"@) by { assert("trusted_contact"@.len() != "successor"@.len()); }
}

/// The standing authority is the strongest grant among the designations
/// held: it is at least what each held designation grants, and it is what
/// some held designation grants unless none grants anything. So holding
/// `hr` without `inner_circle` amounts to high authority.
pub proof fn lemma_standing_is_strongest_grant(names: Seq<Seq<char>>)
    ensures
        forall|i: int|
            0 <= i < names.len() && #[trigger] grant_of(names[i]) is Some ==> authority_rank(standing_of(names))
                >= authority_rank(grant_of(names[i])->0),
        standing_of(names) != AuthorityGrant::NoAuthority ==> exists|i: int|
            0 <= i < names.len() && #[trigger] grant_of(names[i]) == Some(standing_of(names)),
        names.contains("hr"@) && !names.contains("inner_circle"@) ==> standing_of(names) == AuthorityGrant::High,
{
    lemma_designation_grant_table(""@);
    assert forall|i: int|
        0 <= i < names.len() && #[trigger] grant_of(names[i]) is Some implies authority_rank(standing_of(names))
            >= authority_rank(grant_of(names[i])->0) by {
        assert(names.contains(names[i]));
    }
    if standing_of(names) != AuthorityGrant::NoAuthority {
        if names.contains("inner_circle"@) {
            let w = choose|w: int| 0 <= w < names.len() && names[w] == "inner_circle"@;
            assert(grant_of(names[w]) == Some(standing_of(names)));
        } else if names.contains("hr"@) {
            let w = choose|w: int| 0 <= w < names.len() && names[w] == "hr"@;
            assert(grant_of(names[w]) == Some(standing_of(names)));
        } else if names.contains("successor"@) {
            let w = choose|w: int| 0 <= w < names.len() && names[w] == "successor"@;
            assert(grant_of(names[w]) == Some(standing_of(names)));
        } else {
            let w = choose|w: int| 0 <= w < names.len() && names[w] == "trusted_contact"@;
            assert(grant_of(names[w]) == Some(standing_of(names)));
        }
    }
}

/// The interaction-rate rule is "more than ten a day": at `10 * d`
/// interactions over `d` days the rate is not too high, one more makes it
/// too high; a day counts at least once; more interactions over the same
/// days never lower the rate, and more days for the same interactions
/// never raise it.
pub proof fn lemma_interaction_rate_threshold(total: int, days: int, more_total: int, more_days: int)
    ensures
        days >= 1 ==> !high_interaction_rate(10 * days, days) && high_interaction_rate(10 * days + 1, days),
        days < 1 ==> (high_interaction_rate(total, days) <==> high_interaction_rate(total, 1)),
        total <= more_total && high_interaction_rate(total, days) ==> high_interaction_rate(more_total, days),
        days <= more_days && high_interaction_rate(total, more_days) ==> high_interaction_rate(total, days),
{
}

/// A policy that requires no designation is decided by its conditions
/// alone; one that requires a designation the user lacks is never passed.
pub proof fn lemma_required_designations(required: Seq<Seq<char>>, held: Seq<Seq<char>>, missing: Seq<char>)
    ensures
        holds_all(Seq::<Seq<char>>::empty(), held),
        required.contains(missing) && !held.contains(missing) ==> !holds_all(required, held),
        held.contains(missing) && holds_all(required, held) ==> holds_all(required.push(missing), held),
{
    if required.contains(missing) && !held.contains(missing) {
        let w = choose|w: int| 0 <= w < required.len() && required[w] == missing;
        assert(!held.contains(required[w]));
    }
    if held.contains(missing) && holds_all(required, held) {
        assert forall|i: int| 0 <= i < required.push(missing).len() implies held.contains(
            #[trigger] required.push(missing)[i],
        ) by {
            if i < required.len() {
                assert(required.push(missing)[i] == required[i]);
            }
        }
    }
}

} // verus!
