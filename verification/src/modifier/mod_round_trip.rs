//! Dehydrating a configuration and hydrating it again gives the configuration back.
use vstd::prelude::*;

use crate::modifier::mod_definition::{
    empty_selections, first_choice_index, lemma_first_choice_index, has_choice, hydrate_choice, hydrate_choices, hydrate_modifiers, hydrate_prompt, hydrate_prompts,
    nested_selections, prompt_ids, to_candidate, EnvView, ModifiersView, PromptView,
};
use crate::modifier::mod_selection::{
    CandidateView,
    count_id, lemma_count_id_monotone, lemma_count_id_step, prompt_selection_at, selection_prompt_ids,
    ChoiceSelectionView, PromptSelectionView, SelectionsView,
};
use crate::modifier::mod_state::{
    ValidatedView,
    configured_prompt_ids, dehydrate_choice, dehydrate_choices, dehydrate_configuration, dehydrate_prompts,
    ChoiceConfigurationView, ConfigurationView, PromptConfigurationView,
};
use crate::primitives::ids::PrefixedIdView;

verus! {

/// No selection at any depth carries input values.
pub open spec fn without_inputs(s: SelectionsView) -> bool
    decreases s, 2nat, 0nat,
{
    prompt_selections_without_inputs(s.prompts, s.prompts.len())
}

pub open spec fn prompt_selections_without_inputs(ps: Seq<PromptSelectionView>, n: nat) -> bool
    decreases ps, 1nat, n,
{
    if n == 0 || n > ps.len() {
        true
    } else {
        prompt_selections_without_inputs(ps, (n - 1) as nat) && choice_selections_without_inputs(
            ps[n - 1].choices,
            ps[n - 1].choices.len(),
        )
    }
}

pub open spec fn choice_selections_without_inputs(cs: Seq<ChoiceSelectionView>, n: nat) -> bool
    decreases cs, 1nat, n,
{
    if n == 0 || n > cs.len() {
        true
    } else {
        choice_selections_without_inputs(cs, (n - 1) as nat) && choice_selection_without_inputs(cs[n - 1])
    }
}

pub open spec fn choice_selection_without_inputs(c: ChoiceSelectionView) -> bool
    decreases c, 0nat, 0nat,
{
    c.inputs.len() == 0 && match c.modifiers {
        Some(b) => without_inputs(*b),
        None => true,
    }
}

/// Among the prompts of one level that share an identifier, an empty one
/// is never followed by one with choices.
pub open spec fn no_empty_before_chosen(ps: Seq<PromptConfigurationView>) -> bool {
    forall|i: int, j: int|
        #![trigger ps[i], ps[j]]
        0 <= i < j < ps.len() && ps[i].prompt_id == ps[j].prompt_id && ps[i].choices.len() == 0
            ==> ps[j].choices.len() == 0
}

/// At every level, no empty prompt is followed by a chosen prompt with the
/// same identifier.
pub open spec fn gap_free(c: ConfigurationView) -> bool
    decreases c, 2nat, 0nat,
{
    no_empty_before_chosen(c.prompts) && prompts_gap_free(c.prompts, c.prompts.len())
}

pub open spec fn prompts_gap_free(ps: Seq<PromptConfigurationView>, n: nat) -> bool
    decreases ps, 1nat, n,
{
    if n == 0 || n > ps.len() {
        true
    } else {
        prompts_gap_free(ps, (n - 1) as nat) && choices_gap_free(ps[n - 1].choices, ps[n - 1].choices.len())
    }
}

pub open spec fn choices_gap_free(cs: Seq<ChoiceConfigurationView>, n: nat) -> bool
    decreases cs, 1nat, n,
{
    if n == 0 || n > cs.len() {
        true
    } else {
        choices_gap_free(cs, (n - 1) as nat) && choice_gap_free(cs[n - 1])
    }
}

pub open spec fn choice_gap_free(c: ChoiceConfigurationView) -> bool
    decreases c, 0nat, 0nat,
{
    match c.modifiers {
        Some(b) => gap_free(*b),
        None => true,
    }
}

proof fn lemma_prompt_selections_without_inputs(ps: Seq<PromptSelectionView>, n: nat, i: int)
    requires
        prompt_selections_without_inputs(ps, n),
        n <= ps.len(),
        0 <= i < n,
    ensures
        choice_selections_without_inputs(ps[i].choices, ps[i].choices.len()),
    decreases n,
{
    if i < n - 1 {
        lemma_prompt_selections_without_inputs(ps, (n - 1) as nat, i);
    }
}

proof fn lemma_choice_selections_without_inputs(cs: Seq<ChoiceSelectionView>, n: nat, k: int)
    requires
        choice_selections_without_inputs(cs, n),
        n <= cs.len(),
        0 <= k < n,
    ensures
        choice_selection_without_inputs(cs[k]),
    decreases n,
{
    if k < n - 1 {
        lemma_choice_selections_without_inputs(cs, (n - 1) as nat, k);
    }
}

proof fn lemma_prompts_gap_free(ps: Seq<PromptConfigurationView>, n: nat, i: int)
    requires
        prompts_gap_free(ps, n),
        n <= ps.len(),
        0 <= i < n,
    ensures
        choices_gap_free(ps[i].choices, ps[i].choices.len()),
    decreases n,
{
    if i < n - 1 {
        lemma_prompts_gap_free(ps, (n - 1) as nat, i);
    }
}

proof fn lemma_choices_gap_free(cs: Seq<ChoiceConfigurationView>, n: nat, k: int)
    requires
        choices_gap_free(cs, n),
        n <= cs.len(),
        0 <= k < n,
    ensures
        choice_gap_free(cs[k]),
    decreases n,
{
    if k < n - 1 {
        lemma_choices_gap_free(cs, (n - 1) as nat, k);
    }
}

/// The prompt selection a configured prompt dehydrates to.
pub open spec fn dehydrated_prompt(p: PromptConfigurationView) -> PromptSelectionView {
    PromptSelectionView { prompt_id: p.prompt_id, choices: dehydrate_choices(p.choices, p.choices.len()) }
}

/// How many of the first `n` prompts carry the identifier and have choices.
pub open spec fn chosen_count(ps: Seq<PromptConfigurationView>, id: PrefixedIdView, n: int) -> nat
    decreases n,
{
    if n <= 0 {
        0
    } else {
        chosen_count(ps, id, n - 1) + if ps[n - 1].prompt_id == id && ps[n - 1].choices.len() > 0 {
            1nat
        } else {
            0nat
        }
    }
}

proof fn lemma_dehydrate_choices_len(cs: Seq<ChoiceConfigurationView>, n: nat)
    requires
        n <= cs.len(),
    ensures
        dehydrate_choices(cs, n).len() == n,
    decreases n,
{
    if n > 0 {
        lemma_dehydrate_choices_len(cs, (n - 1) as nat);
    }
}

proof fn lemma_count_push(ids: Seq<PrefixedIdView>, y: PrefixedIdView, id: PrefixedIdView)
    ensures
        count_id(ids.push(y), id) == count_id(ids, id) + if y == id { 1nat } else { 0nat },
{
    assert(ids.push(y).drop_last() =~= ids);
}

/// Counts of an identifier strictly grow at each of its occurrences.
proof fn lemma_count_distinct(ids: Seq<PrefixedIdView>, id: PrefixedIdView, a: int, b: int)
    requires
        0 <= a < b <= ids.len(),
        ids[a] == id,
    ensures
        count_id(ids.take(a), id) < count_id(ids.take(b), id),
{
    lemma_count_id_step(ids, id, a);
    lemma_count_id_monotone(ids, id, a + 1, b);
}

proof fn lemma_chosen_count_all(ps: Seq<PromptConfigurationView>, id: PrefixedIdView, n: int)
    requires
        0 <= n <= ps.len(),
        forall|j: int| 0 <= j < n && (#[trigger] ps[j]).prompt_id == id ==> ps[j].choices.len() > 0,
    ensures
        chosen_count(ps, id, n) == count_id(configured_prompt_ids(ps).take(n), id),
    decreases n,
{
    if n > 0 {
        lemma_chosen_count_all(ps, id, n - 1);
        lemma_count_id_step(configured_prompt_ids(ps), id, n - 1);
    }
}

/// The dehydrated prompts of the first `j` configured prompts start the
/// dehydrated prompts of the first `n`.
proof fn lemma_dehydrate_prompts_prefix(ps: Seq<PromptConfigurationView>, j: nat, n: nat)
    requires
        j <= n <= ps.len(),
    ensures
        dehydrate_prompts(ps, j).len() <= dehydrate_prompts(ps, n).len(),
        dehydrate_prompts(ps, j) == dehydrate_prompts(ps, n).take(dehydrate_prompts(ps, j).len() as int),
    decreases n,
{
    if j == n {
        assert(dehydrate_prompts(ps, n) =~= dehydrate_prompts(ps, n).take(dehydrate_prompts(ps, n).len() as int));
    } else {
        lemma_dehydrate_prompts_prefix(ps, j, (n - 1) as nat);
        let prev = dehydrate_prompts(ps, (n - 1) as nat);
        let cur = dehydrate_prompts(ps, n);
        let d = dehydrate_prompts(ps, j);
        if cur != prev {
            assert(cur == prev.push(dehydrated_prompt(ps[n - 1])));
            assert(prev.push(dehydrated_prompt(ps[n - 1])).take(d.len() as int) =~= prev.take(d.len() as int));
        }
    }
}

/// Each identifier occurs in the dehydrated prompts once per configured
/// prompt with that identifier and with choices.
proof fn lemma_dehydrate_prompts_count(ps: Seq<PromptConfigurationView>, n: nat, id: PrefixedIdView)
    requires
        n <= ps.len(),
    ensures
        count_id(selection_prompt_ids(dehydrate_prompts(ps, n)), id) == chosen_count(ps, id, n as int),
    decreases n,
{
    if n > 0 {
        let m = (n - 1) as nat;
        lemma_dehydrate_prompts_count(ps, m, id);
        let prev = dehydrate_prompts(ps, m);
        let p = ps[m as int];
        lemma_dehydrate_choices_len(p.choices, p.choices.len());
        if p.choices.len() > 0 {
            assert(selection_prompt_ids(prev.push(dehydrated_prompt(p))) =~= selection_prompt_ids(prev).push(p.prompt_id));
            lemma_count_push(selection_prompt_ids(prev), p.prompt_id, id);
        }
    }
}

/// A configured prompt with choices dehydrates right after the prompts
/// before it.
proof fn lemma_dehydrate_prompts_at(ps: Seq<PromptConfigurationView>, j: nat)
    requires
        j < ps.len(),
        ps[j as int].choices.len() > 0,
    ensures
        dehydrate_prompts(ps, j + 1) == dehydrate_prompts(ps, j).push(dehydrated_prompt(ps[j as int])),
{
    lemma_dehydrate_choices_len(ps[j as int].choices, ps[j as int].choices.len());
}

/// Where the configured prompts have no empty prompt before a chosen one
/// of the same identifier, the `o`-th selection of an identifier among the
/// dehydrated prompts belongs to the `o`-th configured prompt with it, or
/// there is none when that prompt has no choices.
proof fn lemma_dehydrated_selection_at(ps: Seq<PromptConfigurationView>, j: int)
    requires
        0 <= j < ps.len(),
        no_empty_before_chosen(ps),
    ensures
        prompt_selection_at(
            dehydrate_prompts(ps, ps.len()),
            ps[j].prompt_id,
            count_id(configured_prompt_ids(ps).take(j), ps[j].prompt_id),
        ) == if ps[j].choices.len() > 0 {
            Some(dehydrated_prompt(ps[j]))
        } else {
            None::<PromptSelectionView>
        },
{
    let id = ps[j].prompt_id;
    let cids = configured_prompt_ids(ps);
    let o = count_id(cids.take(j), id);
    let d = dehydrate_prompts(ps, ps.len());
    let dids = selection_prompt_ids(d);
    assert forall|k: int| 0 <= k < j && (#[trigger] ps[k]).prompt_id == id implies ps[k].choices.len() > 0 || ps[j].choices.len() == 0 by {
        if ps[k].choices.len() == 0 {
            assert(ps[k] == ps[k] && ps[j] == ps[j]);
        }
    }
    if ps[j].choices.len() > 0 {
        lemma_chosen_count_all(ps, id, j);
        let dj = dehydrate_prompts(ps, j as nat);
        lemma_dehydrate_prompts_at(ps, j as nat);
        lemma_dehydrate_prompts_prefix(ps, (j + 1) as nat, ps.len());
        lemma_dehydrate_prompts_count(ps, j as nat, id);
        let i = dj.len() as int;
        assert(d.take(i + 1) == dj.push(dehydrated_prompt(ps[j])));
        assert(d.take(i + 1)[i] == d[i]);
        assert(d[i] == dehydrated_prompt(ps[j]));
        assert forall|k: int| 0 <= k < i implies #[trigger] d[k] == dj[k] by {
            assert(d.take(i + 1)[k] == d[k]);
        }
        assert(dids.take(i) =~= selection_prompt_ids(dj));
        assert(d[i].prompt_id == id && count_id(dids.take(i), id) == o);
        assert forall|i2: int| 0 <= i2 < d.len() && #[trigger] d[i2].prompt_id == id && count_id(dids.take(i2), id) == o implies i2 == i by {
            if i2 < i {
                lemma_count_distinct(dids, id, i2, i);
            } else if i2 > i {
                lemma_count_distinct(dids, id, i, i2);
            }
        }
    } else {
        assert forall|k: int| j < k < ps.len() && (#[trigger] ps[k]).prompt_id == id implies ps[k].choices.len() == 0 by {
            assert(ps[j] == ps[j] && ps[k] == ps[k]);
        }
        lemma_dehydrate_prompts_count(ps, ps.len(), id);
        lemma_chosen_count_bound(ps, id, j, ps.len() as int);
        if exists|i2: int| 0 <= i2 < d.len() && #[trigger] d[i2].prompt_id == id && count_id(dids.take(i2), id) == o {
            let i2 = choose|i2: int| 0 <= i2 < d.len() && #[trigger] d[i2].prompt_id == id && count_id(dids.take(i2), id) == o;
            lemma_count_id_step(dids, id, i2);
            lemma_count_id_monotone(dids, id, i2 + 1, d.len() as int);
            assert(dids.take(d.len() as int) =~= dids);
            assert(false);
        }
    }
}

/// Prompts from `j` on with the identifier have no choices, so the count of
/// chosen prompts stays at most the number before `j`.
proof fn lemma_chosen_count_bound(ps: Seq<PromptConfigurationView>, id: PrefixedIdView, j: int, n: int)
    requires
        0 <= j <= n <= ps.len(),
        forall|k: int| j <= k < ps.len() && (#[trigger] ps[k]).prompt_id == id ==> ps[k].choices.len() == 0,
    ensures
        chosen_count(ps, id, n) <= count_id(configured_prompt_ids(ps).take(j), id),
    decreases n,
{
    if n > j {
        lemma_chosen_count_bound(ps, id, j, n - 1);
    } else {
        lemma_chosen_count_le(ps, id, n);
    }
}

proof fn lemma_chosen_count_le(ps: Seq<PromptConfigurationView>, id: PrefixedIdView, n: int)
    requires
        0 <= n <= ps.len(),
    ensures
        chosen_count(ps, id, n) <= count_id(configured_prompt_ids(ps).take(n), id),
    decreases n,
{
    if n > 0 {
        lemma_chosen_count_le(ps, id, n - 1);
        lemma_count_id_step(configured_prompt_ids(ps), id, n - 1);
    }
}

/// Hydrated prompts grow one applicable prompt at a time: the prompts of a
/// shorter definition list start those of a longer one.
proof fn lemma_hydrate_prompts_prefix(m: ModifiersView, s: SelectionsView, env: EnvView, k: nat, n: nat)
    requires
        k <= n <= m.prompts.len(),
        hydrate_prompts(m, s, env, n) is Ok,
    ensures
        hydrate_prompts(m, s, env, k) is Ok,
        hydrate_prompts(m, s, env, k)->Ok_0.len() <= hydrate_prompts(m, s, env, n)->Ok_0.len(),
        hydrate_prompts(m, s, env, k)->Ok_0 == hydrate_prompts(m, s, env, n)->Ok_0.take(
            hydrate_prompts(m, s, env, k)->Ok_0.len() as int,
        ),
    decreases n,
{
    let q = hydrate_prompts(m, s, env, n)->Ok_0;
    if k == n {
        assert(q =~= q.take(q.len() as int));
    } else {
        let prev = hydrate_prompts(m, s, env, (n - 1) as nat);
        assert(prev is Ok);
        lemma_hydrate_prompts_prefix(m, s, env, k, (n - 1) as nat);
        let pq = prev->Ok_0;
        let kq = hydrate_prompts(m, s, env, k)->Ok_0;
        if q != pq {
            assert(q.len() == pq.len() + 1);
            assert(q.take(pq.len() as int) =~= pq);
            assert(q.take(kq.len() as int) =~= pq.take(kq.len() as int));
        }
    }
}

/// An identifier occurs among the hydrated prompts once per applicable
/// definition carrying it.
proof fn lemma_hydrate_prompts_count(m: ModifiersView, s: SelectionsView, env: EnvView, n: nat, id: PrefixedIdView)
    requires
        n <= m.prompts.len(),
        hydrate_prompts(m, s, env, n) is Ok,
    ensures
        count_id(configured_prompt_ids(hydrate_prompts(m, s, env, n)->Ok_0), id) == if env.applicability.inapplicable_prompts.contains(id) {
            0
        } else {
            count_id(prompt_ids(m.prompts).take(n as int), id)
        },
    decreases n,
{
    if n > 0 {
        let prev = hydrate_prompts(m, s, env, (n - 1) as nat);
        assert(prev is Ok);
        lemma_hydrate_prompts_count(m, s, env, (n - 1) as nat, id);
        lemma_count_id_step(prompt_ids(m.prompts), id, n - 1);
        let p = m.prompts[n - 1];
        let q = hydrate_prompts(m, s, env, n)->Ok_0;
        if !env.applicability.inapplicable_prompts.contains(p.prompt_id) {
            let pc = hydrate_prompt(p, prompt_selection_at(s.prompts, p.prompt_id, count_id(prompt_ids(m.prompts).take(n - 1), p.prompt_id)), env)->Ok_0;
            assert(q == prev->Ok_0.push(pc));
            assert(pc.prompt_id == p.prompt_id);
            assert(configured_prompt_ids(q) =~= configured_prompt_ids(prev->Ok_0).push(p.prompt_id));
            lemma_count_push(configured_prompt_ids(prev->Ok_0), p.prompt_id, id);
        }
    }
}

/// Default candidates carry no input values.
proof fn lemma_defaults_without_inputs(p: PromptView, env: EnvView, n: nat)
    requires
        p.defaults_upto(env, n) is Ok,
    ensures
        forall|k: int| 0 <= k < p.defaults_upto(env, n)->Ok_0.len() ==> (#[trigger] p.defaults_upto(env, n)->Ok_0[k]).inputs.len() == 0,
    decreases n,
{
    if n > 0 && n <= p.choices.len() {
        lemma_defaults_without_inputs(p, env, (n - 1) as nat);
    }
}

/// Validated candidates keep each candidate's choice, quantity and source.
proof fn lemma_validated_candidates(p: PromptView, cands: Seq<CandidateView>, env: EnvView)
    requires
        p.validate_candidates(cands, env) is Ok,
    ensures
        p.validate_candidates(cands, env)->Ok_0.len() == cands.len(),
        forall|k: int| 0 <= k < cands.len() ==> {
            let v = #[trigger] p.validate_candidates(cands, env)->Ok_0[k];
            &&& v.choice_id == cands[k].choice_id
            &&& v.quantity == cands[k].quantity
            &&& v.source == cands[k].source
        },
{
    let validated = p.validate_candidates(cands, env)->Ok_0;
    assert forall|k: int| 0 <= k < cands.len() implies {
        let v = #[trigger] validated[k];
        &&& v.choice_id == cands[k].choice_id
        &&& v.quantity == cands[k].quantity
        &&& v.source == cands[k].source
    } by {
        assert(p.candidate_error(cands, k, env) is None);
        reveal(PromptView::candidate_result);
        assert(p.candidate_result(cands, k, env) is Ok);
        lemma_first_choice_index(p.choices, cands[k].choice_id);
    }
}

/// Configured choices come one per validated selection, in order.
proof fn lemma_hydrate_choices_shape(
    p: PromptView,
    inputs: Seq<ChoiceSelectionView>,
    validated: Seq<ValidatedView>,
    env: EnvView,
    k: nat,
)
    requires
        k <= validated.len(),
        hydrate_choices(p, inputs, validated, env, k) is Ok,
    ensures
        hydrate_choices(p, inputs, validated, env, k)->Ok_0.len() == k,
        forall|i: nat| i < k ==> #[trigger] hydrate_choice(p, inputs, validated, env, i) == Ok::<
            ChoiceConfigurationView,
            crate::modifier::mod_error::ModifierErrorView,
        >(hydrate_choices(p, inputs, validated, env, k)->Ok_0[i as int]),
    decreases k,
{
    if k > 0 {
        lemma_hydrate_choices_shape(p, inputs, validated, env, (k - 1) as nat);
    }
}

proof fn lemma_dehydrate_choices_at(cs: Seq<ChoiceConfigurationView>, n: nat, k: int)
    requires
        n <= cs.len(),
        0 <= k < n,
    ensures
        dehydrate_choices(cs, n)[k] == dehydrate_choice(cs[k]),
    decreases n,
{
    lemma_dehydrate_choices_len(cs, (n - 1) as nat);
    if k < n - 1 {
        lemma_dehydrate_choices_at(cs, (n - 1) as nat, k);
    }
}

/// The dehydrated selections pass the prompt-selection check: no identifier
/// occurs more often than its applicable definitions.
proof fn lemma_dehydrated_check(m: ModifiersView, s: SelectionsView, env: EnvView)
    requires
        hydrate_modifiers(m, s, env) is Ok,
        no_empty_before_chosen(hydrate_modifiers(m, s, env)->Ok_0.prompts),
    ensures
        m.check_prompt_selections(dehydrate_configuration(hydrate_modifiers(m, s, env)->Ok_0), env.applicability) is Ok,
{
    let c = hydrate_modifiers(m, s, env)->Ok_0;
    let d = dehydrate_configuration(c);
    let dps = d.prompts;
    let dids = selection_prompt_ids(dps);
    let app = env.applicability;
    assert(hydrate_prompts(m, s, env, m.prompts.len())->Ok_0 == c.prompts);
    assert forall|k: int| 0 <= k < dps.len() implies !#[trigger] m.selection_overflows(d, app, k) by {
        let id = dps[k].prompt_id;
        assert(dids[k] == id);
        lemma_count_id_step(dids, id, k);
        lemma_count_id_monotone(dids, id, k + 1, dps.len() as int);
        assert(dids.take(dps.len() as int) =~= dids);
        lemma_dehydrate_prompts_count(c.prompts, c.prompts.len(), id);
        lemma_chosen_count_le(c.prompts, id, c.prompts.len() as int);
        assert(configured_prompt_ids(c.prompts).take(c.prompts.len() as int) =~= configured_prompt_ids(c.prompts));
        lemma_hydrate_prompts_count(m, s, env, m.prompts.len(), id);
        assert(prompt_ids(m.prompts).take(m.prompts.len() as int) =~= prompt_ids(m.prompts));
    }
}

/// Dehydrating a hydrated configuration and hydrating the result with the
/// same definitions and environment gives the configuration back, when no
/// selection carries input values (dehydration drops them) and no empty
/// prompt precedes a chosen prompt of the same identifier at any level
/// (dehydration drops empty prompts, so the chosen one would move up to the
/// empty one's occurrence).
pub proof fn lemma_dehydrate_round_trip(m: ModifiersView, s: SelectionsView, env: EnvView)
    requires
        hydrate_modifiers(m, s, env) is Ok,
        without_inputs(s),
        gap_free(hydrate_modifiers(m, s, env)->Ok_0),
    ensures
        hydrate_modifiers(m, dehydrate_configuration(hydrate_modifiers(m, s, env)->Ok_0), env) == hydrate_modifiers(m, s, env),
    decreases m, 2nat, 0nat,
{
    let c = hydrate_modifiers(m, s, env)->Ok_0;
    lemma_dehydrated_check(m, s, env);
    lemma_prompts_round_trip(m, s, env, m.prompts.len());
    assert(hydrate_prompts(m, s, env, m.prompts.len())->Ok_0 == c.prompts);
}

proof fn lemma_prompts_round_trip(m: ModifiersView, s: SelectionsView, env: EnvView, n: nat)
    requires
        n <= m.prompts.len(),
        hydrate_modifiers(m, s, env) is Ok,
        without_inputs(s),
        gap_free(hydrate_modifiers(m, s, env)->Ok_0),
    ensures
        hydrate_prompts(m, dehydrate_configuration(hydrate_modifiers(m, s, env)->Ok_0), env, n) == hydrate_prompts(m, s, env, n),
    decreases m, 1nat, n,
{
    if n > 0 && n <= m.prompts.len() {
        let c = hydrate_modifiers(m, s, env)->Ok_0;
        let d = dehydrate_configuration(c);
        lemma_prompts_round_trip(m, s, env, (n - 1) as nat);
        let len = m.prompts.len();
        assert(hydrate_prompts(m, s, env, len)->Ok_0 == c.prompts);
        lemma_hydrate_prompts_prefix(m, s, env, n, len);
        lemma_hydrate_prompts_prefix(m, s, env, (n - 1) as nat, len);
        let p = m.prompts[n - 1];
        let id = p.prompt_id;
        if !env.applicability.inapplicable_prompts.contains(id) {
            let o = count_id(prompt_ids(m.prompts).take(n - 1), id);
            let q_prev = hydrate_prompts(m, s, env, (n - 1) as nat)->Ok_0;
            let q = hydrate_prompts(m, s, env, n)->Ok_0;
            let old_sel = prompt_selection_at(s.prompts, id, o);
            let pc = hydrate_prompt(p, old_sel, env)->Ok_0;
            assert(q == q_prev.push(pc));
            let j = q_prev.len() as int;
            assert(c.prompts.take(q.len() as int) == q);
            assert(c.prompts.take(q.len() as int)[j] == c.prompts[j]);
            assert(c.prompts[j] == pc);
            assert(c.prompts.take(j) =~= q_prev) by {
                assert forall|i: int| 0 <= i < j implies #[trigger] c.prompts.take(j)[i] == q_prev[i] by {
                    assert(c.prompts.take(q.len() as int)[i] == c.prompts[i]);
                }
            }
            assert(configured_prompt_ids(c.prompts).take(j) =~= configured_prompt_ids(q_prev));
            lemma_hydrate_prompts_count(m, s, env, (n - 1) as nat, id);
            assert(pc.prompt_id == id);
            lemma_dehydrated_selection_at(c.prompts, j);
            if old_sel is Some {
                let i = choose|i: int| 0 <= i < s.prompts.len() && #[trigger] s.prompts[i].prompt_id == id
                    && count_id(selection_prompt_ids(s.prompts).take(i), id) == o;
                lemma_prompt_selections_without_inputs(s.prompts, s.prompts.len(), i);
            }
            lemma_prompts_gap_free(c.prompts, c.prompts.len(), j);
            assert(decreases_to!(m => m.prompts));
            assert(decreases_to!(m.prompts => m.prompts[n - 1]));
            lemma_prompt_round_trip(p, old_sel, env, pc);
        }
    }
}

proof fn lemma_prompt_round_trip(p: PromptView, sel: Option<PromptSelectionView>, env: EnvView, pc: PromptConfigurationView)
    requires
        hydrate_prompt(p, sel, env) == Ok::<PromptConfigurationView, crate::modifier::mod_error::ModifierErrorView>(pc),
        match sel {
            Some(x) => choice_selections_without_inputs(x.choices, x.choices.len()),
            None => true,
        },
        choices_gap_free(pc.choices, pc.choices.len()),
    ensures
        hydrate_prompt(p, if pc.choices.len() > 0 { Some(dehydrated_prompt(pc)) } else { None }, env)
            == Ok::<PromptConfigurationView, crate::modifier::mod_error::ModifierErrorView>(pc),
    decreases p, 2nat, 0nat,
{
    let inputs = match sel {
        Some(x) => x.choices,
        None => Seq::<ChoiceSelectionView>::empty(),
    };
    let validated = p.hydrate_selections(inputs, env)->Ok_0;
    let vlen = validated.len();
    let cs = hydrate_choices(p, inputs, validated, env, vlen)->Ok_0;
    assert(cs == pc.choices);
    lemma_hydrate_choices_shape(p, inputs, validated, env, vlen);
    let cands = if inputs.len() == 0 {
        p.default_candidates(env)->Ok_0
    } else {
        inputs.map_values(|x: ChoiceSelectionView| to_candidate(x))
    };
    assert(validated == p.validate_candidates(cands, env)->Ok_0);
    lemma_validated_candidates(p, cands, env);
    if vlen > 0 {
        let new_inputs = dehydrate_choices(pc.choices, pc.choices.len());
        lemma_dehydrate_choices_len(pc.choices, pc.choices.len());
        if inputs.len() == 0 {
            lemma_defaults_without_inputs(p, env, p.choices.len());
        }
        let new_cands = new_inputs.map_values(|x: ChoiceSelectionView| to_candidate(x));
        assert(new_cands =~= cands) by {
            assert forall|k: int| 0 <= k < cands.len() implies #[trigger] new_cands[k] == cands[k] by {
                lemma_dehydrate_choices_at(pc.choices, pc.choices.len(), k);
                assert(hydrate_choice(p, inputs, validated, env, k as nat) == Ok::<
                    ChoiceConfigurationView,
                    crate::modifier::mod_error::ModifierErrorView,
                >(pc.choices[k]));
                if inputs.len() > 0 {
                    lemma_choice_selections_without_inputs(inputs, inputs.len(), k);
                }
                assert(cands[k].inputs =~= Seq::empty());
            }
        }
        lemma_choices_round_trip(p, inputs, new_inputs, validated, env, vlen);
    } else {
        if inputs.len() > 0 {
            assert(cands.len() == inputs.len());
        }
    }
}

proof fn lemma_choices_round_trip(
    p: PromptView,
    inputs: Seq<ChoiceSelectionView>,
    new_inputs: Seq<ChoiceSelectionView>,
    validated: Seq<ValidatedView>,
    env: EnvView,
    k: nat,
)
    requires
        k <= validated.len(),
        hydrate_choices(p, inputs, validated, env, validated.len()) is Ok,
        new_inputs == dehydrate_choices(
            hydrate_choices(p, inputs, validated, env, validated.len())->Ok_0,
            validated.len(),
        ),
        choice_selections_without_inputs(inputs, inputs.len()),
        choices_gap_free(hydrate_choices(p, inputs, validated, env, validated.len())->Ok_0, validated.len()),
    ensures
        hydrate_choices(p, new_inputs, validated, env, k) == hydrate_choices(p, inputs, validated, env, k),
    decreases p, 1nat, k,
{
    if k > 0 {
        lemma_choices_round_trip(p, inputs, new_inputs, validated, env, (k - 1) as nat);
        lemma_choice_round_trip(p, inputs, new_inputs, validated, env, (k - 1) as nat);
    }
}

#[verifier::spinoff_prover]
proof fn lemma_choice_round_trip(
    p: PromptView,
    inputs: Seq<ChoiceSelectionView>,
    new_inputs: Seq<ChoiceSelectionView>,
    validated: Seq<ValidatedView>,
    env: EnvView,
    k: nat,
)
    requires
        k < validated.len(),
        hydrate_choices(p, inputs, validated, env, validated.len()) is Ok,
        new_inputs == dehydrate_choices(
            hydrate_choices(p, inputs, validated, env, validated.len())->Ok_0,
            validated.len(),
        ),
        choice_selections_without_inputs(inputs, inputs.len()),
        choices_gap_free(hydrate_choices(p, inputs, validated, env, validated.len())->Ok_0, validated.len()),
    ensures
        hydrate_choice(p, new_inputs, validated, env, k) == hydrate_choice(p, inputs, validated, env, k),
    decreases p, 0nat, k + 1,
{
    let cs = hydrate_choices(p, inputs, validated, env, validated.len())->Ok_0;
    lemma_choice_facts(p, inputs, validated, env, k);
    lemma_dehydrate_choices_len(cs, validated.len());
    lemma_dehydrate_choices_at(cs, validated.len(), k as int);
    lemma_choices_gap_free(cs, validated.len(), k as int);
    if k < inputs.len() {
        lemma_choice_selections_without_inputs(inputs, inputs.len(), k as int);
    }
    lemma_configured_choice_round_trip(p, inputs, new_inputs, validated, env, k, cs[k as int]);
}

/// The `k`-th configured choice is what its own hydration gives.
proof fn lemma_choice_facts(
    p: PromptView,
    inputs: Seq<ChoiceSelectionView>,
    validated: Seq<ValidatedView>,
    env: EnvView,
    k: nat,
)
    requires
        k < validated.len(),
        hydrate_choices(p, inputs, validated, env, validated.len()) is Ok,
    ensures
        hydrate_choices(p, inputs, validated, env, validated.len())->Ok_0.len() == validated.len(),
        hydrate_choice(p, inputs, validated, env, k) == Ok::<
            ChoiceConfigurationView,
            crate::modifier::mod_error::ModifierErrorView,
        >(hydrate_choices(p, inputs, validated, env, validated.len())->Ok_0[k as int]),
{
    lemma_hydrate_choices_shape(p, inputs, validated, env, validated.len());
}

/// The selection at position `k`, if there is one.
spec fn input_at(inputs: Seq<ChoiceSelectionView>, k: nat) -> Option<ChoiceSelectionView> {
    if k < inputs.len() {
        Some(inputs[k as int])
    } else {
        None
    }
}

/// What a hydrated choice holds of its nested configuration.
proof fn lemma_hydrated_choice_nested(
    p: PromptView,
    inputs: Seq<ChoiceSelectionView>,
    validated: Seq<ValidatedView>,
    env: EnvView,
    k: nat,
    cc: ChoiceConfigurationView,
)
    requires
        hydrate_choice(p, inputs, validated, env, k) == Ok::<
            ChoiceConfigurationView,
            crate::modifier::mod_error::ModifierErrorView,
        >(cc),
    ensures
        k < validated.len(),
        has_choice(p.choices, validated[k as int].choice_id),
        match p.choices[first_choice_index(p.choices, validated[k as int].choice_id)].modifiers {
            Some(cm) => cc.modifiers is Some && hydrate_modifiers(*cm, nested_selections(input_at(inputs, k)), env)
                == Ok::<ConfigurationView, crate::modifier::mod_error::ModifierErrorView>(*cc.modifiers->Some_0),
            None => cc.modifiers is None && nested_selections(input_at(inputs, k)).prompts.len() == 0,
        },
{
}

/// One configured choice hydrates again from its dehydrated selection.
#[verifier::spinoff_prover]
proof fn lemma_configured_choice_round_trip(
    p: PromptView,
    inputs: Seq<ChoiceSelectionView>,
    new_inputs: Seq<ChoiceSelectionView>,
    validated: Seq<ValidatedView>,
    env: EnvView,
    k: nat,
    cc: ChoiceConfigurationView,
)
    requires
        hydrate_choice(p, inputs, validated, env, k) == Ok::<
            ChoiceConfigurationView,
            crate::modifier::mod_error::ModifierErrorView,
        >(cc),
        k < new_inputs.len(),
        new_inputs[k as int] == dehydrate_choice(cc),
        choice_gap_free(cc),
        k < inputs.len() ==> choice_selection_without_inputs(inputs[k as int]),
    ensures
        hydrate_choice(p, new_inputs, validated, env, k) == hydrate_choice(p, inputs, validated, env, k),
    decreases p, 0nat, k,
{
    lemma_hydrated_choice_nested(p, inputs, validated, env, k, cc);
    let v = validated[k as int];
    let idx = first_choice_index(p.choices, v.choice_id);
    let c = p.choices[idx];
    let old_nested = nested_selections(input_at(inputs, k));
    let new_nested = nested_selections(input_at(new_inputs, k));
    assert(without_inputs(empty_selections()));
    assert(without_inputs(old_nested));
    lemma_first_choice_index(p.choices, v.choice_id);
    match c.modifiers {
        Some(cm) => {
            let cfg = *cc.modifiers->Some_0;
            assert(decreases_to!(p => p.choices));
            assert(decreases_to!(p.choices => p.choices[idx]));
            lemma_dehydrate_round_trip(*cm, old_nested, env);
            let dc = dehydrate_configuration(cfg);
            if dc.prompts.len() == 0 {
                assert(dc.prompts =~= empty_selections().prompts);
            }
            assert(new_nested == dc);
        },
        None => {},
    }
    lemma_hydrate_choice_congruence(p, inputs, new_inputs, validated, env, k);
}

/// A choice hydrates alike from two selection lists whose nested selections
/// at its position hydrate alike.
proof fn lemma_hydrate_choice_congruence(
    p: PromptView,
    inputs: Seq<ChoiceSelectionView>,
    new_inputs: Seq<ChoiceSelectionView>,
    validated: Seq<ValidatedView>,
    env: EnvView,
    k: nat,
)
    requires
        k < validated.len() && has_choice(p.choices, validated[k as int].choice_id) ==> match p.choices[first_choice_index(
            p.choices,
            validated[k as int].choice_id,
        )].modifiers {
            Some(cm) => hydrate_modifiers(*cm, nested_selections(input_at(new_inputs, k)), env) == hydrate_modifiers(
                *cm,
                nested_selections(input_at(inputs, k)),
                env,
            ),
            None => nested_selections(input_at(new_inputs, k)).prompts.len() == nested_selections(input_at(inputs, k)).prompts.len(),
        },
    ensures
        hydrate_choice(p, new_inputs, validated, env, k) == hydrate_choice(p, inputs, validated, env, k),
{
}

} // verus!
