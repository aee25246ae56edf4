//! What a customer picked: selections of choices under prompts, nested.
use vstd::prelude::*;

use crate::primitives::ids::{ComponentId, PrefixedIdView};
use crate::text::owned;

verus! {

/// How many times `id` occurs in `ids`.
pub open spec fn count_id(ids: Seq<PrefixedIdView>, id: PrefixedIdView) -> nat
    decreases ids.len(),
{
    if ids.len() == 0 {
        0
    } else {
        count_id(ids.drop_last(), id) + if ids.last() == id { 1nat } else { 0nat }
    }
}

pub proof fn lemma_count_id_step(ids: Seq<PrefixedIdView>, id: PrefixedIdView, i: int)
    requires
        0 <= i < ids.len(),
    ensures
        count_id(ids.take(i + 1), id) == count_id(ids.take(i), id) + if ids[i] == id { 1nat } else { 0nat },
{
    assert(ids.take(i + 1).drop_last() =~= ids.take(i));
}

pub proof fn lemma_count_id_all(ids: Seq<PrefixedIdView>, id: PrefixedIdView)
    ensures
        count_id(ids.take(ids.len() as int), id) == count_id(ids, id),
{
    assert(ids.take(ids.len() as int) =~= ids);
}

/// Whether a selection came from the customer or from a default rule.
#[derive(Debug, Copy, Clone, PartialEq, Eq, Structural, Hash)]
pub enum SelectionSource {
    Explicit,
    Default,
}

/// The abstract value of a choice input value.
pub struct ChoiceInputValueView {
    pub input_id: PrefixedIdView,
    pub unit: Option<u32>,
    pub value: Seq<char>,
}

/// A value entered for a choice input, once or for one unit of the quantity.
#[derive(Debug, Eq, PartialEq)]
pub struct ChoiceInputValue {
    input_id: ComponentId,
    unit: Option<u32>,
    value: String,
}

impl View for ChoiceInputValue {
    type V = ChoiceInputValueView;

    closed spec fn view(&self) -> ChoiceInputValueView {
        ChoiceInputValueView { input_id: self.input_id@, unit: self.unit, value: self.value@ }
    }
}

impl DeepView for ChoiceInputValue {
    type V = ChoiceInputValueView;

    open spec fn deep_view(&self) -> ChoiceInputValueView {
        self@
    }
}

impl Clone for ChoiceInputValue {
    fn clone(&self) -> (r: Self)
        ensures
            r@ == self@,
    {
        ChoiceInputValue { input_id: self.input_id.clone(), unit: self.unit, value: self.value.clone() }
    }
}

impl ChoiceInputValue {
    pub fn once(input_id: ComponentId, value: &str) -> (r: Self)
        ensures
            r@ == (ChoiceInputValueView { input_id: input_id@, unit: None, value: value@ }),
    {
        ChoiceInputValue { input_id, unit: None, value: owned(value) }
    }

    pub fn for_unit(input_id: ComponentId, unit: u32, value: &str) -> (r: Self)
        ensures
            r@ == (ChoiceInputValueView { input_id: input_id@, unit: Some(unit), value: value@ }),
    {
        ChoiceInputValue { input_id, unit: Some(unit), value: owned(value) }
    }

    pub fn input_id(&self) -> (r: &ComponentId)
        ensures
            r@ == self@.input_id,
    {
        &self.input_id
    }

    pub fn unit(&self) -> (r: Option<u32>)
        ensures
            r == self@.unit,
    {
        self.unit
    }

    pub fn value(&self) -> (r: &str)
        ensures
            r@ == self@.value,
    {
        self.value.as_str()
    }
}

/// A copy of a list of input values.
pub(crate) fn clone_input_values(values: &[ChoiceInputValue]) -> (r: Vec<ChoiceInputValue>)
    ensures
        r.deep_view() == values.deep_view(),
{
    let mut out: Vec<ChoiceInputValue> = Vec::new();
    let mut i: usize = 0;
    while i < values.len()
        invariant
            i <= values.len(),
            out.deep_view() == values.deep_view().take(i as int),
        decreases values.len() - i,
    {
        let v = values[i].clone();
        let ghost before = out.deep_view();
        out.push(v);
        assert(out.deep_view() =~= before.push(v@));
        assert(values.deep_view().take(i + 1) =~= values.deep_view().take(i as int).push(values.deep_view()[i as int]));
        i += 1;
    }
    assert(values.deep_view().take(values.len() as int) =~= values.deep_view());
    out
}

/// The abstract value of the selections of one modifier level.
pub struct SelectionsView {
    pub prompts: Seq<PromptSelectionView>,
}

/// The abstract value of the choices selected under one prompt.
pub struct PromptSelectionView {
    pub prompt_id: PrefixedIdView,
    pub choices: Seq<ChoiceSelectionView>,
}

/// The abstract value of one selected choice, with its nested selections.
pub struct ChoiceSelectionView {
    pub choice_id: PrefixedIdView,
    pub quantity: u32,
    pub source: SelectionSource,
    pub inputs: Seq<ChoiceInputValueView>,
    pub modifiers: Option<Box<SelectionsView>>,
}

/// The selections of one modifier level, one entry per prompt instance.
#[derive(Debug, Eq, PartialEq)]
pub struct Selections {
    prompts: Vec<PromptSelection>,
}

/// The choices selected under one prompt.
#[derive(Debug, Eq, PartialEq)]
pub struct PromptSelection {
    prompt_id: ComponentId,
    choices: Vec<ChoiceSelection>,
}

/// One selected choice: quantity, source, input values and nested selections.
#[derive(Debug, Eq, PartialEq)]
pub struct ChoiceSelection {
    choice_id: ComponentId,
    quantity: u32,
    source: SelectionSource,
    inputs: Vec<ChoiceInputValue>,
    modifiers: Option<Box<Selections>>,
}

spec fn selections_view(s: Selections) -> SelectionsView
    decreases s, 1nat, 0nat,
{
    SelectionsView { prompts: prompt_selection_seq_view(s.prompts@, s.prompts@.len()) }
}

spec fn prompt_selection_seq_view(ps: Seq<PromptSelection>, n: nat) -> Seq<PromptSelectionView>
    decreases ps, 0nat, n,
{
    if n == 0 || n > ps.len() {
        Seq::empty()
    } else {
        prompt_selection_seq_view(ps, (n - 1) as nat).push(prompt_selection_view(ps[n - 1]))
    }
}

spec fn prompt_selection_view(p: PromptSelection) -> PromptSelectionView
    decreases p, 1nat, 0nat,
{
    PromptSelectionView { prompt_id: p.prompt_id@, choices: choice_selection_seq_view(p.choices@, p.choices@.len()) }
}

spec fn choice_selection_seq_view(cs: Seq<ChoiceSelection>, n: nat) -> Seq<ChoiceSelectionView>
    decreases cs, 0nat, n,
{
    if n == 0 || n > cs.len() {
        Seq::empty()
    } else {
        choice_selection_seq_view(cs, (n - 1) as nat).push(choice_selection_view(cs[n - 1]))
    }
}

spec fn choice_selection_view(c: ChoiceSelection) -> ChoiceSelectionView
    decreases c, 1nat, 0nat,
{
    ChoiceSelectionView {
        choice_id: c.choice_id@,
        quantity: c.quantity,
        source: c.source,
        inputs: c.inputs.deep_view(),
        modifiers: match c.modifiers {
            Some(b) => Some(Box::new(selections_view(*b))),
            None => None,
        },
    }
}

impl View for Selections {
    type V = SelectionsView;

    closed spec fn view(&self) -> SelectionsView {
        selections_view(*self)
    }
}

impl View for PromptSelection {
    type V = PromptSelectionView;

    closed spec fn view(&self) -> PromptSelectionView {
        prompt_selection_view(*self)
    }
}

impl View for ChoiceSelection {
    type V = ChoiceSelectionView;

    closed spec fn view(&self) -> ChoiceSelectionView {
        choice_selection_view(*self)
    }
}

/// The views of a list of prompt selections.
pub open spec fn prompt_selection_views(ps: Seq<PromptSelection>) -> Seq<PromptSelectionView> {
    ps.map_values(|p: PromptSelection| p@)
}

/// The views of a list of choice selections.
pub open spec fn choice_selection_views(cs: Seq<ChoiceSelection>) -> Seq<ChoiceSelectionView> {
    cs.map_values(|c: ChoiceSelection| c@)
}

proof fn lemma_prompt_selection_seq_view(ps: Seq<PromptSelection>, n: nat)
    requires
        n <= ps.len(),
    ensures
        prompt_selection_seq_view(ps, n) =~= prompt_selection_views(ps.take(n as int)),
    decreases n,
{
    if n > 0 {
        lemma_prompt_selection_seq_view(ps, (n - 1) as nat);
        assert(ps.take(n as int).drop_last() =~= ps.take(n - 1));
    }
}

proof fn lemma_choice_selection_seq_view(cs: Seq<ChoiceSelection>, n: nat)
    requires
        n <= cs.len(),
    ensures
        choice_selection_seq_view(cs, n) =~= choice_selection_views(cs.take(n as int)),
    decreases n,
{
    if n > 0 {
        lemma_choice_selection_seq_view(cs, (n - 1) as nat);
        assert(cs.take(n as int).drop_last() =~= cs.take(n - 1));
    }
}

proof fn lemma_selections_view(s: Selections)
    ensures
        s@.prompts == prompt_selection_views(s.prompts@),
{
    lemma_prompt_selection_seq_view(s.prompts@, s.prompts@.len());
    assert(s.prompts@.take(s.prompts@.len() as int) =~= s.prompts@);
}

proof fn lemma_prompt_selection_view(p: PromptSelection)
    ensures
        p@ == (PromptSelectionView { prompt_id: p.prompt_id@, choices: choice_selection_views(p.choices@) }),
{
    lemma_choice_selection_seq_view(p.choices@, p.choices@.len());
    assert(p.choices@.take(p.choices@.len() as int) =~= p.choices@);
}

/// The index of the first prompt selection with the given prompt.
pub open spec fn first_prompt_index(ps: Seq<PromptSelectionView>, id: PrefixedIdView) -> int {
    choose|i: int| 0 <= i < ps.len() && ps[i].prompt_id == id && forall|j: int| 0 <= j < i ==> #[trigger] ps[j].prompt_id != id
}

pub open spec fn has_prompt(ps: Seq<PromptSelectionView>, id: PrefixedIdView) -> bool {
    exists|i: int| 0 <= i < ps.len() && #[trigger] ps[i].prompt_id == id
}

/// The prompt ids of a list of prompt selections.
pub open spec fn selection_prompt_ids(ps: Seq<PromptSelectionView>) -> Seq<PrefixedIdView> {
    ps.map_values(|p: PromptSelectionView| p.prompt_id)
}

/// The `occurrence`-th prompt selection (counting from zero) with the given prompt.
pub open spec fn prompt_selection_at(ps: Seq<PromptSelectionView>, id: PrefixedIdView, occurrence: nat) -> Option<PromptSelectionView> {
    if exists|i: int| 0 <= i < ps.len() && #[trigger] ps[i].prompt_id == id && count_id(selection_prompt_ids(ps).take(i), id) == occurrence {
        let i = choose|i: int| 0 <= i < ps.len() && #[trigger] ps[i].prompt_id == id && count_id(selection_prompt_ids(ps).take(i), id) == occurrence;
        Some(ps[i])
    } else {
        None
    }
}

/// Setting a prompt's choices: the first selection of that prompt is replaced,
/// or a new selection is added at the end.
pub open spec fn spec_set_prompt(s: SelectionsView, id: PrefixedIdView, choices: Seq<ChoiceSelectionView>) -> SelectionsView {
    if has_prompt(s.prompts, id) {
        SelectionsView { prompts: s.prompts.update(first_prompt_index(s.prompts, id), PromptSelectionView { prompt_id: id, choices }) }
    } else {
        SelectionsView { prompts: s.prompts.push(PromptSelectionView { prompt_id: id, choices }) }
    }
}

impl Clone for Selections {
    fn clone(&self) -> (r: Self)
        ensures
            r@ == self@,
        decreases self,
    {
        proof {
            lemma_selections_view(*self);
        }
        let mut prompts: Vec<PromptSelection> = Vec::new();
        let mut i: usize = 0;
        while i < self.prompts.len()
            invariant
                i <= self.prompts.len(),
                prompt_selection_views(prompts@) == prompt_selection_views(self.prompts@).take(i as int),
            decreases self.prompts.len() - i,
        {
            assert(decreases_to!(self => self.prompts@[i as int]));
            let p = self.prompts[i].clone();
            let ghost before = prompts@;
            prompts.push(p);
            assert(prompt_selection_views(prompts@) =~= prompt_selection_views(before).push(p@));
            assert(prompt_selection_views(self.prompts@).take(i + 1) =~= prompt_selection_views(self.prompts@).take(i as int).push(self.prompts@[i as int]@));
            i += 1;
        }
        let r = Selections { prompts };
        proof {
            lemma_selections_view(r);
            assert(prompt_selection_views(self.prompts@).take(self.prompts.len() as int) =~= prompt_selection_views(self.prompts@));
        }
        r
    }
}

impl Clone for PromptSelection {
    fn clone(&self) -> (r: Self)
        ensures
            r@ == self@,
        decreases self,
    {
        proof {
            lemma_prompt_selection_view(*self);
        }
        let mut choices: Vec<ChoiceSelection> = Vec::new();
        let mut i: usize = 0;
        while i < self.choices.len()
            invariant
                i <= self.choices.len(),
                choice_selection_views(choices@) == choice_selection_views(self.choices@).take(i as int),
            decreases self.choices.len() - i,
        {
            assert(decreases_to!(self => self.choices@[i as int]));
            let c = self.choices[i].clone();
            let ghost before = choices@;
            choices.push(c);
            assert(choice_selection_views(choices@) =~= choice_selection_views(before).push(c@));
            assert(choice_selection_views(self.choices@).take(i + 1) =~= choice_selection_views(self.choices@).take(i as int).push(self.choices@[i as int]@));
            i += 1;
        }
        let r = PromptSelection { prompt_id: self.prompt_id.clone(), choices };
        proof {
            lemma_prompt_selection_view(r);
            assert(choice_selection_views(self.choices@).take(self.choices.len() as int) =~= choice_selection_views(self.choices@));
        }
        r
    }
}

impl Clone for ChoiceSelection {
    fn clone(&self) -> (r: Self)
        ensures
            r@ == self@,
        decreases self,
    {
        let modifiers = match &self.modifiers {
            Some(b) => {
                assert(decreases_to!(self => **b));
                Some(Box::new((**b).clone()))
            },
            None => None,
        };
        ChoiceSelection {
            choice_id: self.choice_id.clone(),
            quantity: self.quantity,
            source: self.source,
            inputs: clone_input_values(self.inputs.as_slice()),
            modifiers,
        }
    }
}

impl Default for Selections {
    fn default() -> (r: Self)
        ensures
            r@.prompts == Seq::<PromptSelectionView>::empty(),
    {
        Self::new()
    }
}

impl Selections {
    pub fn new() -> (r: Self)
        ensures
            r@.prompts == Seq::<PromptSelectionView>::empty(),
    {
        let r = Selections { prompts: Vec::new() };
        proof {
            lemma_selections_view(r);
        }
        assert(r@.prompts =~= Seq::<PromptSelectionView>::empty());
        r
    }

    pub fn with_prompt(self, prompt_id: ComponentId, choices: Vec<ChoiceSelection>) -> (r: Self)
        ensures
            r@ == spec_set_prompt(self@, prompt_id@, choice_selection_views(choices@)),
    {
        let mut s = self;
        s.set_prompt(prompt_id, choices);
        s
    }

    pub fn with_prompt_instance(self, prompt: PromptSelection) -> (r: Self)
        ensures
            r@.prompts == self@.prompts.push(prompt@),
    {
        let mut s = self;
        s.push_prompt(prompt);
        s
    }

    pub fn set_prompt(&mut self, prompt_id: ComponentId, choices: Vec<ChoiceSelection>)
        ensures
            final(self)@ == spec_set_prompt(old(self)@, prompt_id@, choice_selection_views(choices@)),
    {
        proof {
            lemma_selections_view(*self);
        }
        let ghost before = self@;
        let mut i: usize = 0;
        while i < self.prompts.len()
            invariant
                i <= self.prompts.len(),
                before == old(self)@,
                before.prompts == prompt_selection_views(self.prompts@),
                forall|j: int| 0 <= j < i ==> #[trigger] before.prompts[j].prompt_id != prompt_id@,
            decreases self.prompts.len() - i,
        {
            assert(before.prompts[i as int] == self.prompts@[i as int]@);
            proof {
                lemma_prompt_selection_view(self.prompts@[i as int]);
            }
            if self.prompts[i].prompt_id.same_as(&prompt_id) {
                let ghost chosen = first_prompt_index(before.prompts, prompt_id@);
                proof {
                    assert(has_prompt(before.prompts, prompt_id@));
                    if chosen != i {
                        assert(before.prompts[chosen].prompt_id == prompt_id@);
                        if chosen > i {
                            assert(before.prompts[i as int].prompt_id != prompt_id@);
                        }
                    }
                }
                let new_prompt = PromptSelection { prompt_id, choices };
                let mut prompts: Vec<PromptSelection> = Vec::new();
                std::mem::swap(&mut prompts, &mut self.prompts);
                prompts.set(i, new_prompt);
                self.prompts = prompts;
                proof {
                    lemma_prompt_selection_view(new_prompt);
                    lemma_selections_view(*self);
                    assert(self@.prompts =~= before.prompts.update(i as int, new_prompt@));
                    assert(chosen == i);
                }
                return;
            }
            i += 1;
        }
        let new_prompt = PromptSelection { prompt_id, choices };
        proof {
            lemma_prompt_selection_view(new_prompt);
        }
        let ghost np = new_prompt@;
        self.prompts.push(new_prompt);
        proof {
            lemma_selections_view(*self);
            assert(self@.prompts =~= before.prompts.push(np));
        }
    }

    pub fn push_prompt(&mut self, prompt: PromptSelection)
        ensures
            final(self)@.prompts == old(self)@.prompts.push(prompt@),
    {
        proof {
            lemma_selections_view(*self);
        }
        let ghost before = self@;
        let ghost pv = prompt@;
        self.prompts.push(prompt);
        proof {
            lemma_selections_view(*self);
            assert(self@.prompts =~= before.prompts.push(pv));
        }
    }

    /// The first selection of the given prompt.
    pub fn prompt(&self, prompt_id: &ComponentId) -> (r: Option<&PromptSelection>)
        ensures
            match r {
                Some(p) => has_prompt(self@.prompts, prompt_id@) && p@ == self@.prompts[first_prompt_index(self@.prompts, prompt_id@)],
                None => !has_prompt(self@.prompts, prompt_id@),
            },
    {
        proof {
            lemma_selections_view(*self);
        }
        let mut i: usize = 0;
        while i < self.prompts.len()
            invariant
                i <= self.prompts.len(),
                self@.prompts == prompt_selection_views(self.prompts@),
                forall|j: int| 0 <= j < i ==> #[trigger] self@.prompts[j].prompt_id != prompt_id@,
            decreases self.prompts.len() - i,
        {
            assert(self@.prompts[i as int] == self.prompts@[i as int]@);
            proof {
                lemma_prompt_selection_view(self.prompts@[i as int]);
            }
            if self.prompts[i].prompt_id.same_as(prompt_id) {
                proof {
                    let c = first_prompt_index(self@.prompts, prompt_id@);
                    assert(has_prompt(self@.prompts, prompt_id@));
                    if c != i {
                        if c > i {
                            assert(self@.prompts[i as int].prompt_id != prompt_id@);
                        }
                    }
                }
                return Some(&self.prompts[i]);
            }
            i += 1;
        }
        None
    }

    /// The `occurrence`-th selection (counting from zero) of the given prompt.
    pub fn prompt_at(&self, prompt_id: &ComponentId, occurrence: usize) -> (r: Option<&PromptSelection>)
        ensures
            match r {
                Some(p) => prompt_selection_at(self@.prompts, prompt_id@, occurrence as nat) == Some(p@),
                None => prompt_selection_at(self@.prompts, prompt_id@, occurrence as nat) is None,
            },
    {
        proof {
            lemma_selections_view(*self);
        }
        let ghost ids = selection_prompt_ids(self@.prompts);
        let mut seen: usize = 0;
        let mut i: usize = 0;
        while i < self.prompts.len()
            invariant
                i <= self.prompts.len(),
                self@.prompts == prompt_selection_views(self.prompts@),
                ids == selection_prompt_ids(self@.prompts),
                seen == count_id(ids.take(i as int), prompt_id@),
                seen <= occurrence,
                forall|j: int| 0 <= j < i && #[trigger] self@.prompts[j].prompt_id == prompt_id@ ==> count_id(ids.take(j), prompt_id@) < occurrence,
            decreases self.prompts.len() - i,
        {
            assert(self@.prompts[i as int] == self.prompts@[i as int]@);
            proof {
                lemma_prompt_selection_view(self.prompts@[i as int]);
                lemma_count_id_step(ids, prompt_id@, i as int);
            }
            if self.prompts[i].prompt_id.same_as(prompt_id) {
                if seen == occurrence {
                    proof {
                        let ps = self@.prompts;
                        assert(ps[i as int].prompt_id == prompt_id@ && count_id(ids.take(i as int), prompt_id@) == occurrence);
                        let c = choose|c: int| 0 <= c < ps.len() && #[trigger] ps[c].prompt_id == prompt_id@ && count_id(selection_prompt_ids(ps).take(c), prompt_id@) == occurrence as nat;
                        if c < i {
                            assert(count_id(ids.take(c), prompt_id@) < occurrence);
                        } else if c > i {
                            lemma_count_id_monotone(ids, prompt_id@, i + 1, c);
                        }
                    }
                    return Some(&self.prompts[i]);
                }
                seen += 1;
            }
            i += 1;
        }
        proof {
            let ps = self@.prompts;
            assert(ids.take(ps.len() as int) =~= ids);
            if exists|c: int| 0 <= c < ps.len() && #[trigger] ps[c].prompt_id == prompt_id@ && count_id(selection_prompt_ids(ps).take(c), prompt_id@) == occurrence as nat {
                let c = choose|c: int| 0 <= c < ps.len() && #[trigger] ps[c].prompt_id == prompt_id@ && count_id(selection_prompt_ids(ps).take(c), prompt_id@) == occurrence as nat;
                assert(count_id(ids.take(c), prompt_id@) < occurrence);
            }
        }
        None
    }

    pub fn prompts(&self) -> (r: &[PromptSelection])
        ensures
            prompt_selection_views(r@) == self@.prompts,
    {
        proof {
            lemma_selections_view(*self);
        }
        self.prompts.as_slice()
    }

    pub fn is_empty(&self) -> (r: bool)
        ensures
            r == (self@.prompts.len() == 0),
    {
        proof {
            lemma_selections_view(*self);
        }
        self.prompts.len() == 0
    }
}

/// Counting in a longer prefix counts at least as many.
pub proof fn lemma_count_id_monotone(ids: Seq<PrefixedIdView>, id: PrefixedIdView, a: int, b: int)
    requires
        0 <= a <= b <= ids.len(),
    ensures
        count_id(ids.take(a), id) <= count_id(ids.take(b), id),
    decreases b - a,
{
    if a < b {
        lemma_count_id_step(ids, id, b - 1);
        lemma_count_id_monotone(ids, id, a, b - 1);
    }
}

impl PromptSelection {
    pub fn new(prompt_id: ComponentId, choices: Vec<ChoiceSelection>) -> (r: Self)
        ensures
            r@ == (PromptSelectionView { prompt_id: prompt_id@, choices: choice_selection_views(choices@) }),
    {
        let r = PromptSelection { prompt_id, choices };
        proof {
            lemma_prompt_selection_view(r);
        }
        r
    }

    pub fn prompt_id(&self) -> (r: &ComponentId)
        ensures
            r@ == self@.prompt_id,
    {
        proof {
            lemma_prompt_selection_view(*self);
        }
        &self.prompt_id
    }

    pub fn choices(&self) -> (r: &[ChoiceSelection])
        ensures
            choice_selection_views(r@) == self@.choices,
    {
        proof {
            lemma_prompt_selection_view(*self);
        }
        self.choices.as_slice()
    }
}

impl ChoiceSelection {
    pub fn new(choice_id: ComponentId, quantity: u32) -> (r: Self)
        ensures
            r@ == (ChoiceSelectionView {
                choice_id: choice_id@,
                quantity,
                source: SelectionSource::Explicit,
                inputs: Seq::empty(),
                modifiers: None,
            }),
    {
        let r = ChoiceSelection { choice_id, quantity, source: SelectionSource::Explicit, inputs: Vec::new(), modifiers: None };
        assert(r.inputs.deep_view() =~= Seq::<ChoiceInputValueView>::empty());
        r
    }

    pub fn with_source(self, source: SelectionSource) -> (r: Self)
        ensures
            r@ == (ChoiceSelectionView { source, ..self@ }),
    {
        ChoiceSelection { source, ..self }
    }

    pub fn with_modifiers(self, modifiers: Selections) -> (r: Self)
        ensures
            r@ == (ChoiceSelectionView { modifiers: Some(Box::new(modifiers@)), ..self@ }),
    {
        ChoiceSelection { modifiers: Some(Box::new(modifiers)), ..self }
    }

    pub fn with_inputs(self, inputs: Vec<ChoiceInputValue>) -> (r: Self)
        ensures
            r@ == (ChoiceSelectionView { inputs: inputs.deep_view(), ..self@ }),
    {
        ChoiceSelection { inputs, ..self }
    }

    pub fn choice_id(&self) -> (r: &ComponentId)
        ensures
            r@ == self@.choice_id,
    {
        &self.choice_id
    }

    pub fn quantity(&self) -> (r: u32)
        ensures
            r == self@.quantity,
    {
        self.quantity
    }

    pub fn source(&self) -> (r: SelectionSource)
        ensures
            r == self@.source,
    {
        self.source
    }

    pub fn inputs(&self) -> (r: &[ChoiceInputValue])
        ensures
            r.deep_view() == self@.inputs,
    {
        self.inputs.as_slice()
    }

    pub fn modifiers(&self) -> (r: Option<&Selections>)
        ensures
            match r {
                Some(s) => self@.modifiers == Some(Box::new(s@)),
                None => self@.modifiers is None,
            },
    {
        match &self.modifiers {
            Some(b) => Some(&**b),
            None => None,
        }
    }
}

/// A choice proposed for validation under a prompt.
#[derive(Debug, Eq, PartialEq)]
pub struct SelectionCandidate {
    pub choice_id: ComponentId,
    pub quantity: u32,
    pub source: SelectionSource,
    pub inputs: Vec<ChoiceInputValue>,
}

/// The abstract value of a candidate.
pub struct CandidateView {
    pub choice_id: PrefixedIdView,
    pub quantity: u32,
    pub source: SelectionSource,
    pub inputs: Seq<ChoiceInputValueView>,
}

impl View for SelectionCandidate {
    type V = CandidateView;

    open spec fn view(&self) -> CandidateView {
        CandidateView { choice_id: self.choice_id@, quantity: self.quantity, source: self.source, inputs: self.inputs.deep_view() }
    }
}

} // verus!
