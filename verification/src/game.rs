//! The story model and the `Game` runtime: page/choice/flag data structures,
//! the visibility rule for choices, flag mutation on transitions, and the
//! query/transition API of a play session.

use vstd::prelude::*;

verus! {

use crate::views::ActionTypeV;
use crate::views::ChoiceV;
use crate::views::ConditionTypeV;
use crate::views::FlagDefinitionV;
use crate::views::FlagStateV;
use crate::views::GameStateV;
use crate::views::GameV;
use crate::views::PageEntryV;
use crate::views::PageV;
use crate::views::StoryV;
use crate::views::lemma_vec_deep_view;

broadcast use lemma_vec_deep_view;

pub type PageId = String;

pub type FlagId = String;

// ---------------------------------------------------------------------------
// Story model: immutable-after-load description of the narrative graph.
// Page and flag tables are association lists searched front to back; the
// first entry with a matching identifier wins.
// ---------------------------------------------------------------------------

/// One entry of the story's page table: a page identifier and its page.
#[derive(Debug, Clone)]
pub struct PageEntry {
    pub id: PageId,
    pub page: Page,
}

/// The full narrative graph: entry page, page table and declared flags.
#[derive(Debug, Clone)]
pub struct Story {
    pub start: PageId,
    pub pages: Vec<PageEntry>,
    pub flags: Vec<FlagDefinition>,
}

/// Declares a flag and its initial value when a new game starts.
#[derive(Debug, Clone)]
pub struct FlagDefinition {
    pub id: FlagId,
    pub default: bool,
}

/// The live value of one flag during a play session.
#[derive(Debug, Clone)]
pub struct FlagState {
    pub id: FlagId,
    pub value: bool,
}

/// One narrative node: its text and its outgoing choices, in display order.
#[derive(Debug, Clone)]
pub struct Page {
    pub content: String,
    pub choices: Vec<Choice>,
}

/// What taking a choice does to flag state.
#[derive(Debug, Clone)]
pub enum ActionType {
    EnableFlag(FlagId),
    DisableFlag(FlagId),
}

/// A single flag mutation carried by a choice.
#[derive(Debug, Clone)]
pub struct Action {
    pub action_type: ActionType,
}

/// A test against live flag state: true when the named flag exists and its
/// value equals the required one.
#[derive(Debug, Clone)]
pub enum ConditionType {
    Flag { flag_name: String, value: bool },
}

/// A single visibility gate carried by a choice.
#[derive(Debug, Clone)]
pub struct Condition {
    pub condition_type: ConditionType,
}

/// An edge from one page to another, gated by conditions and carrying actions.
#[derive(Debug, Clone)]
pub struct Choice {
    pub text: String,
    pub to: PageId,
    pub actions: Vec<Action>,
    pub conditions: Vec<Condition>,
}

/// Runtime state of a session: the current page and the live flag values.
#[derive(Debug)]
pub struct GameState {
    current_page: PageId,
    flags: Vec<FlagState>,
}

/// Every way a core operation can fail; all are local and recoverable.
#[derive(Debug)]
pub enum GameError {
    CurrentPageNotFound(String),
    NextPageNotFound(String),
    PageNotFound(String),
    NoNextPage(String),
    ChoiceNotFound(usize),
}

/// A play session: its own copy of the story plus mutable runtime state.
pub struct Game {
    story: Story,
    state: GameState,
}

impl View for PageEntry {
    type V = PageEntryV;

    open spec fn view(&self) -> PageEntryV {
        PageEntryV { id: self.id@, page: self.page@ }
    }
}

impl DeepView for PageEntry {
    type V = PageEntryV;

    open spec fn deep_view(&self) -> PageEntryV {
        self@
    }
}

impl View for Story {
    type V = StoryV;

    open spec fn view(&self) -> StoryV {
        StoryV {
            start: self.start@,
            pages: self.pages.deep_view(),
            flags: self.flags.deep_view(),
        }
    }
}

impl DeepView for Story {
    type V = StoryV;

    open spec fn deep_view(&self) -> StoryV {
        self@
    }
}

impl View for FlagDefinition {
    type V = FlagDefinitionV;

    open spec fn view(&self) -> FlagDefinitionV {
        FlagDefinitionV { id: self.id@, default: self.default }
    }
}

impl DeepView for FlagDefinition {
    type V = FlagDefinitionV;

    open spec fn deep_view(&self) -> FlagDefinitionV {
        self@
    }
}

impl View for FlagState {
    type V = FlagStateV;

    open spec fn view(&self) -> FlagStateV {
        FlagStateV { id: self.id@, value: self.value }
    }
}

impl DeepView for FlagState {
    type V = FlagStateV;

    open spec fn deep_view(&self) -> FlagStateV {
        self@
    }
}

impl View for Page {
    type V = PageV;

    open spec fn view(&self) -> PageV {
        PageV { content: self.content@, choices: self.choices.deep_view() }
    }
}

impl DeepView for Page {
    type V = PageV;

    open spec fn deep_view(&self) -> PageV {
        self@
    }
}

impl View for ActionType {
    type V = ActionTypeV;

    open spec fn view(&self) -> ActionTypeV {
        match self {
            ActionType::EnableFlag(f) => ActionTypeV::EnableFlag(f@),
            ActionType::DisableFlag(f) => ActionTypeV::DisableFlag(f@),
        }
    }
}

impl View for Action {
    type V = ActionTypeV;

    open spec fn view(&self) -> ActionTypeV {
        self.action_type@
    }
}

impl DeepView for Action {
    type V = ActionTypeV;

    open spec fn deep_view(&self) -> ActionTypeV {
        self@
    }
}

impl View for Condition {
    type V = ConditionTypeV;

    open spec fn view(&self) -> ConditionTypeV {
        match self.condition_type {
            ConditionType::Flag { ref flag_name, value } => ConditionTypeV::Flag {
                flag_name: flag_name@,
                value: value,
            },
        }
    }
}

impl DeepView for Condition {
    type V = ConditionTypeV;

    open spec fn deep_view(&self) -> ConditionTypeV {
        self@
    }
}

impl View for Choice {
    type V = ChoiceV;

    open spec fn view(&self) -> ChoiceV {
        ChoiceV {
            text: self.text@,
            to: self.to@,
            actions: self.actions.deep_view(),
            conditions: self.conditions.deep_view(),
        }
    }
}

impl DeepView for Choice {
    type V = ChoiceV;

    open spec fn deep_view(&self) -> ChoiceV {
        self@
    }
}

impl View for GameState {
    type V = GameStateV;

    closed spec fn view(&self) -> GameStateV {
        GameStateV { current_page: self.current_page@, flags: self.flags.deep_view() }
    }
}

impl View for Game {
    type V = GameV;

    closed spec fn view(&self) -> GameV {
        GameV { story: self.story@, state: self.state@ }
    }
}

// ---------------------------------------------------------------------------
// Core spec functions: lookup, visibility, action application.
// ---------------------------------------------------------------------------

/// The page stored under `id`, searching front to back.
pub open spec fn find_page(pages: Seq<PageEntryV>, id: Seq<char>) -> Option<PageV>
    decreases pages.len(),
{
    if pages.len() == 0 {
        None
    } else if pages[0].id == id {
        Some(pages[0].page)
    } else {
        find_page(pages.drop_first(), id)
    }
}

/// Whether some page is stored under `id`.
pub open spec fn has_page(pages: Seq<PageEntryV>, id: Seq<char>) -> bool {
    find_page(pages, id) is Some
}

/// The live value of the flag named `id`, searching front to back.
pub open spec fn flag_val(flags: Seq<FlagStateV>, id: Seq<char>) -> Option<bool>
    decreases flags.len(),
{
    if flags.len() == 0 {
        None
    } else if flags[0].id == id {
        Some(flags[0].value)
    } else {
        flag_val(flags.drop_first(), id)
    }
}

/// The default value declared for the flag named `id`, if any.
pub open spec fn default_flag_val(defs: Seq<FlagDefinitionV>, id: Seq<char>) -> Option<bool>
    decreases defs.len(),
{
    if defs.len() == 0 {
        None
    } else if defs[0].id == id {
        Some(defs[0].default)
    } else {
        default_flag_val(defs.drop_first(), id)
    }
}

/// A condition holds iff the named flag exists and carries the required value;
/// a reference to an undeclared flag makes the condition false.
pub open spec fn condition_holds(flags: Seq<FlagStateV>, c: ConditionTypeV) -> bool {
    match c {
        ConditionTypeV::Flag { flag_name, value } => flag_val(flags, flag_name) == Some(value),
    }
}

/// A choice is visible iff all of its conditions hold (a choice with no
/// conditions is always visible).
pub open spec fn choice_visible(flags: Seq<FlagStateV>, c: ChoiceV) -> bool {
    forall|i: int| 0 <= i < c.conditions.len() ==> condition_holds(flags, #[trigger] c.conditions[i])
}

/// The visible choices of a page, in original order: the re-indexed sequence
/// whose positions are the indices players select by.
pub open spec fn visible_choices(flags: Seq<FlagStateV>, choices: Seq<ChoiceV>) -> Seq<ChoiceV> {
    choices.filter(|c: ChoiceV| choice_visible(flags, c))
}

/// What one action makes of the value of the flag named `id`, given the value
/// `prior` it had before.
pub open spec fn apply_one(a: ActionTypeV, id: Seq<char>, prior: Option<bool>) -> Option<bool> {
    match a {
        ActionTypeV::EnableFlag(f) => if f == id {
            Some(true)
        } else {
            prior
        },
        ActionTypeV::DisableFlag(f) => if f == id {
            Some(false)
        } else {
            prior
        },
    }
}

/// The value of the flag named `id` after applying `actions` in declared
/// order, starting from the value `init`.
pub open spec fn action_result(actions: Seq<ActionTypeV>, id: Seq<char>, init: Option<bool>) -> Option<
    bool,
>
    decreases actions.len(),
{
    if actions.len() == 0 {
        init
    } else {
        apply_one(actions.last(), id, action_result(actions.drop_last(), id, init))
    }
}

/// Structural integrity of a story: every choice's destination is a declared
/// page.
pub open spec fn story_valid(s: StoryV) -> bool {
    forall|i: int, j: int|
        0 <= i < s.pages.len() && 0 <= j < #[trigger] s.pages[i].page.choices.len() ==> has_page(
            s.pages,
            #[trigger] s.pages[i].page.choices[j].to,
        )
}

// ---------------------------------------------------------------------------
// Laws of the visibility rule and of action application.
// ---------------------------------------------------------------------------

/// A choice with no conditions is visible under every flag state.
pub proof fn lemma_visibility_no_conditions(flags: Seq<FlagStateV>, c: ChoiceV)
    requires
        c.conditions.len() == 0,
    ensures
        choice_visible(flags, c),
{
}

/// A choice with a single flag condition is visible exactly when the live
/// value of that flag equals the required one; in particular it is invisible
/// when the flag was never declared.
pub proof fn lemma_visibility_single_condition(
    flags: Seq<FlagStateV>,
    c: ChoiceV,
    f: Seq<char>,
    v: bool,
)
    requires
        c.conditions == seq![ConditionTypeV::Flag { flag_name: f, value: v }],
    ensures
        choice_visible(flags, c) <==> flag_val(flags, f) == Some(v),
        flag_val(flags, f) is None ==> !choice_visible(flags, c),
{
    assert(c.conditions[0] == (ConditionTypeV::Flag { flag_name: f, value: v }));
}

/// Actions apply in declared order with later writes winning: enabling and
/// then disabling one flag leaves it disabled, whatever value it started at.
pub proof fn lemma_enable_then_disable(f: Seq<char>, init: Option<bool>)
    ensures
        action_result(seq![ActionTypeV::EnableFlag(f), ActionTypeV::DisableFlag(f)], f, init)
            == Some(false),
{
    let s = seq![ActionTypeV::EnableFlag(f), ActionTypeV::DisableFlag(f)];
    assert(s.last() == ActionTypeV::DisableFlag(f));
}

// ---------------------------------------------------------------------------
// Lookup lemmas: a front-to-back scan that has seen no match so far agrees
// with the spec-level search on the remaining suffix.
// ---------------------------------------------------------------------------

proof fn lemma_find_page_skip(pages: Seq<PageEntryV>, id: Seq<char>, i: int)
    requires
        0 <= i <= pages.len(),
        forall|j: int| 0 <= j < i ==> (#[trigger] pages[j]).id != id,
    ensures
        find_page(pages, id) == find_page(pages.skip(i), id),
    decreases i,
{
    if i > 0 {
        assert(pages[0].id != id);
        assert(pages.drop_first() =~= pages.skip(1));
        lemma_find_page_skip(pages.drop_first(), id, i - 1);
        assert(pages.drop_first().skip(i - 1) =~= pages.skip(i));
    } else {
        assert(pages.skip(0) =~= pages);
    }
}

proof fn lemma_flag_val_skip(flags: Seq<FlagStateV>, id: Seq<char>, i: int)
    requires
        0 <= i <= flags.len(),
        forall|j: int| 0 <= j < i ==> (#[trigger] flags[j]).id != id,
    ensures
        flag_val(flags, id) == flag_val(flags.skip(i), id),
    decreases i,
{
    if i > 0 {
        assert(flags[0].id != id);
        assert(flags.drop_first() =~= flags.skip(1));
        lemma_flag_val_skip(flags.drop_first(), id, i - 1);
        assert(flags.drop_first().skip(i - 1) =~= flags.skip(i));
    } else {
        assert(flags.skip(0) =~= flags);
    }
}

// ---------------------------------------------------------------------------
// Executable lookups.
// ---------------------------------------------------------------------------

/// Whether the page table holds a page under `id`.
pub(crate) fn page_exists(pages: &Vec<PageEntry>, id: &String) -> (r: bool)
    ensures
        r == has_page(pages.deep_view(), id@),
{
    let ghost pv = pages.deep_view();
    let mut i: usize = 0;
    while i < pages.len()
        invariant
            0 <= i <= pages.len(),
            pv == pages.deep_view(),
            pv.len() == pages.len(),
            forall|j: int| 0 <= j < i ==> (#[trigger] pv[j]).id != id@,
        decreases pages.len() - i,
    {
        if pages[i].id == *id {
            proof {
                lemma_find_page_skip(pv, id@, i as int);
                assert(pv.skip(i as int)[0] == pv[i as int]);
            }
            return true;
        }
        i += 1;
    }
    proof {
        lemma_find_page_skip(pv, id@, pages.len() as int);
        assert(pv.skip(pv.len() as int) =~= Seq::<PageEntryV>::empty());
    }
    false
}

// ---------------------------------------------------------------------------
// Deep copies of model values. The engine stores its own copy of the story,
// and page views hand out copies of pages and choices.
// ---------------------------------------------------------------------------

fn clone_action(a: &Action) -> (r: Action)
    ensures
        r@ == a@,
{
    match &a.action_type {
        ActionType::EnableFlag(f) => Action { action_type: ActionType::EnableFlag(f.clone()) },
        ActionType::DisableFlag(f) => Action { action_type: ActionType::DisableFlag(f.clone()) },
    }
}

fn clone_condition(c: &Condition) -> (r: Condition)
    ensures
        r@ == c@,
{
    match &c.condition_type {
        ConditionType::Flag { flag_name, value } => Condition {
            condition_type: ConditionType::Flag { flag_name: flag_name.clone(), value: *value },
        },
    }
}

fn clone_choice(c: &Choice) -> (r: Choice)
    ensures
        r@ == c@,
{
    let mut actions: Vec<Action> = Vec::new();
    let mut i: usize = 0;
    while i < c.actions.len()
        invariant
            0 <= i <= c.actions.len(),
            actions@.len() == i,
            forall|j: int| 0 <= j < i ==> (#[trigger] actions@[j])@ == c.actions@[j]@,
        decreases c.actions.len() - i,
    {
        actions.push(clone_action(&c.actions[i]));
        i += 1;
    }
    let mut conditions: Vec<Condition> = Vec::new();
    let mut k: usize = 0;
    while k < c.conditions.len()
        invariant
            0 <= k <= c.conditions.len(),
            conditions@.len() == k,
            forall|j: int| 0 <= j < k ==> (#[trigger] conditions@[j])@ == c.conditions@[j]@,
        decreases c.conditions.len() - k,
    {
        conditions.push(clone_condition(&c.conditions[k]));
        k += 1;
    }
    let r = Choice { text: c.text.clone(), to: c.to.clone(), actions, conditions };
    proof {
        assert(r@.actions =~= c@.actions);
        assert(r@.conditions =~= c@.conditions);
        assert(r@ =~= c@);
    }
    r
}

fn clone_page(p: &Page) -> (r: Page)
    ensures
        r@ == p@,
{
    let mut choices: Vec<Choice> = Vec::new();
    let mut i: usize = 0;
    while i < p.choices.len()
        invariant
            0 <= i <= p.choices.len(),
            choices@.len() == i,
            forall|j: int| 0 <= j < i ==> (#[trigger] choices@[j])@ == p.choices@[j]@,
        decreases p.choices.len() - i,
    {
        choices.push(clone_choice(&p.choices[i]));
        i += 1;
    }
    let r = Page { content: p.content.clone(), choices };
    proof {
        assert(r@.choices =~= p@.choices);
        assert(r@ =~= p@);
    }
    r
}

fn clone_story(s: &Story) -> (r: Story)
    ensures
        r@ == s@,
{
    let mut pages: Vec<PageEntry> = Vec::new();
    let mut i: usize = 0;
    while i < s.pages.len()
        invariant
            0 <= i <= s.pages.len(),
            pages@.len() == i,
            forall|j: int| 0 <= j < i ==> (#[trigger] pages@[j])@ == s.pages@[j]@,
        decreases s.pages.len() - i,
    {
        let entry = &s.pages[i];
        let copied = PageEntry { id: entry.id.clone(), page: clone_page(&entry.page) };
        proof {
            assert(copied@ =~= entry@);
        }
        pages.push(copied);
        i += 1;
    }
    let mut flags: Vec<FlagDefinition> = Vec::new();
    let mut k: usize = 0;
    while k < s.flags.len()
        invariant
            0 <= k <= s.flags.len(),
            flags@.len() == k,
            forall|j: int| 0 <= j < k ==> (#[trigger] flags@[j])@ == s.flags@[j]@,
        decreases s.flags.len() - k,
    {
        let fd = &s.flags[k];
        flags.push(FlagDefinition { id: fd.id.clone(), default: fd.default });
        k += 1;
    }
    let r = Story { start: s.start.clone(), pages, flags };
    proof {
        assert(r@.pages =~= s@.pages);
        assert(r@.flags =~= s@.flags);
        assert(r@ =~= s@);
    }
    r
}

// ---------------------------------------------------------------------------
// Flag table lemmas: overwriting the first entry of a name, or appending an
// entry for a name that has none, changes the lookup at that name alone; a
// table built from the flag declarations looks up to the declared defaults.
// ---------------------------------------------------------------------------

proof fn lemma_flag_val_update(fs: Seq<FlagStateV>, i: int, e: FlagStateV, id: Seq<char>)
    requires
        0 <= i < fs.len(),
        forall|j: int| 0 <= j < i ==> (#[trigger] fs[j]).id != e.id,
        fs[i].id == e.id,
    ensures
        flag_val(fs.update(i, e), id) == if id == e.id {
            Some(e.value)
        } else {
            flag_val(fs, id)
        },
    decreases i,
{
    let fs2 = fs.update(i, e);
    if i == 0 {
        if e.id != id {
            assert(fs2.drop_first() =~= fs.drop_first());
        }
    } else {
        assert(fs[0].id != e.id);
        if fs[0].id != id {
            assert(fs2.drop_first() =~= fs.drop_first().update(i - 1, e));
            lemma_flag_val_update(fs.drop_first(), i - 1, e, id);
        }
    }
}

proof fn lemma_flag_val_push(fs: Seq<FlagStateV>, e: FlagStateV, id: Seq<char>)
    requires
        forall|j: int| 0 <= j < fs.len() ==> (#[trigger] fs[j]).id != e.id,
    ensures
        flag_val(fs.push(e), id) == if id == e.id {
            Some(e.value)
        } else {
            flag_val(fs, id)
        },
    decreases fs.len(),
{
    if fs.len() == 0 {
        assert(fs.push(e)[0] == e);
        assert(fs.push(e).drop_first() =~= Seq::<FlagStateV>::empty());
    } else {
        assert(fs.push(e)[0] == fs[0]);
        if fs[0].id != id {
            assert(fs.push(e).drop_first() =~= fs.drop_first().push(e));
            lemma_flag_val_push(fs.drop_first(), e, id);
        }
    }
}

proof fn lemma_flag_defaults(fs: Seq<FlagStateV>, defs: Seq<FlagDefinitionV>, id: Seq<char>)
    requires
        fs.len() == defs.len(),
        forall|j: int|
            0 <= j < fs.len() ==> (#[trigger] fs[j]).id == defs[j].id && fs[j].value
                == defs[j].default,
    ensures
        flag_val(fs, id) == default_flag_val(defs, id),
    decreases fs.len(),
{
    if fs.len() > 0 && fs[0].id != id {
        lemma_flag_defaults(fs.drop_first(), defs.drop_first(), id);
    }
}

impl Game {
    /// The engine's standing invariant: the current page identifier is always
    /// a key of the page table, established at construction and preserved by
    /// every successful transition.
    pub open spec fn wf(self) -> bool {
        has_page(self@.story.pages, self@.state.current_page)
    }

    /// The page the session currently stands on.
    pub open spec fn cur_page(self) -> PageV
        recommends
            self.wf(),
    {
        find_page(self@.story.pages, self@.state.current_page)->Some_0
    }

    /// The choices of the current page that are visible under the live flag
    /// state, in original order: the sequence players index into.
    pub open spec fn visible_now(self) -> Seq<ChoiceV> {
        visible_choices(self@.state.flags, self.cur_page().choices)
    }

    /// Starts a session on `story`. Fails iff the story's entry page is not
    /// declared; on success the session stands on the entry page and every
    /// declared flag carries its default value.
    pub fn new(story: &Story) -> (r: Result<Game, GameError>)
        ensures
            r is Ok <==> has_page(story@.pages, story@.start),
            r matches Ok(g) ==> {
                &&& g.wf()
                &&& g@.story == story@
                &&& g@.state.current_page == story@.start
                &&& forall|id: Seq<char>|
                    flag_val(g@.state.flags, id) == default_flag_val(story@.flags, id)
            },
            r matches Err(e) ==> e is PageNotFound,
    {
        if !page_exists(&story.pages, &story.start) {
            return Err(GameError::PageNotFound(story.start.clone()));
        }
        let mut flags: Vec<FlagState> = Vec::new();
        let mut i: usize = 0;
        while i < story.flags.len()
            invariant
                0 <= i <= story.flags.len(),
                flags@.len() == i,
                forall|j: int|
                    0 <= j < i ==> (#[trigger] flags@[j])@.id == story.flags@[j]@.id && flags@[j]@.value
                        == story.flags@[j]@.default,
            decreases story.flags.len() - i,
        {
            let fd = &story.flags[i];
            flags.push(FlagState { id: fd.id.clone(), value: fd.default });
            i += 1;
        }
        let game = Game {
            story: clone_story(story),
            state: GameState { current_page: story.start.clone(), flags },
        };
        proof {
            assert(game@.state.flags.len() == story@.flags.len());
            assert forall|id: Seq<char>|
                flag_val(game@.state.flags, id) == default_flag_val(story@.flags, id) by {
                lemma_flag_defaults(game@.state.flags, story@.flags, id);
            }
        }
        Ok(game)
    }

    /// The page stored under `page_id`, if any.
    fn get_page<'a>(&'a self, page_id: &PageId) -> (r: Option<&'a Page>)
        ensures
            match find_page(self@.story.pages, page_id@) {
                Some(pv) => r matches Some(p) && p.deep_view() == pv,
                None => r is None,
            },
    {
        let ghost pv = self@.story.pages;
        let mut i: usize = 0;
        while i < self.story.pages.len()
            invariant
                0 <= i <= self.story.pages.len(),
                pv == self@.story.pages,
                pv.len() == self.story.pages.len(),
                forall|j: int| 0 <= j < i ==> (#[trigger] pv[j]).id != page_id@,
            decreases self.story.pages.len() - i,
        {
            if self.story.pages[i].id == *page_id {
                proof {
                    lemma_find_page_skip(pv, page_id@, i as int);
                    assert(pv.skip(i as int)[0] == pv[i as int]);
                }
                return Some(&self.story.pages[i].page);
            }
            i += 1;
        }
        proof {
            lemma_find_page_skip(pv, page_id@, pv.len() as int);
            assert(pv.skip(pv.len() as int) =~= Seq::<PageEntryV>::empty());
        }
        None
    }

    /// The live state of the flag named `flag_name`, if any.
    fn get_flag<'a>(&'a self, flag_name: &String) -> (r: Option<&'a FlagState>)
        ensures
            match flag_val(self@.state.flags, flag_name@) {
                Some(b) => r matches Some(f) && f.value == b,
                None => r is None,
            },
    {
        let ghost fv = self@.state.flags;
        let mut i: usize = 0;
        while i < self.state.flags.len()
            invariant
                0 <= i <= self.state.flags.len(),
                fv == self@.state.flags,
                fv.len() == self.state.flags.len(),
                forall|j: int| 0 <= j < i ==> (#[trigger] fv[j]).id != flag_name@,
            decreases self.state.flags.len() - i,
        {
            if self.state.flags[i].id == *flag_name {
                proof {
                    lemma_flag_val_skip(fv, flag_name@, i as int);
                    assert(fv.skip(i as int)[0] == fv[i as int]);
                }
                return Some(&self.state.flags[i]);
            }
            i += 1;
        }
        proof {
            lemma_flag_val_skip(fv, flag_name@, fv.len() as int);
            assert(fv.skip(fv.len() as int) =~= Seq::<FlagStateV>::empty());
        }
        None
    }

    /// Whether `choice` is visible under the live flag state: all of its
    /// conditions must hold; a choice with no conditions is always visible.
    fn is_choice_visible(&self, choice: &Choice) -> (r: bool)
        ensures
            r == choice_visible(self@.state.flags, choice@),
    {
        let mut i: usize = 0;
        while i < choice.conditions.len()
            invariant
                0 <= i <= choice.conditions.len(),
                forall|j: int|
                    0 <= j < i ==> condition_holds(
                        self@.state.flags,
                        #[trigger] choice@.conditions[j],
                    ),
            decreases choice.conditions.len() - i,
        {
            let holds: bool = match &choice.conditions[i].condition_type {
                ConditionType::Flag { flag_name, value } => match self.get_flag(flag_name) {
                    Some(f) => f.value == *value,
                    None => false,
                },
            };
            if !holds {
                proof {
                    assert(!condition_holds(self@.state.flags, choice@.conditions[i as int]));
                }
                return false;
            }
            i += 1;
        }
        true
    }

    /// The choices of the current page that are visible right now, freshly
    /// derived in original order; their positions are the indices players
    /// select by.
    fn get_choices(&self) -> (r: Vec<Choice>)
        requires
            self.wf(),
        ensures
            r.deep_view() == self.visible_now(),
    {
        let page = match self.get_page(&self.state.current_page) {
            Some(p) => p,
            None => {
                return Vec::new();
            },
        };
        let ghost flags = self@.state.flags;
        let ghost cvs = page.deep_view().choices;
        let ghost pred = |c: ChoiceV| choice_visible(flags, c);
        let mut r: Vec<Choice> = Vec::new();
        let mut i: usize = 0;
        proof {
            reveal(Seq::filter);
            assert(r.deep_view() =~= cvs.take(0).filter(pred));
        }
        while i < page.choices.len()
            invariant
                0 <= i <= page.choices.len(),
                flags == self@.state.flags,
                cvs == page.choices.deep_view(),
                cvs.len() == page.choices.len(),
                pred == (|c: ChoiceV| choice_visible(flags, c)),
                r.deep_view() == cvs.take(i as int).filter(pred),
            decreases page.choices.len() - i,
        {
            let ghost pre = r.deep_view();
            if self.is_choice_visible(&page.choices[i]) {
                r.push(clone_choice(&page.choices[i]));
                proof {
                    assert(r.deep_view() =~= pre.push(cvs[i as int]));
                }
            }
            proof {
                reveal(Seq::filter);
                assert(cvs.take(i + 1 as int).drop_last() =~= cvs.take(i as int));
                assert(cvs.take(i + 1 as int).last() == cvs[i as int]);
                assert(cvs.take(i + 1 as int).filter(pred) == if pred(cvs[i as int]) {
                    cvs.take(i as int).filter(pred).push(cvs[i as int])
                } else {
                    cvs.take(i as int).filter(pred)
                });
            }
            i += 1;
        }
        proof {
            assert(cvs.take(page.choices@.len() as int) =~= cvs);
        }
        r
    }

    /// Overwrites the live value of the flag named `flag_name`, creating the
    /// entry if the flag was never declared; no other flag changes.
    fn set_flag(&mut self, flag_name: &String, value: bool)
        ensures
            final(self)@.story == old(self)@.story,
            final(self)@.state.current_page == old(self)@.state.current_page,
            forall|id: Seq<char>|
                flag_val(final(self)@.state.flags, id) == if id == flag_name@ {
                    Some(value)
                } else {
                    flag_val(old(self)@.state.flags, id)
                },
    {
        let ghost fv = self@.state.flags;
        let entry = FlagState { id: flag_name.clone(), value };
        let mut i: usize = 0;
        while i < self.state.flags.len()
            invariant
                0 <= i <= self.state.flags.len(),
                self == old(self),
                fv == self@.state.flags,
                fv.len() == self.state.flags.len(),
                forall|j: int| 0 <= j < i ==> (#[trigger] fv[j]).id != flag_name@,
                entry@.id == flag_name@,
                entry@.value == value,
            decreases self.state.flags.len() - i,
        {
            if self.state.flags[i].id == *flag_name {
                self.state.flags[i] = entry;
                proof {
                    assert(self@.state.flags =~= fv.update(i as int, entry@));
                    assert forall|id: Seq<char>|
                        flag_val(self@.state.flags, id) == (if id == flag_name@ {
                            Some(value)
                        } else {
                            flag_val(old(self)@.state.flags, id)
                        }) by {
                        lemma_flag_val_update(fv, i as int, entry@, id);
                    }
                }
                return ;
            }
            i += 1;
        }
        self.state.flags.push(entry);
        proof {
            assert(self@.state.flags =~= fv.push(entry@));
            assert forall|id: Seq<char>|
                flag_val(self@.state.flags, id) == (if id == flag_name@ {
                    Some(value)
                } else {
                    flag_val(old(self)@.state.flags, id)
                }) by {
                lemma_flag_val_push(fv, entry@, id);
            }
        }
    }

    /// Applies one action to the live flag state, unconditionally.
    fn do_action(&mut self, action: &ActionType)
        ensures
            final(self)@.story == old(self)@.story,
            final(self)@.state.current_page == old(self)@.state.current_page,
            forall|id: Seq<char>|
                flag_val(final(self)@.state.flags, id) == apply_one(
                    action@,
                    id,
                    flag_val(old(self)@.state.flags, id),
                ),
    {
        match action {
            ActionType::EnableFlag(flag) => self.set_flag(flag, true),
            ActionType::DisableFlag(flag) => self.set_flag(flag, false),
        }
    }

    /// Takes the visible choice at `input` (an index into the visible
    /// sequence, not the raw page). Rejects an out-of-bounds index and a
    /// missing destination without touching any state; on success applies the
    /// choice's actions in declared order, moves to the destination page, and
    /// returns its content with the choices visible there under the new flag
    /// state.
    pub fn make_choice(&mut self, input: usize) -> (r: Result<Page, GameError>)
        requires
            old(self).wf(),
        ensures
            final(self).wf(),
            final(self)@.story == old(self)@.story,
            r is Ok <==> input < old(self).visible_now().len() && has_page(
                old(self)@.story.pages,
                old(self).visible_now()[input as int].to,
            ),
            r is Err ==> final(self)@ == old(self)@,
            input >= old(self).visible_now().len() ==> (r matches Err(e) && e matches
                GameError::ChoiceNotFound(ix) && ix == input),
            input < old(self).visible_now().len() && !has_page(
                old(self)@.story.pages,
                old(self).visible_now()[input as int].to,
            ) ==> (r matches Err(e) && e matches GameError::NextPageNotFound(s) && s@ == old(
                self,
            ).visible_now()[input as int].to),
            r matches Ok(p) ==> ({
                let chosen = old(self).visible_now()[input as int];
                let dest = find_page(old(self)@.story.pages, chosen.to)->Some_0;
                &&& final(self)@.state.current_page == chosen.to
                &&& forall|id: Seq<char>|
                    flag_val(final(self)@.state.flags, id) == action_result(
                        chosen.actions,
                        id,
                        flag_val(old(self)@.state.flags, id),
                    )
                &&& p@.content == dest.content
                &&& p@.choices == visible_choices(final(self)@.state.flags, dest.choices)
            }),
    {
        let choices = self.get_choices();
        if input >= choices.len() {
            return Err(GameError::ChoiceNotFound(input));
        }
        let next_choice = &choices[input];
        let ghost chosen = old(self).visible_now()[input as int];
        proof {
            assert(next_choice.deep_view() == chosen);
        }
        let dest_content: String = match self.get_page(&next_choice.to) {
            Some(p) => p.content.clone(),
            None => {
                return Err(GameError::NextPageNotFound(next_choice.to.clone()));
            },
        };
        let ghost pre = self@;
        let ghost cav = chosen.actions;
        let mut k: usize = 0;
        while k < next_choice.actions.len()
            invariant
                0 <= k <= next_choice.actions.len(),
                self@.story == pre.story,
                self@.state.current_page == pre.state.current_page,
                cav == next_choice.deep_view().actions,
                cav.len() == next_choice.actions.len(),
                forall|id: Seq<char>|
                    flag_val(self@.state.flags, id) == action_result(
                        cav.take(k as int),
                        id,
                        flag_val(pre.state.flags, id),
                    ),
            decreases next_choice.actions.len() - k,
        {
            proof {
                assert(cav.take(k + 1 as int).drop_last() =~= cav.take(k as int));
                assert(cav.take(k + 1 as int).last() == cav[k as int]);
            }
            self.do_action(&next_choice.actions[k].action_type);
            k += 1;
        }
        proof {
            assert(cav.take(k as int) =~= cav);
            assert(forall|id: Seq<char>|
                flag_val(self@.state.flags, id) == action_result(
                    chosen.actions,
                    id,
                    flag_val(old(self)@.state.flags, id),
                ));
        }
        self.state.current_page = next_choice.to.clone();
        let visible = self.get_choices();
        Ok(Page { content: dest_content, choices: visible })
    }

    /// The current page as the player sees it: its content and the choices
    /// visible under the live flag state, freshly derived on every call.
    pub fn get_current_page(&self) -> (r: Option<Page>)
        requires
            self.wf(),
        ensures
            r matches Some(p) && p@.content == self.cur_page().content && p@.choices
                == self.visible_now(),
    {
        let source_page = match self.get_page(&self.state.current_page) {
            Some(p) => p,
            None => {
                return None;
            },
        };
        let content = source_page.content.clone();
        let visible = self.get_choices();
        Some(Page { content, choices: visible })
    }
}

} // verus!

