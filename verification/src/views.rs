//! Mathematical views of the story model: each runtime type is mirrored by a
//! ghost type over `Seq`, and contracts speak of those.

use vstd::prelude::*;

verus! {

/// The deep view of a vector is its elements' views, position by position.
pub broadcast proof fn lemma_vec_deep_view<T: DeepView>(v: Vec<T>)
    ensures
        (#[trigger] v.deep_view()).len() == v@.len(),
        forall|i: int| 0 <= i < v@.len() ==> (#[trigger] v.deep_view()[i]) == v@[i].deep_view(),
{
}

#[verifier::ext_equal]
pub struct PageEntryV {
    pub id: Seq<char>,
    pub page: PageV,
}

#[verifier::ext_equal]
pub struct StoryV {
    pub start: Seq<char>,
    pub pages: Seq<PageEntryV>,
    pub flags: Seq<FlagDefinitionV>,
}

#[verifier::ext_equal]
pub struct FlagDefinitionV {
    pub id: Seq<char>,
    pub default: bool,
}

#[verifier::ext_equal]
pub struct FlagStateV {
    pub id: Seq<char>,
    pub value: bool,
}

#[verifier::ext_equal]
pub struct PageV {
    pub content: Seq<char>,
    pub choices: Seq<ChoiceV>,
}

#[verifier::ext_equal]
pub enum ActionTypeV {
    EnableFlag(Seq<char>),
    DisableFlag(Seq<char>),
}

#[verifier::ext_equal]
pub enum ConditionTypeV {
    Flag { flag_name: Seq<char>, value: bool },
}

#[verifier::ext_equal]
pub struct ChoiceV {
    pub text: Seq<char>,
    pub to: Seq<char>,
    pub actions: Seq<ActionTypeV>,
    pub conditions: Seq<ConditionTypeV>,
}

#[verifier::ext_equal]
pub struct GameStateV {
    pub current_page: Seq<char>,
    pub flags: Seq<FlagStateV>,
}

#[verifier::ext_equal]
pub struct GameV {
    pub story: StoryV,
    pub state: GameStateV,
}

} // verus!
