//! Structural validation of a story before play begins.

use vstd::prelude::*;

verus! {

use crate::game::Story;
use crate::game::has_page;
use crate::game::page_exists;
use crate::game::story_valid;
use crate::views::StoryV;

/// Every choice of the page at table position `i` points at a declared page.
pub open spec fn page_choices_resolve(s: StoryV, i: int) -> bool {
    forall|j: int|
        0 <= j < s.pages[i].page.choices.len() ==> has_page(
            s.pages,
            #[trigger] s.pages[i].page.choices[j].to,
        )
}

/// `e` names the first page, in table order, holding a choice whose
/// destination is not declared; every earlier page is clean.
pub open spec fn names_first_invalid_page(s: StoryV, e: Seq<char>) -> bool {
    exists|i: int|
        0 <= i < s.pages.len() && (#[trigger] s.pages[i]).id == e && !page_choices_resolve(s, i)
            && (forall|i2: int| 0 <= i2 < i ==> page_choices_resolve(s, i2))
}

/// Walks every page and every choice in order; fails on the first page that
/// holds a choice whose destination is not declared, naming that page.
fn validate_paths(story: &Story) -> (r: Result<(), String>)
    ensures
        r is Ok <==> story_valid(story@),
        r matches Err(e) ==> names_first_invalid_page(story@, e@),
{
    let ghost sv = story@;
    let n_pages: usize = story.pages.len();
    let mut i: usize = 0;
    while i < n_pages
        invariant
            0 <= i <= n_pages,
            sv == story@,
            n_pages == sv.pages.len(),
            forall|pi: int, j: int|
                0 <= pi < i && 0 <= j < (#[trigger] sv.pages[pi]).page.choices.len() ==> has_page(
                    sv.pages,
                    #[trigger] sv.pages[pi].page.choices[j].to,
                ),
        decreases n_pages - i,
    {
        let entry = &story.pages[i];
        let n_choices: usize = entry.page.choices.len();
        let mut j: usize = 0;
        while j < n_choices
            invariant
                0 <= j <= n_choices,
                sv == story@,
                n_pages == sv.pages.len(),
                0 <= i < n_pages,
                entry == story.pages[i as int],
                n_choices == sv.pages[i as int].page.choices.len(),
                forall|pi: int, cj: int|
                    0 <= pi < i && 0 <= cj < (#[trigger] sv.pages[pi]).page.choices.len()
                        ==> has_page(sv.pages, #[trigger] sv.pages[pi].page.choices[cj].to),
                forall|cj: int|
                    0 <= cj < j ==> has_page(
                        sv.pages,
                        #[trigger] sv.pages[i as int].page.choices[cj].to,
                    ),
            decreases n_choices - j,
        {
            let choice = &entry.page.choices[j];
            if !page_exists(&story.pages, &choice.to) {
                proof {
                    assert(sv.pages[i as int] == entry.deep_view());
                    assert(sv.pages[i as int].page.choices[j as int] == choice.deep_view());
                    assert(!has_page(sv.pages, sv.pages[i as int].page.choices[j as int].to));
                    assert(!page_choices_resolve(sv, i as int));
                    assert(forall|i2: int| 0 <= i2 < i ==> page_choices_resolve(sv, i2));
                }
                return Err(entry.id.clone());
            }
            j += 1;
        }
        i += 1;
    }
    Ok(())
}

/// Validates that the story's graph is structurally sound: every choice of
/// every page points at a declared page. On failure the error names the first
/// page, in table order, that holds an offending choice.
pub fn validate_story(story: &Story) -> (r: Result<(), String>)
    ensures
        r is Ok <==> story_valid(story@),
        r matches Err(e) ==> names_first_invalid_page(story@, e@),
{
    validate_paths(story)
}

} // verus!
