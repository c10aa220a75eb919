use cyoa::game::Action;
use cyoa::game::ActionType;
use cyoa::game::Choice;
use cyoa::game::Condition;
use cyoa::game::ConditionType;
use cyoa::game::FlagDefinition;
use cyoa::game::Game;
use cyoa::game::GameError;
use cyoa::game::Page;
use cyoa::game::PageEntry;
use cyoa::game::Story;

fn plain_choice(text: &str, to: &str) -> Choice {
    Choice {
        text: text.to_string(),
        to: to.to_string(),
        actions: vec![],
        conditions: vec![],
    }
}

fn flag_condition(flag_name: &str, value: bool) -> Condition {
    Condition {
        condition_type: ConditionType::Flag {
            flag_name: flag_name.to_string(),
            value,
        },
    }
}

fn enable(flag: &str) -> Action {
    Action {
        action_type: ActionType::EnableFlag(flag.to_string()),
    }
}

fn disable(flag: &str) -> Action {
    Action {
        action_type: ActionType::DisableFlag(flag.to_string()),
    }
}

fn entry(id: &str, content: &str, choices: Vec<Choice>) -> PageEntry {
    PageEntry {
        id: id.to_string(),
        page: Page {
            content: content.to_string(),
            choices,
        },
    }
}

fn get_test_story() -> Story {
    Story {
        start: String::from("page1"),
        flags: vec![FlagDefinition {
            id: "flag1".to_string(),
            default: false,
        }],
        pages: vec![
            entry(
                "page1",
                "page 1",
                vec![plain_choice("to page 2", "page2"), {
                    let mut c = plain_choice("to page 3", "page3");
                    c.actions = vec![enable("flag1")];
                    c
                }],
            ),
            entry("page2", "page 2", vec![plain_choice("to page 4", "page4")]),
            entry("page3", "page 3", vec![plain_choice("to page 4", "page4")]),
            entry("page4", "page 4", vec![{
                let mut c = plain_choice("to page 5", "page5");
                c.conditions = vec![flag_condition("flag1", true)];
                c
            }]),
            entry("page5", "page 5", vec![]),
        ],
    }
}

#[test]
fn test_basic_story_progression() -> Result<(), GameError> {
    let story = get_test_story();
    let mut game = Game::new(&story)?;

    assert_eq!(game.get_current_page().unwrap().content, "page 1");
    assert_eq!(game.get_current_page().unwrap().choices.len(), 2);

    game.make_choice(0)?;

    assert_eq!(game.get_current_page().unwrap().content, "page 2");
    assert_eq!(game.get_current_page().unwrap().choices.len(), 1);

    game.make_choice(0)?;

    assert_eq!(game.get_current_page().unwrap().content, "page 4");
    assert_eq!(game.get_current_page().unwrap().choices.len(), 0);

    Ok(())
}

#[test]
fn test_story_progression_with_flag() -> Result<(), GameError> {
    let story = get_test_story();
    let mut game = Game::new(&story)?;

    assert_eq!(game.get_current_page().unwrap().content, "page 1");
    assert_eq!(game.get_current_page().unwrap().choices.len(), 2);

    game.make_choice(1)?;

    assert_eq!(game.get_current_page().unwrap().content, "page 3");
    assert_eq!(game.get_current_page().unwrap().choices.len(), 1);

    game.make_choice(0)?;

    assert_eq!(game.get_current_page().unwrap().content, "page 4");
    assert_eq!(game.get_current_page().unwrap().choices.len(), 1);

    game.make_choice(0)?;

    assert_eq!(game.get_current_page().unwrap().content, "page 5");
    assert_eq!(game.get_current_page().unwrap().choices.len(), 0);

    Ok(())
}

#[test]
fn new_fails_when_start_missing() {
    let story = Story {
        start: "nowhere".to_string(),
        flags: vec![],
        pages: vec![entry("page1", "page 1", vec![])],
    };
    let result = Game::new(&story);
    assert!(matches!(result, Err(GameError::PageNotFound(_))));
}

#[test]
fn new_applies_flag_defaults() -> Result<(), GameError> {
    // A flag defaulting to true makes a choice gated on it visible at once;
    // one defaulting to false keeps its gated choice hidden.
    let story = Story {
        start: "p".to_string(),
        flags: vec![
            FlagDefinition {
                id: "on".to_string(),
                default: true,
            },
            FlagDefinition {
                id: "off".to_string(),
                default: false,
            },
        ],
        pages: vec![
            entry("p", "start", vec![
                {
                    let mut c = plain_choice("needs on", "q");
                    c.conditions = vec![flag_condition("on", true)];
                    c
                },
                {
                    let mut c = plain_choice("needs off", "q");
                    c.conditions = vec![flag_condition("off", true)];
                    c
                },
            ]),
            entry("q", "end", vec![]),
        ],
    };
    let game = Game::new(&story)?;
    let page = game.get_current_page().unwrap();
    assert_eq!(page.choices.len(), 1);
    assert_eq!(page.choices[0].text, "needs on");
    Ok(())
}

#[test]
fn choice_on_undeclared_flag_is_hidden() -> Result<(), GameError> {
    let story = Story {
        start: "p".to_string(),
        flags: vec![],
        pages: vec![
            entry("p", "start", vec![{
                let mut c = plain_choice("ghost gate", "q");
                c.conditions = vec![flag_condition("never_declared", false)];
                c
            }]),
            entry("q", "end", vec![]),
        ],
    };
    let game = Game::new(&story)?;
    assert_eq!(game.get_current_page().unwrap().choices.len(), 0);
    Ok(())
}

#[test]
fn rejected_index_leaves_state_unchanged() -> Result<(), GameError> {
    let story = get_test_story();
    let mut game = Game::new(&story)?;
    let before = game.get_current_page().unwrap();

    let result = game.make_choice(5);
    assert!(matches!(result, Err(GameError::ChoiceNotFound(5))));

    let after = game.get_current_page().unwrap();
    assert_eq!(after.content, before.content);
    assert_eq!(after.choices.len(), before.choices.len());
    for (a, b) in after.choices.iter().zip(before.choices.iter()) {
        assert_eq!(a.text, b.text);
        assert_eq!(a.to, b.to);
    }
    Ok(())
}

#[test]
fn missing_destination_leaves_state_unchanged() -> Result<(), GameError> {
    // The destination is re-checked at traversal time even though a validator
    // would have caught it, and the failed transition mutates nothing.
    let story = Story {
        start: "p".to_string(),
        flags: vec![],
        pages: vec![entry("p", "start", vec![plain_choice(
            "into the void",
            "missing",
        )])],
    };
    let mut game = Game::new(&story)?;
    let result = game.make_choice(0);
    assert!(matches!(result, Err(GameError::NextPageNotFound(ref s)) if s == "missing"));
    let page = game.get_current_page().unwrap();
    assert_eq!(page.content, "start");
    assert_eq!(page.choices.len(), 1);
    Ok(())
}

#[test]
fn actions_apply_in_declared_order() -> Result<(), GameError> {
    // Enabling and then disabling the same flag must leave it disabled: the
    // choice requiring the flag to be set stays hidden, the other one shows.
    let story = Story {
        start: "p".to_string(),
        flags: vec![FlagDefinition {
            id: "a".to_string(),
            default: true,
        }],
        pages: vec![
            entry("p", "start", vec![{
                let mut c = plain_choice("flip twice", "q");
                c.actions = vec![enable("a"), disable("a")];
                c
            }]),
            entry("q", "middle", vec![
                {
                    let mut c = plain_choice("needs a on", "r");
                    c.conditions = vec![flag_condition("a", true)];
                    c
                },
                {
                    let mut c = plain_choice("needs a off", "r");
                    c.conditions = vec![flag_condition("a", false)];
                    c
                },
            ]),
            entry("r", "end", vec![]),
        ],
    };
    let mut game = Game::new(&story)?;
    let page = game.make_choice(0)?;
    assert_eq!(page.content, "middle");
    assert_eq!(page.choices.len(), 1);
    assert_eq!(page.choices[0].text, "needs a off");
    Ok(())
}

#[test]
fn hidden_choices_reindex_the_visible_ones() -> Result<(), GameError> {
    // Three raw choices with the second hidden: two are reported, and index 1
    // selects the raw third choice.
    let story = Story {
        start: "p".to_string(),
        flags: vec![],
        pages: vec![
            entry("p", "start", vec![
                plain_choice("first", "a"),
                {
                    let mut c = plain_choice("second, hidden", "b");
                    c.conditions = vec![flag_condition("no_such_flag", true)];
                    c
                },
                plain_choice("third", "c"),
            ]),
            entry("a", "page a", vec![]),
            entry("b", "page b", vec![]),
            entry("c", "page c", vec![]),
        ],
    };
    let mut game = Game::new(&story)?;
    assert_eq!(game.get_current_page().unwrap().choices.len(), 2);
    let page = game.make_choice(1)?;
    assert_eq!(page.content, "page c");
    Ok(())
}

#[test]
fn flag_gated_route_reaches_the_end() -> Result<(), GameError> {
    // p1 -> (A to p2, B enabling f to p3), p3 -> (C gated on f to p4):
    // taking B and then C lands on p4.
    let story = Story {
        start: "p1".to_string(),
        flags: vec![FlagDefinition {
            id: "f".to_string(),
            default: false,
        }],
        pages: vec![
            entry("p1", "page one", vec![plain_choice("A", "p2"), {
                let mut c = plain_choice("B", "p3");
                c.actions = vec![enable("f")];
                c
            }]),
            entry("p2", "page two", vec![]),
            entry("p3", "page three", vec![{
                let mut c = plain_choice("C", "p4");
                c.conditions = vec![flag_condition("f", true)];
                c
            }]),
            entry("p4", "page four", vec![]),
        ],
    };
    let mut game = Game::new(&story)?;
    game.make_choice(1)?;
    assert_eq!(game.get_current_page().unwrap().content, "page three");
    game.make_choice(0)?;
    assert_eq!(game.get_current_page().unwrap().content, "page four");

    // Starting over and taking A instead: p2 declares no choices, so every
    // index is rejected.
    let mut game = Game::new(&story)?;
    game.make_choice(0)?;
    assert_eq!(game.get_current_page().unwrap().content, "page two");
    assert!(matches!(game.make_choice(0), Err(GameError::ChoiceNotFound(0))));
    assert!(matches!(game.make_choice(3), Err(GameError::ChoiceNotFound(3))));
    Ok(())
}

#[test]
fn make_choice_returns_the_destination_view() -> Result<(), GameError> {
    let story = get_test_story();
    let mut game = Game::new(&story)?;
    let page = game.make_choice(0)?;
    assert_eq!(page.content, "page 2");
    assert_eq!(page.choices.len(), 1);
    assert_eq!(page.choices[0].text, "to page 4");
    Ok(())
}
