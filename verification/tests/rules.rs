use tile_rules::grid::Grid;
use tile_rules::iterations::GridIterations;
use tile_rules::picker::{next_color, ColorPickerButton, EditorTileColor};
use tile_rules::pool::{calculate_color_pool, color_codes};
use tile_rules::rule::Rule;
use tile_rules::rules::PlayerRules;
use tile_rules::tile::Tile;

fn marked_rule(result: Tile) -> Rule {
    Rule {
        tiles: [Some(result), None],
        invert: true,
        mask: [false, true, false, true, false, true, false, true],
        changed: [false; 8],
        result: Some(result),
    }
}

fn assert_same_rule(a: &Rule, b: &Rule) {
    assert_eq!(a.tiles, b.tiles);
    assert_eq!(a.invert, b.invert);
    assert_eq!(a.mask, b.mask);
    assert_eq!(a.changed, b.changed);
    assert_eq!(a.result, b.result);
}

fn session_of(current: Grid, goal: Grid) -> GridIterations {
    GridIterations { grid: vec![current], goal, max: 50 }
}

#[test]
fn default_rule_looks_everywhere_for_nothing() {
    let rule = Rule::default();
    assert_eq!(rule.tiles, [None, None]);
    assert!(!rule.invert);
    assert_eq!(rule.mask, [true; 8]);
    assert_eq!(rule.changed, [false; 8]);
    assert_eq!(rule.result, None);
}

#[test]
fn new_rule_set_has_no_rules() {
    let rules = PlayerRules::default();
    for tile in Tile::all() {
        assert!(!rules.has_rule(tile));
        assert!(rules.rule(tile).is_none());
    }
    assert!(rules.color_pool.is_empty());
    assert!(rules.ruled_tiles().is_empty());
}

#[test]
fn set_rule_stores_under_the_tile() {
    let mut rules = PlayerRules::default();
    assert!(rules.set_rule(Tile::Blue, marked_rule(Tile::Pink)).is_none());
    assert!(rules.has_rule(Tile::Blue));
    assert!(!rules.has_rule(Tile::Pink));
    assert_same_rule(&rules.rule(Tile::Blue).unwrap(), &marked_rule(Tile::Pink));
    let previous = rules.set_rule(Tile::Blue, marked_rule(Tile::Red)).unwrap();
    assert_same_rule(&previous, &marked_rule(Tile::Pink));
    assert_same_rule(&rules.rule(Tile::Blue).unwrap(), &marked_rule(Tile::Red));
    rules.set_rule(Tile::Empty, Rule::default());
    assert_same_rule(&rules.rule(Tile::Empty).unwrap(), &Rule::default());
    assert_same_rule(&rules.rule(Tile::Blue).unwrap(), &marked_rule(Tile::Red));
}

#[test]
fn ruled_tiles_come_in_code_order() {
    let mut rules = PlayerRules::default();
    rules.set_rule(Tile::Pink, Rule::default());
    rules.set_rule(Tile::Red, Rule::default());
    rules.set_rule(Tile::Empty, Rule::default());
    rules.set_rule(Tile::Yellow, Rule::default());
    assert_eq!(rules.ruled_tiles(), vec![Tile::Red, Tile::Yellow, Tile::Pink, Tile::Empty]);
}

#[test]
fn paint_gesture_flips_each_position_once() {
    let mut rule = Rule::default();
    assert!(rule.paint_mask(3));
    assert_eq!(rule.mask, [true, true, true, false, true, true, true, true]);
    assert_eq!(rule.changed, [false, false, false, true, false, false, false, false]);
    assert!(!rule.paint_mask(3));
    assert_eq!(rule.mask, [true, true, true, false, true, true, true, true]);
    assert!(rule.paint_mask(0));
    assert_eq!(rule.mask, [false, true, true, false, true, true, true, true]);
    rule.clear_changed();
    assert_eq!(rule.changed, [false; 8]);
    assert_eq!(rule.mask, [false, true, true, false, true, true, true, true]);
    assert!(rule.paint_mask(3));
    assert_eq!(rule.mask, [false, true, true, true, true, true, true, true]);
}

#[test]
fn edits_reach_the_stored_rule() {
    let mut rules = PlayerRules::default();
    rules.set_rule(Tile::Green, Rule::default());
    rules.set_rule(Tile::Red, Rule::default());

    rules.toggle_invert(Tile::Green);
    assert!(rules.rule(Tile::Green).unwrap().invert);
    assert!(!rules.rule(Tile::Red).unwrap().invert);
    rules.toggle_invert(Tile::Green);
    assert!(!rules.rule(Tile::Green).unwrap().invert);

    rules.paint_mask(Tile::Green, 7);
    rules.paint_mask(Tile::Green, 7);
    let green = rules.rule(Tile::Green).unwrap();
    assert_eq!(green.mask, [true, true, true, true, true, true, true, false]);
    assert_eq!(green.changed, [false, false, false, false, false, false, false, true]);
    assert_eq!(rules.rule(Tile::Red).unwrap().mask, [true; 8]);

    rules.paint_mask(Tile::Red, 0);
    rules.clear_changed();
    assert_eq!(rules.rule(Tile::Green).unwrap().changed, [false; 8]);
    assert_eq!(rules.rule(Tile::Red).unwrap().changed, [false; 8]);
    assert_eq!(
        rules.rule(Tile::Green).unwrap().mask,
        [true, true, true, true, true, true, true, false]
    );
    assert_eq!(
        rules.rule(Tile::Red).unwrap().mask,
        [false, true, true, true, true, true, true, true]
    );

    rules.set_slot(Tile::Green, 0, Some(Tile::Pink));
    rules.set_slot(Tile::Green, 1, Some(Tile::Brown));
    rules.set_slot(Tile::Green, 2, Some(Tile::Blue));
    rules.set_slot(Tile::Green, 3, Some(Tile::Red));
    let green = rules.rule(Tile::Green).unwrap();
    assert_eq!(green.tiles, [Some(Tile::Pink), Some(Tile::Brown)]);
    assert_eq!(green.result, Some(Tile::Blue));

    rules.reset_rule(Tile::Green);
    assert_same_rule(&rules.rule(Tile::Green).unwrap(), &Rule::default());
    assert_eq!(
        rules.rule(Tile::Red).unwrap().mask,
        [false, true, true, true, true, true, true, true]
    );
}

#[test]
fn edits_of_a_tile_without_rule_change_nothing() {
    let mut rules = PlayerRules::default();
    rules.set_rule(Tile::Red, marked_rule(Tile::Blue));
    rules.toggle_invert(Tile::Green);
    rules.paint_mask(Tile::Green, 1);
    rules.reset_rule(Tile::Green);
    rules.set_slot(Tile::Green, 0, Some(Tile::Red));
    assert!(!rules.has_rule(Tile::Green));
    assert_same_rule(&rules.rule(Tile::Red).unwrap(), &marked_rule(Tile::Blue));
    assert_eq!(rules.ruled_tiles(), vec![Tile::Red]);
}

#[test]
fn pool_codes_are_sorted_and_unique() {
    assert_eq!(color_codes(&vec![3, 1, 3, 0], &vec![5, 1, 1, 200]), vec![0, 1, 3, 5, 200]);
    assert_eq!(color_codes(&vec![], &vec![]), Vec::<u8>::new());
    assert_eq!(color_codes(&vec![255, 0], &vec![]), vec![0, 255]);
    assert_eq!(color_codes(&vec![7; 9], &vec![7; 9]), vec![7]);
}

#[test]
fn pool_gives_every_colour_in_play_one_rule() {
    let iterations = session_of(vec![0, 1, 1, 0], vec![2, 2, 0, 0]);
    let mut rules = PlayerRules::default();
    calculate_color_pool(&iterations, &mut rules);
    assert_eq!(rules.ruled_tiles(), vec![Tile::Red, Tile::Green, Tile::Blue]);
    for tile in [Tile::Red, Tile::Green, Tile::Blue] {
        assert_same_rule(&rules.rule(tile).unwrap(), &Rule::default());
    }
    assert_eq!(
        rules.color_pool,
        vec![Some(Tile::Red), Some(Tile::Green), Some(Tile::Blue), None]
    );
}

#[test]
fn pool_drops_rules_of_absent_colours_and_keeps_the_others() {
    let mut rules = PlayerRules::default();
    rules.set_rule(Tile::Red, marked_rule(Tile::Green));
    rules.set_rule(Tile::Pink, marked_rule(Tile::Red));
    rules.set_rule(Tile::Blue, marked_rule(Tile::Blue));
    rules.color_pool = vec![Some(Tile::Pink), None, None];
    let iterations = session_of(vec![0, 0, 0, 3], vec![2, 2, 2, 2]);
    calculate_color_pool(&iterations, &mut rules);
    assert_eq!(rules.ruled_tiles(), vec![Tile::Red, Tile::Blue, Tile::Yellow]);
    assert_same_rule(&rules.rule(Tile::Red).unwrap(), &marked_rule(Tile::Green));
    assert_same_rule(&rules.rule(Tile::Blue).unwrap(), &marked_rule(Tile::Blue));
    assert_same_rule(&rules.rule(Tile::Yellow).unwrap(), &Rule::default());
    assert!(!rules.has_rule(Tile::Pink));
    assert_eq!(
        rules.color_pool,
        vec![Some(Tile::Red), Some(Tile::Blue), Some(Tile::Yellow), None]
    );
    // bringing it in line once more changes nothing
    calculate_color_pool(&iterations, &mut rules);
    assert_eq!(rules.ruled_tiles(), vec![Tile::Red, Tile::Blue, Tile::Yellow]);
    assert_same_rule(&rules.rule(Tile::Red).unwrap(), &marked_rule(Tile::Green));
}

#[test]
fn stored_rules_are_exactly_the_rules_by_tile() {
    let mut rules = PlayerRules::default();
    assert_eq!(rules.rules.len(), 0);
    rules.set_rule(Tile::Red, marked_rule(Tile::Green));
    rules.set_rule(Tile::Pink, marked_rule(Tile::Red));
    rules.set_rule(Tile::Empty, marked_rule(Tile::Blue));
    rules.set_rule(Tile::Red, marked_rule(Tile::Blue));
    let mut keys: Vec<u8> = rules.rules.keys().copied().collect();
    keys.sort();
    assert_eq!(keys, vec![0, 7, 8]);

    let iterations = session_of(vec![0, 200, 9, 3], vec![2, 2, 2, 2]);
    calculate_color_pool(&iterations, &mut rules);
    rules.toggle_invert(Tile::Red);
    rules.paint_mask(Tile::Yellow, 2);
    rules.reset_rule(Tile::Blue);
    rules.set_slot(Tile::Empty, 0, None);
    rules.clear_changed();
    let mut keys: Vec<u8> = rules.rules.keys().copied().collect();
    keys.sort();
    assert_eq!(keys, vec![0, 2, 3, 8]);
    let codes: Vec<u8> = rules.ruled_tiles().iter().map(|tile| tile.code()).collect();
    assert_eq!(keys, codes);
}

#[test]
fn pool_uses_the_last_generation() {
    let iterations = GridIterations { grid: vec![vec![5; 4], vec![6; 4]], goal: vec![6; 4], max: 50 };
    let mut rules = PlayerRules::default();
    calculate_color_pool(&iterations, &mut rules);
    assert_eq!(rules.ruled_tiles(), vec![Tile::Brown]);
    assert_eq!(rules.color_pool, vec![Some(Tile::Brown), None]);
}

#[test]
fn pool_reads_codes_past_the_palette_as_empty() {
    let mut rules = PlayerRules::default();
    rules.set_rule(Tile::Empty, marked_rule(Tile::Red));
    let iterations = session_of(vec![9, 200, 0, 0], vec![0; 4]);
    calculate_color_pool(&iterations, &mut rules);
    assert_eq!(rules.ruled_tiles(), vec![Tile::Red, Tile::Empty]);
    // the code of the empty tile itself is not in play, so its rule starts over
    assert_same_rule(&rules.rule(Tile::Empty).unwrap(), &Rule::default());
    assert_eq!(
        rules.color_pool,
        vec![Some(Tile::Red), Some(Tile::Empty), Some(Tile::Empty), None]
    );

    let mut kept = PlayerRules::default();
    kept.set_rule(Tile::Empty, marked_rule(Tile::Red));
    let iterations = session_of(vec![8, 200, 0, 0], vec![0; 4]);
    calculate_color_pool(&iterations, &mut kept);
    assert_same_rule(&kept.rule(Tile::Empty).unwrap(), &marked_rule(Tile::Red));
}

#[test]
fn picker_cycles_through_the_pool() {
    let pool = vec![Some(Tile::Red), Some(Tile::Blue), None];
    assert_eq!(next_color(&pool, Some(Tile::Red)), Some(Tile::Blue));
    assert_eq!(next_color(&pool, Some(Tile::Blue)), None);
    assert_eq!(next_color(&pool, None), Some(Tile::Red));
    assert_eq!(next_color(&pool, Some(Tile::Pink)), Some(Tile::Red));
    assert_eq!(next_color(&[Some(Tile::Pink)], Some(Tile::Pink)), Some(Tile::Pink));
    // only the first occurrence counts
    let repeated = vec![Some(Tile::Empty), Some(Tile::Red), Some(Tile::Empty), None];
    assert_eq!(next_color(&repeated, Some(Tile::Empty)), Some(Tile::Red));

    let mut button = ColorPickerButton { tile: Tile::Green, index: 2, color: None };
    assert_eq!(button.change_color(&pool), Some(Tile::Red));
    assert_eq!(button.color, Some(Tile::Red));
    assert_eq!(button.change_color(&pool), Some(Tile::Blue));
    assert_eq!(button.change_color(&pool), None);
    assert_eq!(button.change_color(&pool), Some(Tile::Red));
    assert_eq!(button.tile, Tile::Green);
    assert_eq!(button.index, 2);

    let mut cell = EditorTileColor { index: 5, color: Some(Tile::Blue) };
    assert_eq!(cell.change_color(&pool), None);
    assert_eq!(cell.color, None);
    assert_eq!(cell.index, 5);
}
