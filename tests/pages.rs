use jpcd_yew::cell::Cell;
use jpcd_yew::conway::{Conway, Msg, GRID_HEIGHT, GRID_WIDTH};
use jpcd_yew::sorting::{generate_random, Algorithm, Msg as SortMsg, Sorting};
use jpcd_yew::universe::Universe;

#[test]
fn conway_starts_stopped_on_seed() {
    let page = Conway::new();
    assert!(!page.is_active());
    assert_eq!(page.universe().width(), GRID_WIDTH);
    assert_eq!(page.universe().height(), GRID_HEIGHT);
    assert_eq!(page.universe().cells(), Universe::new(53, 40).cells());
}

#[test]
fn conway_ticks_only_while_active() {
    let mut page = Conway::new();
    let seed = page.universe().cells().to_vec();
    assert!(!page.update(Msg::Tick));
    assert_eq!(page.universe().cells(), &seed[..]);
    assert!(!page.update(Msg::Start));
    assert!(page.is_active());
    assert!(page.update(Msg::Tick));
    let mut expected = Universe::new(53, 40);
    expected.tick();
    assert_eq!(page.universe().cells(), expected.cells());
    assert!(!page.update(Msg::Stop));
    assert!(!page.is_active());
    assert!(!page.update(Msg::Tick));
    assert_eq!(page.universe().cells(), expected.cells());
}

#[test]
fn conway_toggle_and_reset() {
    let mut page = Conway::new();
    // The message names column 1, row 0.
    let before = page.universe().get(0, 1);
    let other = page.universe().get(1, 0);
    assert!(page.update(Msg::ToggleCell((1, 0))));
    assert_eq!(page.universe().get(0, 1), before.toggled());
    assert_eq!(page.universe().get(1, 0), other);
    // Column 45 lies inside the 53-wide grid even though 45 >= 40 rows.
    let far = page.universe().get(0, 45);
    assert!(page.update(Msg::ToggleCell((45, 0))));
    assert_eq!(page.universe().get(0, 45), far.toggled());
    assert!(page.update(Msg::Reset));
    assert_eq!(page.universe().cells(), Universe::new(53, 40).cells());
    assert_eq!(page.universe().get(0, 0), Cell::Alive);
}

#[test]
fn sorting_values_are_in_range() {
    let page = Sorting::new(Algorithm::Insertion, 200);
    assert_eq!(page.alg(), Algorithm::Insertion);
    assert!(!page.is_active());
    assert_eq!(page.values().len(), 200);
    assert!(page.values().iter().all(|v| *v < 400));
}

#[test]
fn sorting_update_changes_nothing() {
    let mut page = Sorting::new(Algorithm::Selection, 10);
    let before = page.values().to_vec();
    assert!(!page.update(SortMsg::Tick));
    assert!(!page.update(SortMsg::Start));
    assert_eq!(page.values(), &before[..]);
    assert!(!page.is_active());
}

#[test]
fn generate_random_sizes() {
    assert!(generate_random(0).is_empty());
    let one = generate_random(1);
    assert_eq!(one.len(), 1);
    assert!(one[0] < 2);
    assert!(generate_random(50).iter().all(|v| *v < 100));
}
