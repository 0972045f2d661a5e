use pie_catch::consts::{COORD_LIMIT, DIGITS_LOADED_AT_ONCE, PLATE_Y};
use pie_catch::digits::parse_digits;
use pie_catch::model::{Action, InputEvent, Model, Scene};
use pie_catch::pie::Pie;

/// A pie resting right on the plate at the given horizontal position, so
/// that the next tick catches it.
fn pie_on_plate(slices: u8, x: i64) -> Pie {
    Pie { slices, velocity: 0, x, y: PLATE_Y + 50 }
}

fn fresh_game(digit_text: &[u8]) -> Model {
    let mut m = Model::new();
    let a = m.event(InputEvent::Confirm);
    assert_eq!(a, Action::FetchDigits { start: 0, count: DIGITS_LOADED_AT_ONCE });
    let digits = parse_digits(&digit_text.to_vec()).unwrap();
    m.set_digits(digits);
    m
}

#[test]
fn update_outside_game_is_noop() {
    let mut m = Model::new();
    assert_eq!(m.scene, Scene::Start);
    m.update(0, 0);
    assert_eq!(m.scene, Scene::Start);
    assert_eq!(m.ticks, 0);
    assert_eq!(m.pies.len(), 0);
}

#[test]
fn confirm_starts_fresh_session() {
    let mut m = Model::new();
    m.event(InputEvent::PointerMoved(1234));
    assert_eq!(m.plate.x, 1234);
    let a = m.event(InputEvent::Confirm);
    assert_eq!(a, Action::FetchDigits { start: 0, count: DIGITS_LOADED_AT_ONCE });
    assert_eq!(m.scene, Scene::Game);
    assert_eq!(m.pies.len(), 0);
    assert_eq!(m.digit_idx, 0);
    assert_eq!(m.abs_digit_idx, 0);
    assert_eq!(m.plate.x, 0);
    assert_eq!(m.ticks, 0);
}

#[test]
fn confirm_during_game_does_nothing() {
    let mut m = fresh_game(b"314");
    let a = m.event(InputEvent::Confirm);
    assert_eq!(a, Action::Nothing);
    assert_eq!(m.scene, Scene::Game);
    assert_eq!(m.digits, vec![3, 1, 4]);
}

#[test]
fn cancel_quits_only_after_game_over() {
    let mut m = Model::new();
    assert_eq!(m.event(InputEvent::Cancel), Action::Nothing);
    let mut g = fresh_game(b"31");
    assert_eq!(g.event(InputEvent::Cancel), Action::Nothing);
    assert_eq!(g.scene, Scene::Game);
    g.add_pie(pie_on_plate(9, 0));
    g.update(0, 0);
    assert_eq!(g.scene, Scene::GameOver);
    assert_eq!(g.event(InputEvent::Cancel), Action::Quit);
}

#[test]
fn pointer_moves_plate_in_every_scene() {
    let mut m = fresh_game(b"31");
    m.event(InputEvent::PointerMoved(-777));
    assert_eq!(m.plate.x, -777);
    assert_eq!(m.scene, Scene::Game);
    m.add_pie(pie_on_plate(9, -777));
    m.update(0, 0);
    assert_eq!(m.scene, Scene::GameOver);
    m.event(InputEvent::PointerMoved(42));
    assert_eq!(m.plate.x, 42);
    assert_eq!(m.scene, Scene::GameOver);
}

#[test]
fn pointer_at_coordinate_bound() {
    let mut m = Model::new();
    assert_eq!(m.event(InputEvent::PointerMoved(COORD_LIMIT)), Action::Nothing);
    assert_eq!(m.plate.x, COORD_LIMIT);
    assert_eq!(m.event(InputEvent::PointerMoved(-COORD_LIMIT)), Action::Nothing);
    assert_eq!(m.plate.x, -COORD_LIMIT);
}

#[test]
fn matching_catches_advance_cursor() {
    let mut m = fresh_game(b"314");
    m.add_pie(pie_on_plate(3, 0));
    m.update(0, 0);
    // tick 0 also spawned one pie at the top
    assert_eq!(m.digit_idx, 1);
    assert_eq!(m.scene, Scene::Game);
    assert_eq!(m.pies.len(), 1);
    m.add_pie(pie_on_plate(1, 0));
    m.update(0, 0);
    assert_eq!(m.digit_idx, 2);
    assert_eq!(m.scene, Scene::Game);
    assert_eq!(m.pies.len(), 1);
    assert_eq!(m.current_digit(), Some(4));
}

#[test]
fn mismatched_catch_ends_game_and_advances_cursor() {
    let mut m = fresh_game(b"314");
    m.add_pie(pie_on_plate(3, 0));
    m.update(0, 0);
    assert_eq!(m.digit_idx, 1);
    m.add_pie(pie_on_plate(9, 0));
    m.update(0, 0);
    assert_eq!(m.scene, Scene::GameOver);
    assert_eq!(m.digit_idx, 2);
}

#[test]
fn missed_pie_changes_nothing() {
    let mut m = fresh_game(b"314");
    // below the keep threshold, far from the plate horizontally
    m.add_pie(Pie { slices: 3, velocity: 0, x: 3000, y: PLATE_Y + 50 });
    m.update(0, 0);
    assert_eq!(m.digit_idx, 0);
    assert_eq!(m.scene, Scene::Game);
    // only the pie spawned at tick 0 is left
    assert_eq!(m.pies.len(), 1);
    assert_eq!(m.pies[0].slices, 0);
}

#[test]
fn catch_with_exhausted_buffer_is_non_event() {
    let mut m = Model::new();
    m.event(InputEvent::Confirm);
    assert!(m.buffer_exhausted());
    assert_eq!(m.current_digit(), None);
    m.add_pie(pie_on_plate(5, 0));
    m.update(0, 0);
    assert_eq!(m.digit_idx, 0);
    assert_eq!(m.scene, Scene::Game);
    assert_eq!(m.pies.len(), 1);
}

#[test]
fn spawn_rate_is_exact() {
    let mut m = fresh_game(b"31415926535897932384");
    let mut spawned: usize = 0;
    let mut t: u64 = 0;
    while t <= 100 {
        m.update(0, 0);
        if t % 45 == 0 {
            spawned += 1;
        }
        // nothing is caught or lost in the first 101 ticks, so the live set
        // is exactly what was spawned
        assert_eq!(m.pies.len(), spawned);
        assert_eq!(m.digit_idx, 0);
        t += 1;
    }
    assert_eq!(spawned, 3);
}

#[test]
fn full_scenario() {
    let mut m = Model::new();
    assert_eq!(m.scene, Scene::Start);
    let a = m.event(InputEvent::Confirm);
    assert_eq!(a, Action::FetchDigits { start: 0, count: DIGITS_LOADED_AT_ONCE });
    assert_eq!(m.scene, Scene::Game);
    assert_eq!(m.pies.len(), 0);
    assert_eq!(m.digit_idx, 0);
    let digits = parse_digits(&b"3141592653".to_vec()).unwrap();
    m.set_digits(digits);
    let mut t: u64 = 0;
    while t < 45 {
        m.update(0, 0);
        t += 1;
    }
    // exactly the pie of tick 0 is live, and the plate never moved
    assert_eq!(m.pies.len(), 1);
    assert_eq!(m.plate.x, 0);
    // feed a pie that collides and matches the first reference digit
    m.add_pie(pie_on_plate(3, 0));
    m.update(0, 0);
    assert_eq!(m.digit_idx, 1);
    assert_eq!(m.scene, Scene::Game);
    // tick 45 spawned a second faller; the fed pie is gone
    assert_eq!(m.pies.len(), 2);
    // feed a mismatching pie
    m.add_pie(pie_on_plate(8, 0));
    m.update(0, 0);
    assert_eq!(m.scene, Scene::GameOver);
    // the lost game ends on cancel
    assert_eq!(m.event(InputEvent::Cancel), Action::Quit);
}
