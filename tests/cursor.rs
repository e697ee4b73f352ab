use lychen::app::model::{Cell, Direction, Model};
use lychen::app::ui::{Change, ChangeSet};

fn sorted(cs: &ChangeSet) -> Vec<(usize, usize, Cell, bool)> {
    let mut v: Vec<(usize, usize, Cell, bool)> = cs.to_vec().iter().map(|c| (c.x, c.y, c.state, c.selected)).collect();
    v.sort();
    v
}

#[test]
fn new_model_centres_cursor() {
    let m = Model::new(7, 4);
    assert_eq!(m.selected(), (3, 2));
    assert_eq!(m.width_cells(), 7);
    assert_eq!(m.height_cells(), 4);
    assert_eq!(m.get(3, 2), 0);
}

#[test]
fn flip_then_move_right() {
    let mut m = Model::new(5, 5);
    assert_eq!(m.selected(), (2, 2));
    let first = m.flip_selected();
    assert_eq!(m.get(2, 2), 1);
    assert_eq!(sorted(&first), vec![(2, 2, Cell::Alive, true)]);
    let second = m.offset_selected(Direction::Right);
    assert_eq!(m.selected(), (3, 2));
    assert_eq!(sorted(&second), vec![(2, 2, Cell::Alive, false), (3, 2, Cell::Dead, true)]);
}

#[test]
fn offset_at_edges_is_clamped() {
    let mut m = Model::new(3, 3);
    m.move_selected(0, 0);
    let up = m.offset_selected(Direction::Up);
    assert_eq!(m.selected(), (0, 0));
    assert_eq!(sorted(&up), vec![(0, 0, Cell::Dead, true)]);
    let left = m.offset_selected(Direction::Left);
    assert_eq!(m.selected(), (0, 0));
    assert_eq!(sorted(&left), vec![(0, 0, Cell::Dead, true)]);
    m.move_selected(2, 2);
    let down = m.offset_selected(Direction::Down);
    assert_eq!(m.selected(), (2, 2));
    assert_eq!(down.len(), 1);
    let right = m.offset_selected(Direction::Right);
    assert_eq!(m.selected(), (2, 2));
    assert_eq!(right.get(2, 2), Some(Change::new(2, 2, &Cell::Dead, true)));
    let back = m.offset_selected(Direction::Up);
    assert_eq!(m.selected(), (2, 1));
    assert_eq!(sorted(&back), vec![(2, 1, Cell::Dead, true), (2, 2, Cell::Dead, false)]);
}

#[test]
fn flip_twice_restores_cell() {
    let mut m = Model::new(4, 4);
    let (x, y) = m.selected();
    let before = m.get(x, y);
    let a = m.flip_selected();
    assert_eq!(sorted(&a), vec![(x, y, Cell::Alive, true)]);
    let b = m.flip_selected();
    assert_eq!(sorted(&b), vec![(x, y, Cell::Dead, true)]);
    assert_eq!(m.get(x, y), before);
}

#[test]
fn move_selected_reports_both_tiles() {
    let mut m = Model::new(5, 5);
    m.set(4, 0, &Cell::Alive, false);
    let cs = m.move_selected(4, 0);
    assert_eq!(m.selected(), (4, 0));
    assert_eq!(sorted(&cs), vec![(2, 2, Cell::Dead, false), (4, 0, Cell::Alive, true)]);
    let same = m.move_selected(4, 0);
    assert_eq!(sorted(&same), vec![(4, 0, Cell::Alive, true)]);
}

#[test]
fn set_reports_one_change() {
    let mut m = Model::new(3, 3);
    let cs = m.set(1, 2, &Cell::Alive, true);
    assert_eq!(sorted(&cs), vec![(1, 2, Cell::Alive, true)]);
    assert_eq!(m.get(1, 2), 1);
    assert_eq!(m.selected(), (1, 1));
}

#[test]
fn paint_keeps_cursor() {
    let mut m = Model::new(5, 5);
    let cs = m.paint(0, 4);
    assert_eq!(sorted(&cs), vec![(0, 4, Cell::Alive, false)]);
    assert_eq!(m.get(0, 4), 1);
    assert_eq!(m.selected(), (2, 2));
    let again = m.paint(0, 4);
    assert_eq!(sorted(&again), vec![(0, 4, Cell::Alive, false)]);
    assert_eq!(m.get(0, 4), 1);
}

#[test]
fn update_reports_flipped_cells_unselected() {
    let mut m = Model::new(5, 5);
    for x in 1..4 {
        m.set(x, 2, &Cell::Alive, false);
    }
    let first = m.update();
    assert_eq!(
        sorted(&first),
        vec![(1, 2, Cell::Dead, false), (2, 1, Cell::Alive, false), (2, 3, Cell::Alive, false), (3, 2, Cell::Dead, false)]
    );
    let second = m.update();
    assert_eq!(
        sorted(&second),
        vec![(1, 2, Cell::Alive, false), (2, 1, Cell::Dead, false), (2, 3, Cell::Dead, false), (3, 2, Cell::Alive, false)]
    );
    for x in 1..4 {
        assert_eq!(m.get(x, 2), 1);
    }
    assert_eq!(m.get(2, 1), 0);
    assert_eq!(m.get(2, 3), 0);
}

#[test]
fn two_neighbours_not_reported() {
    let mut m = Model::new(5, 5);
    // (2, 2) is dead with two live neighbours; (1, 1) and (3, 3) die
    m.set(1, 1, &Cell::Alive, false);
    m.set(3, 3, &Cell::Alive, false);
    let cs = m.update();
    assert_eq!(cs.get(2, 2), None);
    assert_eq!(m.get(2, 2), 0);
    // (2, 2) alive with two live neighbours survives and is not reported
    m.set(1, 1, &Cell::Alive, false);
    m.set(3, 3, &Cell::Alive, false);
    m.set(2, 2, &Cell::Alive, false);
    let cs = m.update();
    assert_eq!(cs.get(2, 2), None);
    assert_eq!(m.get(2, 2), 1);
}

#[test]
fn block_reports_nothing() {
    let mut m = Model::new(4, 4);
    for (x, y) in [(1, 1), (2, 1), (1, 2), (2, 2)] {
        m.set(x, y, &Cell::Alive, false);
    }
    let cs = m.update();
    assert_eq!(cs.len(), 0);
    for (x, y) in [(1, 1), (2, 1), (1, 2), (2, 2)] {
        assert_eq!(m.get(x, y), 1);
    }
}
