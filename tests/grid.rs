use lychen::model::{Cell, Model};

fn alive_cells(m: &Model) -> Vec<(usize, usize)> {
    let mut v = Vec::new();
    for y in 0..m.height() {
        for x in 0..m.width() {
            if m.get(x, y) == 1 {
                v.push((x, y));
            }
        }
    }
    v
}

#[test]
fn new_grid_is_dead() {
    let m = Model::new(4, 3);
    assert_eq!(m.width(), 4);
    assert_eq!(m.height(), 3);
    assert!(alive_cells(&m).is_empty());
}

#[test]
fn set_and_get() {
    let mut m = Model::new(3, 3);
    m.set(2, 1, Cell::Alive);
    assert_eq!(m.get(2, 1), 1);
    assert_eq!(m.get(1, 2), 0);
    m.set(2, 1, Cell::Dead);
    assert_eq!(m.get(2, 1), 0);
}

#[test]
fn border_never_changes() {
    let mut m = Model::new(5, 5);
    // a full column on the left edge, which would grow a neighbour column
    m.set(0, 1, Cell::Alive);
    m.set(0, 2, Cell::Alive);
    m.set(0, 3, Cell::Alive);
    // a line on the top edge
    m.set(1, 0, Cell::Alive);
    m.set(2, 0, Cell::Alive);
    m.set(3, 0, Cell::Alive);
    let before_border: Vec<u8> = (0..5).map(|i| m.get(i, 0)).chain((0..5).map(|j| m.get(0, j))).collect();
    for _ in 0..3 {
        m.update();
        let border: Vec<u8> = (0..5).map(|i| m.get(i, 0)).chain((0..5).map(|j| m.get(0, j))).collect();
        assert_eq!(border, before_border);
        for i in 0..5 {
            assert_eq!(m.get(i, 4), 0);
            assert_eq!(m.get(4, i), 0);
        }
    }
}

#[test]
fn lone_cell_dies() {
    let mut m = Model::new(5, 5);
    m.set(2, 2, Cell::Alive);
    let changes = m.update();
    assert_eq!(changes, vec![(2, 2, Cell::Dead)]);
    assert!(alive_cells(&m).is_empty());
}

#[test]
fn three_neighbours_give_birth() {
    let mut m = Model::new(5, 5);
    m.set(1, 1, Cell::Alive);
    m.set(3, 1, Cell::Alive);
    m.set(2, 3, Cell::Alive);
    let changes = m.update();
    assert!(changes.contains(&(2, 2, Cell::Alive)));
    assert_eq!(m.get(2, 2), 1);
}

#[test]
fn block_is_still() {
    let mut m = Model::new(6, 6);
    for (x, y) in [(2, 2), (3, 2), (2, 3), (3, 3)] {
        m.set(x, y, Cell::Alive);
    }
    let changes = m.update();
    assert!(changes.is_empty());
    assert_eq!(alive_cells(&m), vec![(2, 2), (3, 2), (2, 3), (3, 3)]);
}

#[test]
fn blinker_returns_after_two_generations() {
    let mut m = Model::new(5, 5);
    for x in 1..4 {
        m.set(x, 2, Cell::Alive);
    }
    let mut first = m.update();
    first.sort();
    let mut want = vec![(2, 1, Cell::Alive), (1, 2, Cell::Dead), (3, 2, Cell::Dead), (2, 3, Cell::Alive)];
    want.sort();
    assert_eq!(first, want);
    assert_eq!(alive_cells(&m), vec![(2, 1), (2, 2), (2, 3)]);
    let mut second = m.update();
    second.sort();
    let mut want = vec![(2, 1, Cell::Dead), (1, 2, Cell::Alive), (3, 2, Cell::Alive), (2, 3, Cell::Dead)];
    want.sort();
    assert_eq!(second, want);
    assert_eq!(alive_cells(&m), vec![(1, 2), (2, 2), (3, 2)]);
}
