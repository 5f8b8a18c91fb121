use libaitfoaq::state::{Board, Category, Clue, Options};
use libaitfoaq::Error;

fn clue(points: i32) -> Clue {
    Clue {
        clue: format!("prompt {}", points),
        response: format!("response {}", points),
        hint: String::new(),
        points,
        can_wager: false,
        exclusive: false,
        solved: false,
    }
}

fn board() -> Board {
    Board {
        categories: vec![
            Category { title: "A".to_owned(), clues: vec![clue(100), clue(200)] },
            Category { title: "B".to_owned(), clues: vec![clue(300), clue(400)] },
            Category { title: "C".to_owned(), clues: vec![clue(500), clue(600)] },
        ],
    }
}

#[test]
fn get_finds_clue() {
    let b = board();
    assert_eq!(b.get((1, 1)).unwrap().points, 400);
    assert_eq!(b.get((2, 0)).unwrap().points, 500);
    assert!(matches!(b.get((3, 0)), Err(Error::ClueNotFound)));
    assert!(matches!(b.get((0, 2)), Err(Error::ClueNotFound)));
}

#[test]
fn get_mut_changes_only_that_clue() {
    let mut b = board();
    b.get_mut((0, 1)).unwrap().points = 250;
    assert_eq!(b.categories[0].clues[1].points, 250);
    assert_eq!(b.categories[0].clues[0].points, 100);
    assert!(matches!(b.get_mut((0, 5)), Err(Error::ClueNotFound)));
}

#[test]
fn mark_solved_marks_one() {
    let mut b = board();
    b.mark_solved((2, 1)).unwrap();
    assert!(b.categories[2].clues[1].solved);
    let solved = b.categories.iter().flat_map(|c| c.clues.iter()).filter(|c| c.solved).count();
    assert_eq!(solved, 1);
    let before = b.clone();
    assert!(matches!(b.mark_solved((5, 5)), Err(Error::ClueNotFound)));
    assert_eq!(b, before);
}

#[test]
fn clue_rows_transposes() {
    let b = board();
    let rows = b.clue_rows();
    assert_eq!(rows.len(), 2);
    assert_eq!(rows[0].len(), 3);
    let handles: Vec<(usize, usize)> = rows[1].iter().map(|(h, _)| *h).collect();
    assert_eq!(handles, vec![(0, 1), (1, 1), (2, 1)]);
    let points: Vec<i32> = rows[1].iter().map(|(_, c)| c.points).collect();
    assert_eq!(points, vec![200, 400, 600]);
    assert_eq!(rows[0][2].1, clue(500));
}

#[test]
fn clue_rows_of_empty_board() {
    let b = Board { categories: vec![] };
    assert!(b.clue_rows().is_empty());
}

#[test]
fn board_clone_is_equal() {
    let b = board();
    assert_eq!(b.clone(), b);
}

#[test]
fn default_options() {
    assert_eq!(Options::default(), Options {});
}
