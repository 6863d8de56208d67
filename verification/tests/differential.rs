use rustsweeper::board::GameState;
use rustsweeper::game::GameContainer;
use rustsweeper::tile::Coordinate;

// A plain model of the rules with a recursive flood, played side by side
// with the library on many small boards.

#[derive(Clone, Copy, PartialEq, Debug)]
struct Cell {
    revealed: bool,
    mine: bool,
    flagged: bool,
    number: Option<u8>,
}

struct Model {
    cells: Vec<Vec<Cell>>,
    cols: usize,
    rows: usize,
    mines: usize,
    revealed: usize,
    flagged: isize,
    state: GameState,
}

impl Model {
    fn new(rows: usize, cols: usize, mines: &[(usize, usize)]) -> Model {
        let blank = Cell { revealed: false, mine: false, flagged: false, number: None };
        let mut m = Model {
            cells: vec![vec![blank; rows]; cols],
            cols,
            rows,
            mines: 0,
            revealed: 0,
            flagged: 0,
            state: GameState::InProgress,
        };
        for &(x, y) in mines {
            if !m.cells[x][y].mine {
                m.cells[x][y].mine = true;
                m.mines += 1;
            }
        }
        for x in 0..cols {
            for y in 0..rows {
                if !m.cells[x][y].mine {
                    let n = m.around(x, y).iter().filter(|&&(i, j)| m.cells[i][j].mine).count();
                    if n != 0 {
                        m.cells[x][y].number = Some(n as u8);
                    }
                }
            }
        }
        m
    }

    fn around(&self, x: usize, y: usize) -> Vec<(usize, usize)> {
        let mut out = Vec::new();
        for xd in -1i64..=1 {
            for yd in -1i64..=1 {
                let (i, j) = (x as i64 + xd, y as i64 + yd);
                if (xd, yd) != (0, 0) && i >= 0 && j >= 0 && i < self.cols as i64
                    && j < self.rows as i64
                {
                    out.push((i as usize, j as usize));
                }
            }
        }
        out
    }

    fn reveal_nearby(&mut self, x: usize, y: usize) {
        let cell = self.cells[x][y];
        if !cell.revealed && !cell.flagged {
            if cell.mine {
                return;
            }
            self.cells[x][y].revealed = true;
            self.revealed += 1;
            if cell.number.is_none() {
                for (i, j) in self.around(x, y) {
                    self.reveal_nearby(i, j);
                }
            }
        }
    }

    fn open(&mut self, x: usize, y: usize) {
        if self.state != GameState::InProgress {
            return;
        }
        let cell = self.cells[x][y];
        if cell.revealed || cell.flagged {
            return;
        }
        if cell.mine {
            self.cells[x][y].revealed = true;
            self.revealed += 1;
            self.state = GameState::Lost;
            return;
        }
        self.reveal_nearby(x, y);
        if self.revealed == self.cols * self.rows - self.mines {
            self.state = GameState::Won;
        }
    }

    fn flag(&mut self, x: usize, y: usize) {
        if self.state == GameState::Won || self.state == GameState::Lost {
            return;
        }
        if !self.cells[x][y].revealed {
            if self.cells[x][y].flagged {
                self.cells[x][y].flagged = false;
                self.flagged -= 1;
            } else {
                self.cells[x][y].flagged = true;
                self.flagged += 1;
            }
        }
    }

    fn chord(&mut self, x: usize, y: usize) {
        if self.state != GameState::InProgress {
            return;
        }
        let cell = self.cells[x][y];
        if cell.revealed && cell.number.is_some() {
            let flags =
                self.around(x, y).iter().filter(|&&(i, j)| self.cells[i][j].flagged).count();
            if cell.number == Some(flags as u8) {
                for (i, j) in self.around(x, y) {
                    self.open(i, j);
                }
            }
        }
    }
}

struct Dice(u64);

impl Dice {
    fn roll(&mut self, below: usize) -> usize {
        self.0 ^= self.0 << 13;
        self.0 ^= self.0 >> 7;
        self.0 ^= self.0 << 17;
        (self.0 % below as u64) as usize
    }
}

fn assert_same(g: &GameContainer, m: &Model, what: &str) {
    assert_eq!(g.state(), m.state, "{}", what);
    assert_eq!(g.revealed_count(), m.revealed, "{}", what);
    assert_eq!(g.flagged_count(), m.flagged, "{}", what);
    assert_eq!(g.mine_count(), m.mines, "{}", what);
    let tiles = g.tile_array();
    for x in 0..m.cols {
        for y in 0..m.rows {
            let t = tiles[x][y];
            let seen = Cell {
                revealed: t.is_revealed,
                mine: t.is_a_mine,
                flagged: t.is_flagged,
                number: t.number,
            };
            assert_eq!(seen, m.cells[x][y], "{} at ({}, {})", what, x, y);
            assert_eq!(t.coordinates, Coordinate::new(x, y));
        }
    }
}

fn play(rows: usize, cols: usize, mine_share: usize, games: u64, moves: usize) {
    for round in 1..=games {
        let mut dice = Dice(round.wrapping_mul(0x9E37_79B9_7F4A_7C15) | 1);
        let wanted = 1 + dice.roll((cols * rows * mine_share / 100).max(1));
        let mut mines = Vec::new();
        for _ in 0..wanted {
            mines.push((dice.roll(cols), dice.roll(rows)));
        }
        let list: Vec<Coordinate> = mines.iter().map(|&(x, y)| Coordinate::new(x, y)).collect();
        let mut g = match GameContainer::with_mines(rows, cols, &list) {
            Ok(g) => g,
            Err(_) => continue,
        };
        let mut m = Model::new(rows, cols, &mines);
        assert_same(&g, &m, "at the start");
        for step in 0..moves {
            let (x, y) = (dice.roll(cols), dice.roll(rows));
            let kind = dice.roll(10);
            let what = format!("game {} move {} kind {} at ({}, {})", round, step, kind, x, y);
            let c = Coordinate::new(x, y);
            if kind < 5 {
                m.open(x, y);
                assert_eq!(g.reveal_tile_at(c), Ok(m.state), "{}", what);
            } else if kind < 7 {
                m.flag(x, y);
                assert_eq!(g.toggle_flag_at(c), Ok(()), "{}", what);
            } else {
                m.chord(x, y);
                assert_eq!(g.chord_at(c), Ok(m.state), "{}", what);
            }
            assert_same(&g, &m, &what);
        }
    }
}

#[test]
fn the_library_plays_like_the_recursive_model_on_small_boards() {
    play(5, 5, 20, 300, 30);
}

#[test]
fn the_library_plays_like_the_recursive_model_on_sparse_boards() {
    play(9, 12, 8, 200, 40);
}

#[test]
fn the_library_plays_like_the_recursive_model_on_dense_boards() {
    play(6, 4, 60, 300, 30);
}

#[test]
fn the_library_plays_like_the_recursive_model_on_thin_boards() {
    play(1, 9, 30, 200, 20);
    play(9, 1, 30, 200, 20);
    play(2, 2, 50, 100, 10);
}
