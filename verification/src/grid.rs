//! The 4 x 4 DIGIPIN symbol grid.

use vstd::prelude::*;

verus! {

/// The symbol at `row`, `col` of the DIGIPIN grid (rows run north to south,
/// columns west to east).
pub open spec fn grid_at(row: int, col: int) -> char {
    if row == 0 {
        if col == 0 { 'F' } else if col == 1 { 'C' } else if col == 2 { '9' } else { '8' }
    } else if row == 1 {
        if col == 0 { 'J' } else if col == 1 { '3' } else if col == 2 { '2' } else { '7' }
    } else if row == 2 {
        if col == 0 { 'K' } else if col == 1 { '4' } else if col == 2 { '5' } else { '6' }
    } else {
        if col == 0 { 'L' } else if col == 1 { 'M' } else if col == 2 { 'P' } else { 'T' }
    }
}

/// Where `ch` stands in the grid, if it is one of its sixteen symbols.
pub open spec fn grid_position_of(ch: char) -> Option<(usize, usize)> {
    if ch == 'F' { Some((0, 0)) }
    else if ch == 'C' { Some((0, 1)) }
    else if ch == '9' { Some((0, 2)) }
    else if ch == '8' { Some((0, 3)) }
    else if ch == 'J' { Some((1, 0)) }
    else if ch == '3' { Some((1, 1)) }
    else if ch == '2' { Some((1, 2)) }
    else if ch == '7' { Some((1, 3)) }
    else if ch == 'K' { Some((2, 0)) }
    else if ch == '4' { Some((2, 1)) }
    else if ch == '5' { Some((2, 2)) }
    else if ch == '6' { Some((2, 3)) }
    else if ch == 'L' { Some((3, 0)) }
    else if ch == 'M' { Some((3, 1)) }
    else if ch == 'P' { Some((3, 2)) }
    else if ch == 'T' { Some((3, 3)) }
    else { None }
}

/// `ch` is one of the sixteen grid symbols.
pub open spec fn is_grid_char(ch: char) -> bool {
    grid_position_of(ch) is Some
}

/// Returns the grid symbol at `row`, `col`.
pub fn grid_char(row: usize, col: usize) -> (ch: char)
    requires
        row < 4,
        col < 4,
    ensures
        ch == grid_at(row as int, col as int),
{
    if row == 0 {
        if col == 0 { 'F' } else if col == 1 { 'C' } else if col == 2 { '9' } else { '8' }
    } else if row == 1 {
        if col == 0 { 'J' } else if col == 1 { '3' } else if col == 2 { '2' } else { '7' }
    } else if row == 2 {
        if col == 0 { 'K' } else if col == 1 { '4' } else if col == 2 { '5' } else { '6' }
    } else {
        if col == 0 { 'L' } else if col == 1 { 'M' } else if col == 2 { 'P' } else { 'T' }
    }
}

/// Each grid position holds the symbol that names it: reading a symbol off the
/// grid and looking it up again gives back the same position.
pub proof fn lemma_grid_position_of_grid_at(row: int, col: int)
    requires
        0 <= row < 4,
        0 <= col < 4,
    ensures
        grid_position_of(grid_at(row, col)) == Some((row as usize, col as usize)),
{
}

/// A symbol found in the grid stands at the position that the lookup reports.
pub proof fn lemma_grid_at_grid_position_of(ch: char)
    requires
        is_grid_char(ch),
    ensures
        grid_position_of(ch).unwrap().0 < 4,
        grid_position_of(ch).unwrap().1 < 4,
        grid_at(grid_position_of(ch).unwrap().0 as int, grid_position_of(ch).unwrap().1 as int)
            == ch,
{
}

/// The grid is the India Post DIGIPIN table: read row by row from the north-west
/// corner, its symbols are F C 9 8 / J 3 2 7 / K 4 5 6 / L M P T.
pub proof fn grid_is_the_india_post_table()
    ensures
        forall|row: int, col: int|
            0 <= row < 4 && 0 <= col < 4 ==> #[trigger] grid_at(row, col) == seq![
                'F', 'C', '9', '8', 'J', '3', '2', '7', 'K', '4', '5', '6', 'L', 'M', 'P', 'T',
            ][4 * row + col],
{
    let t = seq!['F', 'C', '9', '8', 'J', '3', '2', '7', 'K', '4', '5', '6', 'L', 'M', 'P', 'T'];
    assert forall|row: int, col: int| 0 <= row < 4 && 0 <= col < 4 implies #[trigger] grid_at(
        row,
        col,
    ) == t[4 * row + col] by {
        if row == 0 {
            if col == 0 { assert(t[0] == 'F'); } else if col == 1 { assert(t[1] == 'C'); }
            else if col == 2 { assert(t[2] == '9'); } else { assert(t[3] == '8'); }
        } else if row == 1 {
            if col == 0 { assert(t[4] == 'J'); } else if col == 1 { assert(t[5] == '3'); }
            else if col == 2 { assert(t[6] == '2'); } else { assert(t[7] == '7'); }
        } else if row == 2 {
            if col == 0 { assert(t[8] == 'K'); } else if col == 1 { assert(t[9] == '4'); }
            else if col == 2 { assert(t[10] == '5'); } else { assert(t[11] == '6'); }
        } else {
            if col == 0 { assert(t[12] == 'L'); } else if col == 1 { assert(t[13] == 'M'); }
            else if col == 2 { assert(t[14] == 'P'); } else { assert(t[15] == 'T'); }
        }
    }
}

/// Looking a symbol up finds it where the India Post table holds it (the
/// symbol at place `i` of F C 9 8 J 3 2 7 K 4 5 6 L M P T is found at row
/// `i / 4`, column `i % 4`), and the grid's symbols are exactly those sixteen.
pub proof fn grid_lookup_follows_the_india_post_table(ch: char)
    ensures
        grid_position_of('F') == Some((0usize, 0usize)),
        grid_position_of('C') == Some((0usize, 1usize)),
        grid_position_of('9') == Some((0usize, 2usize)),
        grid_position_of('8') == Some((0usize, 3usize)),
        grid_position_of('J') == Some((1usize, 0usize)),
        grid_position_of('3') == Some((1usize, 1usize)),
        grid_position_of('2') == Some((1usize, 2usize)),
        grid_position_of('7') == Some((1usize, 3usize)),
        grid_position_of('K') == Some((2usize, 0usize)),
        grid_position_of('4') == Some((2usize, 1usize)),
        grid_position_of('5') == Some((2usize, 2usize)),
        grid_position_of('6') == Some((2usize, 3usize)),
        grid_position_of('L') == Some((3usize, 0usize)),
        grid_position_of('M') == Some((3usize, 1usize)),
        grid_position_of('P') == Some((3usize, 2usize)),
        grid_position_of('T') == Some((3usize, 3usize)),
        is_grid_char(ch) <==> seq![
            'F', 'C', '9', '8', 'J', '3', '2', '7', 'K', '4', '5', '6', 'L', 'M', 'P', 'T',
        ].contains(ch),
{
    let t = seq!['F', 'C', '9', '8', 'J', '3', '2', '7', 'K', '4', '5', '6', 'L', 'M', 'P', 'T'];
    assert(t[0] == 'F' && t[1] == 'C' && t[2] == '9' && t[3] == '8');
    assert(t[4] == 'J' && t[5] == '3' && t[6] == '2' && t[7] == '7');
    assert(t[8] == 'K' && t[9] == '4' && t[10] == '5' && t[11] == '6');
    assert(t[12] == 'L' && t[13] == 'M' && t[14] == 'P' && t[15] == 'T');
    if is_grid_char(ch) {
        let (r, c) = grid_position_of(ch).unwrap();
        let i = 4 * r + c;
        assert(t[i as int] == ch);
    }
}

/// Searches the grid row by row for `ch` and returns its row and column.
pub fn find_grid_position(ch: char) -> (pos: Option<(usize, usize)>)
    ensures
        pos == grid_position_of(ch),
{
    let mut row: usize = 0;
    while row < 4
        invariant
            row <= 4,
            forall|r: int, c: int| 0 <= r < row && 0 <= c < 4 ==> grid_at(r, c) != ch,
        decreases 4 - row,
    {
        let mut col: usize = 0;
        while col < 4
            invariant
                row < 4,
                col <= 4,
                forall|r: int, c: int| 0 <= r < row && 0 <= c < 4 ==> grid_at(r, c) != ch,
                forall|c: int| 0 <= c < col ==> grid_at(row as int, c) != ch,
            decreases 4 - col,
        {
            if grid_char(row, col) == ch {
                return Some((row, col));
            }
            col += 1;
        }
        row += 1;
    }
    assert(grid_at(0, 0) != ch && grid_at(0, 1) != ch && grid_at(0, 2) != ch && grid_at(0, 3) != ch);
    assert(grid_at(1, 0) != ch && grid_at(1, 1) != ch && grid_at(1, 2) != ch && grid_at(1, 3) != ch);
    assert(grid_at(2, 0) != ch && grid_at(2, 1) != ch && grid_at(2, 2) != ch && grid_at(2, 3) != ch);
    assert(grid_at(3, 0) != ch && grid_at(3, 1) != ch && grid_at(3, 2) != ch && grid_at(3, 3) != ch);
    None
}

} // verus!
