//! The discrete part of encoding and decoding: which grid cell is chosen at
//! each of the ten levels, how a path of cells is written as a code, and which
//! path a code names.

use vstd::prelude::*;

use crate::code::{
    canonical_form, compact, compact_chars, lemma_canonical_form_normalizes,
    lemma_first_invalid_none, normalize, normalize_spec, string_result_view, DigiPinError,
};
use crate::grid::{
    find_grid_position, grid_at, grid_char, grid_position_of, is_grid_char,
    lemma_grid_at_grid_position_of, lemma_grid_position_of_grid_at,
};
use crate::text::push_char;

verus! {

/// Number of levels, and of symbols, in a full DIGIPIN.
pub const DIGIPIN_LEN: usize = 10;

/// `x` limited to the grid's index range `0..=3`.
pub open spec fn clamp_to_grid(x: int) -> int {
    if x < 0 {
        0
    } else if x > 3 {
        3
    } else {
        x
    }
}

/// Clamping into the grid changes only what lies outside it: an index in
/// `0..=3` is kept, one below 0 becomes 0 and one above 3 becomes 3.
pub proof fn clamp_to_grid_keeps_grid_indices(x: int)
    ensures
        0 <= x <= 3 ==> clamp_to_grid(x) == x,
        x < 0 ==> clamp_to_grid(x) == 0,
        x > 3 ==> clamp_to_grid(x) == 3,
{
}

/// The row and column chosen at one level of encoding. `lat_steps` and
/// `lon_steps` are how many whole subdivisions of the current cell lie south
/// and west of the point; rows count from the north, so the row is
/// `3 - lat_steps`. Both are clamped into the grid.
pub fn level_position(lat_steps: i32, lon_steps: i32) -> (pos: (usize, usize))
    requires
        lat_steps >= i32::MIN + 4,
    ensures
        pos.0 as int == clamp_to_grid(3 - lat_steps),
        pos.1 as int == clamp_to_grid(lon_steps as int),
        pos.0 < 4,
        pos.1 < 4,
        0 <= lat_steps <= 3 ==> pos.0 == 3 - lat_steps,
        lat_steps > 3 ==> pos.0 == 0,
        lat_steps < 0 ==> pos.0 == 3,
        0 <= lon_steps <= 3 ==> pos.1 == lon_steps,
        lon_steps > 3 ==> pos.1 == 3,
        lon_steps < 0 ==> pos.1 == 0,
{
    let row: i32 = 3 - lat_steps;
    let row: usize = if row < 0 {
        0
    } else if row > 3 {
        3
    } else {
        row as usize
    };
    let col: usize = if lon_steps < 0 {
        0
    } else if lon_steps > 3 {
        3
    } else {
        lon_steps as usize
    };
    (row, col)
}

/// Every step of the path is a grid position.
pub open spec fn is_grid_path(path: Seq<(usize, usize)>) -> bool {
    forall|i: int| 0 <= i < path.len() ==> (#[trigger] path[i]).0 < 4 && path[i].1 < 4
}

/// The grid symbols of a path, one per level.
pub open spec fn path_symbols(path: Seq<(usize, usize)>) -> Seq<char> {
    path.map_values(|p: (usize, usize)| grid_at(p.0 as int, p.1 as int))
}

/// The code that a ten-level path is written as: its symbols in `XXX-XXX-XXXX` form.
pub open spec fn render_spec(path: Seq<(usize, usize)>) -> Seq<char> {
    canonical_form(path_symbols(path))
}

/// The first `n` symbols of `k`, with a hyphen after the third and the sixth.
pub open spec fn written_prefix(k: Seq<char>, n: int) -> Seq<char>
    decreases n,
{
    if n <= 0 {
        seq![]
    } else {
        let w = written_prefix(k, n - 1).push(k[n - 1]);
        if n == 3 || n == 6 {
            w.push('-')
        } else {
            w
        }
    }
}

proof fn lemma_written_prefix_full(k: Seq<char>)
    requires
        k.len() == 10,
    ensures
        written_prefix(k, 10) == canonical_form(k),
{
    reveal_with_fuel(written_prefix, 11);
    assert(written_prefix(k, 10) =~= canonical_form(k));
}

/// Writes a ten-level path of grid positions as a code in `XXX-XXX-XXXX` form.
pub fn render_digipin(path: &Vec<(usize, usize)>) -> (code: String)
    requires
        path@.len() == DIGIPIN_LEN,
        is_grid_path(path@),
    ensures
        code@ == render_spec(path@),
{
    let ghost k = path_symbols(path@);
    let mut code = String::new();
    let mut level: usize = 0;
    while level < DIGIPIN_LEN
        invariant
            level <= DIGIPIN_LEN,
            path@.len() == DIGIPIN_LEN,
            is_grid_path(path@),
            k == path_symbols(path@),
            code@ == written_prefix(k, level as int),
        decreases DIGIPIN_LEN - level,
    {
        let (row, col) = path[level];
        assert(path@[level as int].0 < 4 && path@[level as int].1 < 4);
        push_char(&mut code, grid_char(row, col));
        if level == 2 || level == 5 {
            push_char(&mut code, '-');
        }
        level += 1;
    }
    proof {
        lemma_written_prefix_full(k);
    }
    code
}

/// The path that a code names: `Err` with the normalization error when the
/// code does not normalize, else the grid position of each compacted symbol.
pub open spec fn cell_path_spec(s: Seq<char>) -> Result<Seq<(usize, usize)>, DigiPinError> {
    match normalize_spec(s) {
        Err(e) => Err(e),
        Ok(_) => Ok(
            compact_chars(s).map_values(|c: char| grid_position_of(c).unwrap()),
        ),
    }
}

/// Views a result that carries a vector by the elements of that vector.
pub open spec fn path_result_view(r: Result<Vec<(usize, usize)>, DigiPinError>) -> Result<
    Seq<(usize, usize)>,
    DigiPinError,
> {
    match r {
        Ok(v) => Ok(v@),
        Err(e) => Err(e),
    }
}

/// Normalizes `digipin` and returns the row and column of its symbol at each level,
/// from the coarsest level to the finest.
pub fn cell_path(digipin: &str) -> (res: Result<Vec<(usize, usize)>, DigiPinError>)
    ensures
        path_result_view(res) == cell_path_spec(digipin@),
        res is Err <==> normalize_spec(digipin@) is Err,
        res is Err ==> res->Err_0 == normalize_spec(digipin@)->Err_0,
        res is Ok ==> res->Ok_0@.len() == DIGIPIN_LEN && is_grid_path(res->Ok_0@),
{
    proof {
        cell_path_fails_exactly_as_normalize_does(digipin@);
    }
    broadcast use vstd::string::axiom_spec_iter;

    let normalized = match normalize(digipin) {
        Ok(n) => n,
        Err(e) => {
            return Err(e);
        },
    };
    let ghost k = compact_chars(digipin@);
    proof {
        lemma_first_invalid_none(k);
        vstd::utf8::is_ascii_chars_encode_utf8(k);
        assert forall|i: int| 0 <= i < k.len() implies '\0' <= #[trigger] k[i] <= '\u{7f}' by {
            assert(is_grid_char(k[i]));
        }
        lemma_canonical_form_normalizes(k);
    }
    let compact = compact(normalized.as_str());
    assert(compact@ == k);
    let mut path: Vec<(usize, usize)> = Vec::new();
    for ch in it: compact.as_str().chars()
        invariant
            it.seq() == k,
            forall|i: int| 0 <= i < k.len() ==> is_grid_char(#[trigger] k[i]),
            path@ =~= k.take(it.index()).map_values(|c: char| grid_position_of(c).unwrap()),
    {
        match find_grid_position(ch) {
            Some(pos) => path.push(pos),
            None => {
                return Err(DigiPinError::InvalidCharacter { character: ch });
            },
        }
    }
    assert(k.take(k.len() as int) =~= k);
    Ok(path)
}

/// Reading the path of a code fails exactly as normalizing it does, with the
/// same error; a path is returned only for a code of ten grid symbols, and then
/// it has ten levels and the India Post table holds, at each level's row and
/// column, that level's symbol of the compacted code.
pub proof fn cell_path_fails_exactly_as_normalize_does(s: Seq<char>)
    ensures
        normalize_spec(s) is Err ==> cell_path_spec(s) == Err::<Seq<(usize, usize)>, DigiPinError>(
            normalize_spec(s)->Err_0,
        ),
        cell_path_spec(s) is Ok <==> normalize_spec(s) is Ok,
        cell_path_spec(s) is Ok ==> ({
            let p = cell_path_spec(s)->Ok_0;
            let k = compact_chars(s);
            &&& p.len() == 10
            &&& forall|i: int|
                0 <= i < p.len() ==> {
                    &&& (#[trigger] p[i]).0 < 4
                    &&& p[i].1 < 4
                    &&& seq!['F', 'C', '9', '8', 'J', '3', '2', '7', 'K', '4', '5', '6', 'L', 'M', 'P', 'T'][4 * p[i].0 + p[i].1] == k[i]
                }
        }),
{
    if normalize_spec(s) is Ok {
        render_of_cell_path(s);
        let p = cell_path_spec(s)->Ok_0;
        let k = compact_chars(s);
        crate::grid::grid_is_the_india_post_table();
        assert forall|i: int| 0 <= i < p.len() implies seq!['F', 'C', '9', '8', 'J', '3', '2', '7', 'K', '4', '5', '6', 'L', 'M', 'P', 'T'][4 * p[i].0 + p[i].1] == k[i] by {
            assert(is_grid_path(p));
            assert(p[i].0 < 4 && p[i].1 < 4);
            lemma_first_invalid_none(k);
            lemma_grid_at_grid_position_of(k[i]);
            assert(grid_at(p[i].0 as int, p[i].1 as int) == k[i]);
        }
    }
}

/// Decoding a written path gives back the path: the code that a ten-level grid
/// path is written as names exactly that path.
pub proof fn cell_path_of_render(path: Seq<(usize, usize)>)
    requires
        path.len() == 10,
        is_grid_path(path),
    ensures
        cell_path_spec(render_spec(path)) == Ok::<Seq<(usize, usize)>, DigiPinError>(path),
{
    let k = path_symbols(path);
    assert forall|i: int| 0 <= i < k.len() implies is_grid_char(#[trigger] k[i]) by {
        lemma_grid_position_of_grid_at(path[i].0 as int, path[i].1 as int);
    }
    lemma_canonical_form_normalizes(k);
    assert(k.map_values(|c: char| grid_position_of(c).unwrap()) =~= path) by {
        assert forall|i: int| 0 <= i < path.len() implies #[trigger] grid_position_of(k[i]).unwrap()
            == path[i] by {
            lemma_grid_position_of_grid_at(path[i].0 as int, path[i].1 as int);
        }
    }
}

/// A ten-level path is written as twelve characters: the India Post table's
/// symbol at each level's row and column, in level order, with hyphens after
/// the third and the sixth symbol.
pub proof fn render_writes_table_symbols(path: Seq<(usize, usize)>)
    requires
        path.len() == 10,
        is_grid_path(path),
    ensures
        render_spec(path).len() == 12,
        render_spec(path)[3] == '-',
        render_spec(path)[7] == '-',
        forall|i: int|
            0 <= i < 10 ==> render_spec(path)[i + (if i >= 3 { 1int } else { 0 }) + (if i >= 6 {
                1int
            } else {
                0
            })] == seq!['F', 'C', '9', '8', 'J', '3', '2', '7', 'K', '4', '5', '6', 'L', 'M', 'P', 'T'][4 * (#[trigger] path[i]).0 + path[i].1],
{
    crate::grid::grid_is_the_india_post_table();
    let k = path_symbols(path);
    assert forall|i: int| 0 <= i < 10 implies render_spec(path)[i + (if i >= 3 { 1int } else {
        0
    }) + (if i >= 6 { 1int } else { 0 })] == seq!['F', 'C', '9', '8', 'J', '3', '2', '7', 'K', '4', '5', '6', 'L', 'M', 'P', 'T'][4 * (#[trigger] path[i]).0 + path[i].1] by {
        assert(path[i].0 < 4 && path[i].1 < 4);
        assert(k[i] == grid_at(path[i].0 as int, path[i].1 as int));
    }
}

/// A written path is already normalized: normalizing it gives it back unchanged.
pub proof fn render_is_normalized(path: Seq<(usize, usize)>)
    requires
        path.len() == 10,
        is_grid_path(path),
    ensures
        normalize_spec(render_spec(path)) == Ok::<Seq<char>, DigiPinError>(render_spec(path)),
{
    let k = path_symbols(path);
    assert forall|i: int| 0 <= i < k.len() implies is_grid_char(#[trigger] k[i]) by {
        lemma_grid_position_of_grid_at(path[i].0 as int, path[i].1 as int);
    }
    lemma_canonical_form_normalizes(k);
}

/// Writing the path of a valid code gives back its normalized form.
pub proof fn render_of_cell_path(s: Seq<char>)
    requires
        normalize_spec(s) is Ok,
    ensures
        cell_path_spec(s) is Ok,
        is_grid_path(cell_path_spec(s)->Ok_0),
        cell_path_spec(s)->Ok_0.len() == 10,
        render_spec(cell_path_spec(s)->Ok_0) == normalize_spec(s)->Ok_0,
{
    let k = compact_chars(s);
    lemma_first_invalid_none(k);
    vstd::utf8::is_ascii_chars_encode_utf8(k);
    assert forall|i: int| 0 <= i < k.len() implies '\0' <= #[trigger] k[i] <= '\u{7f}' by {
        assert(is_grid_char(k[i]));
    }
    let path = cell_path_spec(s)->Ok_0;
    assert forall|i: int| 0 <= i < path.len() implies (#[trigger] path[i]).0 < 4 && path[i].1 < 4 by {
        lemma_grid_at_grid_position_of(k[i]);
    }
    assert(path_symbols(path) =~= k) by {
        assert forall|i: int| 0 <= i < k.len() implies #[trigger] path_symbols(path)[i] == k[i] by {
            lemma_grid_at_grid_position_of(k[i]);
        }
    }
}

} // verus!
