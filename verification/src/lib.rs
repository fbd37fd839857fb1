//! India Post DIGIPIN: the grid alphabet, normalization of codes and the
//! discrete cell path that a code names, with their contracts.

pub mod code;
pub mod grid;
pub mod path;
pub mod text;

pub use code::{compact, is_valid, normalize, DigiPinError};
pub use grid::{find_grid_position, grid_char};
pub use path::{cell_path, level_position, render_digipin, DIGIPIN_LEN};
