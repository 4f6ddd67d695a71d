//! Validated game configuration: board dimensions and mine budget.

use vstd::prelude::*;

verus! {

/// A board configuration that has passed validation: positive dimensions,
/// at least one mine, strictly fewer mines than cells, and a cell count
/// that fits in `usize`.
#[derive(Clone, Copy, Debug, PartialEq, Eq, Structural)]
pub struct Args {
    pub width: usize,
    pub height: usize,
    pub mines: usize,
}

impl Args {
    /// Does a raw `(width, height, mines)` triple describe a playable board?
    /// The cell count must also fit in `usize` so the grids can be allocated.
    pub open spec fn valid_config(width: usize, height: usize, mines: usize) -> bool {
        &&& width >= 1
        &&& height >= 1
        &&& mines >= 1
        &&& width * height <= usize::MAX
        &&& mines < width * height
    }

    /// Validate a configuration. Returns `Ok` exactly on playable
    /// configurations; each rejection carries a message naming the first
    /// violated rule, checked in the order width, height, mines, size.
    pub fn new(width: usize, height: usize, mines: usize) -> (r: Result<Args, String>)
        ensures
            r is Ok <==> Self::valid_config(width, height, mines),
            r is Ok ==> {
                let a = r->Ok_0;
                a.width == width && a.height == height && a.mines == mines
            },
            width < 1 ==> r is Err && r->Err_0@ == "Width must be greater than 0"@,
            width >= 1 && height < 1 ==> r is Err && r->Err_0@ == "Height must be greater than 0"@,
            width >= 1 && height >= 1 && mines < 1 ==> r is Err && r->Err_0@
                == "Mines must be greater than 0"@,
            width >= 1 && height >= 1 && mines >= 1 && width * height > usize::MAX ==> r is Err
                && r->Err_0@ == "Board size is too large"@,
            width >= 1 && height >= 1 && mines >= 1 && width * height <= usize::MAX && mines
                >= width * height ==> r is Err && r->Err_0@
                == "Mines must be less than the board size"@,
    {
        if width < 1 {
            return Err("Width must be greater than 0".to_owned());
        }
        if height < 1 {
            return Err("Height must be greater than 0".to_owned());
        }
        if mines < 1 {
            return Err("Mines must be greater than 0".to_owned());
        }
        let cells = match width.checked_mul(height) {
            Some(c) => c,
            None => {
                return Err("Board size is too large".to_owned());
            },
        };
        if mines >= cells {
            return Err("Mines must be less than the board size".to_owned());
        }
        Ok(Args { width, height, mines })
    }
}

} // verus!
