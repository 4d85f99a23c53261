//! Terminal window size management.

use crate::error::{TerminalError, TerminalResult};
use vstd::prelude::*;

verus! {

/// Largest accepted number of columns.
pub const MAX_COLS: u16 = 1000;

/// Largest accepted number of rows.
pub const MAX_ROWS: u16 = 500;

/// The window size record that a terminal device is given.
#[derive(Debug, Clone, Copy, PartialEq, Eq, Structural)]
pub struct WindowSize {
    /// Number of rows.
    pub rows: u16,
    /// Number of columns.
    pub cols: u16,
    /// Width in pixels; zero where it is not known.
    pub xpixel: u16,
    /// Height in pixels; zero where it is not known.
    pub ypixel: u16,
}

/// The window size record for `cols` columns and `rows` rows.
pub open spec fn window_of(cols: u16, rows: u16) -> WindowSize {
    WindowSize { rows, cols, xpixel: 0, ypixel: 0 }
}

/// A terminal of `cols` columns and `rows` rows is neither empty nor unreasonably large.
pub open spec fn acceptable_size(cols: u16, rows: u16) -> bool {
    1 <= cols <= MAX_COLS && 1 <= rows <= MAX_ROWS
}

/// The window size record for `cols` columns and `rows` rows, whatever they are.
pub(crate) fn window(cols: u16, rows: u16) -> (size: WindowSize)
    ensures
        size == window_of(cols, rows),
{
    WindowSize { rows, cols, xpixel: 0, ypixel: 0 }
}

/// Set the window size of a terminal: the record to hand to the terminal device.
///
/// # Arguments
///
/// * `cols` - Number of columns
/// * `rows` - Number of rows
///
/// A size that is not acceptable is refused before the device is touched.
pub fn set_window_size(cols: u16, rows: u16) -> (size: TerminalResult<WindowSize>)
    ensures
        acceptable_size(cols, rows) ==> size == Ok::<WindowSize, TerminalError>(
            window_of(cols, rows),
        ),
        !acceptable_size(cols, rows) ==> size == Err::<WindowSize, TerminalError>(
            TerminalError::InvalidSize { cols, rows },
        ),
{
    // Validate size
    if cols == 0 || rows == 0 {
        return Err(TerminalError::InvalidSize { cols, rows });
    }
    // Maximum reasonable terminal size
    if cols > MAX_COLS || rows > MAX_ROWS {
        return Err(TerminalError::InvalidSize { cols, rows });
    }
    Ok(window(cols, rows))
}

/// What setting the window size came to, given what the terminal device answered: nothing, or the
/// description of its error.
pub fn set_window_size_result(answer: Result<(), String>) -> (result: TerminalResult<()>)
    ensures
        match answer {
            Ok(_) => result == Ok::<(), TerminalError>(()),
            Err(cause) => result == Err::<(), TerminalError>(TerminalError::PtyAllocation(cause)),
        },
{
    match answer {
        Ok(_) => Ok(()),
        Err(cause) => Err(TerminalError::PtyAllocation(cause)),
    }
}

/// Get the window size of a terminal, given what the terminal device answered: its record, or the
/// description of its error.
///
/// # Returns
///
/// Tuple of (cols, rows)
pub fn get_window_size(answer: Result<WindowSize, String>) -> (result: TerminalResult<(u16, u16)>)
    ensures
        match answer {
            Ok(size) => result == Ok::<(u16, u16), TerminalError>((size.cols, size.rows)),
            Err(cause) => result == Err::<(u16, u16), TerminalError>(
                TerminalError::PtyAllocation(cause),
            ),
        },
{
    match answer {
        Ok(size) => Ok((size.cols, size.rows)),
        Err(cause) => Err(TerminalError::PtyAllocation(cause)),
    }
}

/// A terminal that hands back the record it was given reports the size that was set.
pub proof fn law_size_read_back(cols: u16, rows: u16)
    ensures
        (window_of(cols, rows).cols, window_of(cols, rows).rows) == (cols, rows),
{
}

/// Sizes from 1 to 1000 columns and from 1 to 500 rows are acceptable, and no others; the record for
/// a size holds exactly its columns and rows, and no pixels.
pub proof fn law_sizes(cols: u16, rows: u16)
    ensures
        acceptable_size(cols, rows) <==> cols != 0 && rows != 0 && cols < 1001 && rows < 501,
        window_of(cols, rows).cols == cols,
        window_of(cols, rows).rows == rows,
        window_of(cols, rows).xpixel == 0,
        window_of(cols, rows).ypixel == 0,
{
}

} // verus!
