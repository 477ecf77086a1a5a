//! Where the reader goes when asked to move.
use crate::settings::Settings;
use vstd::prelude::*;

verus! {

/// The last page index of a document of `total` pages; 0 when it has none.
pub open spec fn max_page(total: usize) -> usize {
    if total == 0 {
        0
    } else {
        (total - 1) as usize
    }
}

/// How many pages one step moves: two in double-page mode, unless `shift`
/// is held or the cover is shown alone and the reader is on it.
pub open spec fn step_size(current: usize, settings: Settings, shift: bool) -> usize {
    if settings.double_page && !shift && (current != 0
        || !settings.display_first_page_in_single_mode) {
        2
    } else {
        1
    }
}

/// The page after a step back (`inc == -1`) or forward (`inc == 1`): back
/// stops at the first page, forward at the last.
pub open spec fn stepped(
    current: usize,
    total: usize,
    settings: Settings,
    inc: isize,
    shift: bool,
) -> usize {
    let step = step_size(current, settings, shift);
    if inc < 0 {
        if step >= current {
            0
        } else {
            (current - step) as usize
        }
    } else if current + step <= max_page(total) {
        (current + step) as usize
    } else {
        max_page(total)
    }
}

/// The page shown after one step from `current`.
pub fn relative_page_change(
    current: usize,
    total_pages: usize,
    settings: &Settings,
    inc: isize,
    shift: bool,
) -> (r: usize)
    requires
        inc == -1 || inc == 1,
    ensures
        r == stepped(current, total_pages, *settings, inc, shift),
{
    let step: usize = if settings.double_page && !shift && (current != 0
        || !settings.display_first_page_in_single_mode) {
        2
    } else {
        1
    };
    let max_page: usize = if total_pages == 0 {
        0
    } else {
        total_pages - 1
    };
    if inc < 0 {
        if step >= current {
            0
        } else {
            current - step
        }
    } else if current <= max_page && max_page - current >= step {
        current + step
    } else {
        max_page
    }
}

/// The page the End key goes to: the last one, or the last spread in
/// double-page mode.
pub fn last_page(total_pages: usize, double_page: bool) -> (r: usize)
    ensures
        r == if total_pages <= 1 {
            0
        } else if double_page {
            (total_pages - 2) as usize
        } else {
            (total_pages - 1) as usize
        },
{
    if total_pages <= 1 {
        0
    } else if double_page {
        total_pages - 2
    } else {
        total_pages - 1
    }
}

/// The pages shown while the reader is on `current`: none for an empty
/// document; one page in single-page mode, on the last page, or on the
/// cover shown alone; otherwise `current` and the page after it.
pub fn displayed_pages(current: usize, total_pages: usize, settings: &Settings) -> (r: (
    Option<usize>,
    Option<usize>,
))
    requires
        current < usize::MAX,
    ensures
        r == if total_pages == 0 {
            (None, None)
        } else if !settings.double_page || current + 1 == total_pages || (current == 0
            && settings.display_first_page_in_single_mode) {
            (Some(current), None)
        } else {
            (Some(current), Some((current + 1) as usize))
        },
{
    if total_pages == 0 {
        (None, None)
    } else if !settings.double_page || current + 1 == total_pages || (current == 0
        && settings.display_first_page_in_single_mode) {
        (Some(current), None)
    } else {
        (Some(current), Some(current + 1))
    }
}

/// Why a move could not be made.
#[derive(Debug, PartialEq, Eq, Structural)]
pub enum NavError {
    /// The page number typed is not a number, or is 0.
    InvalidPage,
    /// The page number typed is past the last page.
    PastEnd { total_pages: usize },
    /// There is no file before the current one.
    NoPrevious,
    /// There is no file after the current one.
    NoNext,
}

/// The page to show for the page number (counted from 1) that was typed,
/// `None` when what was typed is not a number.
pub fn jump_target(typed: Option<usize>, total_pages: usize) -> (r: Result<usize, NavError>)
    ensures
        match typed {
            None => r == Err::<usize, NavError>(NavError::InvalidPage),
            Some(n) => if n == 0 {
                r == Err::<usize, NavError>(NavError::InvalidPage)
            } else if n > total_pages {
                r == Err::<usize, NavError>(NavError::PastEnd { total_pages })
            } else {
                r == Ok::<usize, NavError>((n - 1) as usize)
            },
        },
{
    match typed {
        None => Err(NavError::InvalidPage),
        Some(n) => {
            if n == 0 {
                Err(NavError::InvalidPage)
            } else if n > total_pages {
                Err(NavError::PastEnd { total_pages })
            } else {
                Ok(n - 1)
            }
        },
    }
}

/// The position of the neighbour of the file at `index` among `len`
/// files of its directory: the one before (`relative == -1`) or after
/// (`relative == 1`).
pub fn neighbour_index(index: usize, len: usize, relative: isize) -> (r: Result<usize, NavError>)
    requires
        relative == -1 || relative == 1,
    ensures
        relative == -1 ==> r == if index == 0 {
            Err::<usize, NavError>(NavError::NoPrevious)
        } else {
            Ok::<usize, NavError>((index - 1) as usize)
        },
        relative == 1 ==> r == if index + 1 >= len {
            Err::<usize, NavError>(NavError::NoNext)
        } else {
            Ok::<usize, NavError>((index + 1) as usize)
        },
{
    if relative < 0 {
        if index == 0 {
            Err(NavError::NoPrevious)
        } else {
            Ok(index - 1)
        }
    } else if index >= len || len - index <= 1 {
        Err(NavError::NoNext)
    } else {
        Ok(index + 1)
    }
}

} // verus!
