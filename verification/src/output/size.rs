use vstd::prelude::*;
use vstd::string::StringSliceAdditionalSpecFns;
use vstd::utf8::encode_utf8;

use crate::gfx::Size;
use crate::utils::text::{parse_u32, parse_unsigned};

verus! {

/// The number an environment variable holds, as `str::parse::<u16>` reads
/// it, or `default` when it is unset or holds no such number.
pub open spec fn env_number(value: Option<Seq<char>>, default: u16) -> u32 {
    match value {
        Some(v) => match parse_unsigned(encode_utf8(v), u16::MAX as nat) {
            Some(n) => n as u32,
            None => default as u32,
        },
        None => default as u32,
    }
}

/// Reads an environment variable's value as a `u16`.
fn parse_u16(value: Option<&str>) -> (r: Option<u16>)
    ensures
        r == match value {
            Some(v) => match parse_unsigned(encode_utf8(v@), u16::MAX as nat) {
                Some(n) => Some(n as u16),
                None => None,
            },
            None => None,
        },
{
    match value {
        None => None,
        Some(v) => match parse_u32(v.as_bytes()) {
            Some(n) => {
                if n <= 65535 {
                    Some(n as u16)
                } else {
                    None
                }
            },
            None => None,
        },
    }
}

/// The terminal's size in cells from the columns and rows that the kernel
/// reports: where either is zero, the values of `COLUMNS` and `LINES` are
/// used instead, 80 and 24 when those do not hold a number.
pub fn window_size(ws_col: u16, ws_row: u16, columns: Option<&str>, lines: Option<&str>) -> (s:
    Size)
    ensures
        s == if ws_col == 0 || ws_row == 0 {
            Size { width: env_number(opt_view(columns), 80), height: env_number(opt_view(lines), 24) }
        } else {
            Size { width: ws_col as u32, height: ws_row as u32 }
        },
{
    if ws_col == 0 || ws_row == 0 {
        let cols = match parse_u16(columns) {
            Some(n) => n,
            None => 80,
        };
        let rows = match parse_u16(lines) {
            Some(n) => n,
            None => 24,
        };
        Size::new(cols as u32, rows as u32)
    } else {
        Size::new(ws_col as u32, ws_row as u32)
    }
}

/// The characters of an optional string.
pub open spec fn opt_view(s: Option<&str>) -> Option<Seq<char>> {
    match s {
        Some(s) => Some(s@),
        None => None,
    }
}


/// The number an environment variable holds, or `default` when it is
/// unset, holds no number, or holds zero.
pub open spec fn env_nonzero(value: Option<Seq<char>>, default: u16) -> u16 {
    let n = env_number(value, 0);
    if n == 0 {
        default
    } else {
        n as u16
    }
}

/// The terminal's size in cells for measuring the window: where the kernel
/// reports no columns or no rows, `COLUMNS` and `LINES` are used instead,
/// and 80 and 24 where those are unset, not a number, or zero.
pub fn terminal_cells(ws_col: u16, ws_row: u16, columns: Option<&str>, lines: Option<&str>) -> (s:
    Size<u16>)
    ensures
        s == if ws_col == 0 || ws_row == 0 {
            Size { width: env_nonzero(opt_view(columns), 80), height: env_nonzero(opt_view(lines), 24) }
        } else {
            Size { width: ws_col, height: ws_row }
        },
{
    if ws_col == 0 || ws_row == 0 {
        let cols = match parse_u16(columns) {
            Some(n) if n != 0 => n,
            _ => 80,
        };
        let rows = match parse_u16(lines) {
            Some(n) if n != 0 => n,
            _ => 24,
        };
        Size::new(cols, rows)
    } else {
        Size::new(ws_col, ws_row)
    }
}


/// The cells the browser gets of a terminal of `term` cells: at least one
/// column, and every row but one, which the navigation bar keeps (at least
/// one row is left).
pub fn browser_cells(term: Size<u16>) -> (s: Size)
    ensures
        s == (Size {
            width: if term.width >= 1 { term.width as u32 } else { 1u32 },
            height: if term.height >= 2 { (term.height - 1) as u32 } else { 1u32 },
        }),
{
    let width = if term.width >= 1 {
        term.width
    } else {
        1
    };
    let height = if term.height >= 2 {
        term.height
    } else {
        2
    };
    Size::new(width as u32, (height - 1) as u32)
}

} // verus!
