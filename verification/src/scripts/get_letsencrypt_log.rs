//! certbot's own log, whole or its last lines.
use vstd::prelude::*;

use crate::scripts::file_read::{FileRead, FileReadView};
use crate::text::{copy_str, join, join_from, lines, lines_of, strs};

verus! {

/// Where certbot writes its log.
pub const LOG_FILE: &'static str = "/var/log/letsencrypt/letsencrypt.log";

/// The log file's path, as characters.
pub open spec fn log_file_of() -> Seq<char> {
    "/var/log/letsencrypt/letsencrypt.log"@
}

/// The part of the log to return: with `Some(n)` and `n > 0`, its last `n`
/// lines joined by `\n` (all of them when there are fewer); otherwise the
/// whole text unchanged.
pub open spec fn log_tail(content: Seq<char>, tail_lines: Option<usize>) -> Seq<char> {
    match tail_lines {
        Some(n) => if n > 0 {
            let ls = lines(content);
            let start = if ls.len() >= n {
                ls.len() - n
            } else {
                0
            };
            join(ls.skip(start), "\n"@)
        } else {
            content
        },
        None => content,
    }
}

/// What reading the log gives: its (tail of) text, or an error.
pub open spec fn log_result(read: FileReadView, tail_lines: Option<usize>) -> Result<Seq<char>, Seq<char>> {
    match read {
        FileReadView::Content(c) => Ok(log_tail(c, tail_lines)),
        FileReadView::NotFound => Err("Log file not found: "@ + log_file_of()),
        FileReadView::Failed(e) => Err("Failed to read "@ + log_file_of() + ": "@ + e),
    }
}

/// The last `tail_lines` lines of `content`, or all of it.
pub fn tail_of_log(content: String, tail_lines: Option<usize>) -> (r: String)
    ensures
        r@ == log_tail(content@, tail_lines),
{
    match tail_lines {
        Some(n) => {
            if n > 0 {
                let ls = lines_of(content.as_str());
                let start = if ls.len() >= n {
                    ls.len() - n
                } else {
                    0
                };
                join_from(&ls, start, "\n")
            } else {
                content
            }
        },
        None => content,
    }
}

/// The log's text (or its tail), from what reading the log file gave.
pub fn letsencrypt_log(read: FileRead, tail_lines: Option<usize>) -> (r: Result<String, String>)
    ensures
        match r {
            Ok(s) => log_result(read@, tail_lines) == Ok::<Seq<char>, Seq<char>>(s@),
            Err(e) => log_result(read@, tail_lines) == Err::<Seq<char>, Seq<char>>(e@),
        },
{
    match read {
        FileRead::Content(c) => Ok(tail_of_log(c, tail_lines)),
        FileRead::NotFound => {
            let mut m = copy_str("Log file not found: ");
            m.append(LOG_FILE);
            Err(m)
        },
        FileRead::Failed(e) => {
            let mut m = copy_str("Failed to read ");
            m.append(LOG_FILE);
            m.append(": ");
            m.append(e.as_str());
            Err(m)
        },
    }
}

} // verus!
