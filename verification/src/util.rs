//! Terminal display helpers: underlined file names for log output.

use promkit::crossterm::style::Stylize;
use vstd::prelude::*;
use vstd::string::StrSliceExecFns;
use vstd::string::StringExecFns;

use crate::text::str_chars;

verus! {

/// A text wrapped in the terminal's underline and reset sequences.
pub open spec fn underlined_text(s: Seq<char>) -> Seq<char> {
    "\u{1b}[4m"@ + s + "\u{1b}[0m"@
}

/// Relies on crossterm's `Stylize::underlined` (through promkit's
/// re-export): styling plain text wraps it in the underline attribute
/// sequence and the reset sequence.
#[verifier::external_body]
fn underline(s: &str) -> (r: String)
    ensures
        r@ == underlined_text(s@),
{
    s.underlined().to_string()
}

/// Where the file name of a path begins: right after the last slash.
pub open spec fn file_name_start(s: Seq<char>) -> int
    decreases s.len(),
{
    if s.len() == 0 {
        0
    } else if s.last() == '/' {
        s.len() as int
    } else {
        file_name_start(s.drop_last())
    }
}

/// The file name of a path: the text after the last slash, unless that
/// text is empty or a relative-directory marker.
pub open spec fn spec_file_name(s: Seq<char>) -> Option<Seq<char>> {
    let name = s.skip(file_name_start(s));
    if name.len() == 0 || name == "."@ || name == ".."@ {
        None
    } else {
        Some(name)
    }
}

/// How a path is shown in messages: its file name underlined, or the whole
/// path when it has no file name.
pub open spec fn spec_display_filename(s: Seq<char>) -> Seq<char> {
    match spec_file_name(s) {
        Some(name) => underlined_text(name),
        None => s,
    }
}

/// The position after the last slash of the path.
fn find_file_name_start(chars: &Vec<char>) -> (r: usize)
    ensures
        r == file_name_start(chars@),
        r <= chars@.len(),
{
    let n = chars.len();
    proof {
        assert(chars@.take(n as int) =~= chars@);
    }
    let mut i = n;
    while i > 0
        invariant
            i <= n,
            n == chars@.len(),
            file_name_start(chars@) == file_name_start(chars@.take(i as int)),
        decreases i,
    {
        proof {
            assert(chars@.take(i as int).last() == chars@[i - 1]);
            assert(chars@.take(i as int).drop_last() =~= chars@.take(i as int - 1));
        }
        if chars[i - 1] == '/' {
            return i;
        }
        i = i - 1;
    }
    proof {
        assert(chars@.take(0) =~= Seq::<char>::empty());
    }
    0
}

/// Formats a path for log messages, underlining its file name.
pub fn display_filename(path: &String) -> (r: String)
    ensures
        r@ == spec_display_filename(path@),
{
    let chars = str_chars(path.as_str());
    let start = find_file_name_start(&chars);
    let n = chars.len();
    let mut name = String::new();
    let mut i = start;
    while i < n
        invariant
            start <= i <= n,
            n == chars@.len(),
            name@ == chars@.subrange(start as int, i as int),
        decreases n - i,
    {
        crate::text::push_char(&mut name, chars[i]);
        assert(chars@.subrange(start as int, i as int).push(chars@[i as int]) =~= chars@.subrange(
            start as int,
            i as int + 1,
        ));
        i = i + 1;
    }
    proof {
        assert(name@ =~= path@.skip(start as int));
        reveal_strlit(".");
        reveal_strlit("..");
    }
    if start == n {
        return path.clone();
    }
    let dot = String::from_str(".");
    let dotdot = String::from_str("..");
    if name.eq(&dot) || name.eq(&dotdot) {
        return path.clone();
    }
    underline(name.as_str())
}

} // verus!
