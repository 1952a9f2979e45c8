//! Command-line level data and the selection of video files from a
//! directory listing.

use vstd::prelude::*;

use crate::dandan::strings_view;
use crate::text::str_chars;

verus! {

/// Which script conversion to ask the comment service for.
#[derive(Clone, Copy, Debug, PartialEq, Eq, Structural)]
pub enum SimplifiedOrTraditional {
    Simplified,
    Traditional,
    Original,
}

/// Arguments of the command that prints a file's match parameters.
pub struct MatchParamsArgs {
    pub input: String,
}

/// Arguments of the command that prints a file's match result.
pub struct MatchResultArgs {
    pub input: String,
}

/// Whether a character counts as whitespace when denylist lines are
/// trimmed.
pub open spec fn is_space(c: char) -> bool {
    let u = c as u32;
    (0x9 <= u && u <= 0xD) || u == 0x20 || u == 0x85 || u == 0xA0 || u == 0x1680 || (0x2000 <= u
        && u <= 0x200A) || u == 0x2028 || u == 0x2029 || u == 0x202F || u == 0x205F || u == 0x3000
}

/// A line with leading and trailing whitespace removed.
pub open spec fn trimmed(s: Seq<char>) -> Seq<char>
    decreases s.len(),
{
    if s.len() == 0 {
        s
    } else if is_space(s.first()) {
        trimmed(s.drop_first())
    } else if is_space(s.last()) {
        trimmed(s.drop_last())
    } else {
        s
    }
}

/// The denylist entries of a file's text: one per line, trimmed, empty
/// lines left out.
pub open spec fn spec_denylist(lines: Seq<Seq<char>>) -> Seq<Seq<char>>
    decreases lines.len(),
{
    if lines.len() == 0 {
        Seq::empty()
    } else {
        spec_denylist(lines.drop_last()) + (if trimmed(lines.last()).len() > 0 {
            seq![trimmed(lines.last())]
        } else {
            Seq::empty()
        })
    }
}

/// Lines of a text, split on newline characters.
pub open spec fn split_lines(s: Seq<char>) -> Seq<Seq<char>>
    decreases s.len(),
{
    if s.len() == 0 {
        seq![Seq::empty()]
    } else {
        let rest = split_lines(s.drop_last());
        if s.last() == '\n' {
            rest.push(Seq::empty())
        } else {
            rest.update(rest.len() - 1, rest.last().push(s.last()))
        }
    }
}

/// A text always has at least one (possibly empty) line.
proof fn lemma_split_lines_len(s: Seq<char>)
    ensures
        split_lines(s).len() >= 1,
    decreases s.len(),
{
    if s.len() > 0 {
        lemma_split_lines_len(s.drop_last());
    }
}

fn is_space_char(c: char) -> (r: bool)
    ensures
        r == is_space(c),
{
    let u = c as u32;
    (0x9 <= u && u <= 0xD) || u == 0x20 || u == 0x85 || u == 0xA0 || u == 0x1680 || (0x2000 <= u
        && u <= 0x200A) || u == 0x2028 || u == 0x2029 || u == 0x202F || u == 0x205F || u == 0x3000
}

/// Trims one line.
fn trim_chars(v: Vec<char>) -> (r: Vec<char>)
    ensures
        r@ == trimmed(v@),
    decreases v@.len(),
{
    let n = v.len();
    if n == 0 {
        v
    } else if is_space_char(v[0]) {
        let mut rest: Vec<char> = Vec::new();
        let mut i: usize = 1;
        while i < n
            invariant
                1 <= i <= n,
                n == v@.len(),
                rest@ =~= v@.subrange(1, i as int),
            decreases n - i,
        {
            rest.push(v[i]);
            assert(rest@ =~= v@.subrange(1, i as int + 1));
            i = i + 1;
        }
        proof {
            assert(rest@ =~= v@.drop_first());
        }
        trim_chars(rest)
    } else if is_space_char(v[n - 1]) {
        let mut rest: Vec<char> = Vec::new();
        let mut i: usize = 0;
        while i < n - 1
            invariant
                i <= n - 1,
                n == v@.len(),
                n >= 1,
                rest@ =~= v@.subrange(0, i as int),
            decreases n - 1 - i,
        {
            rest.push(v[i]);
            assert(rest@ =~= v@.subrange(0, i as int + 1));
            i = i + 1;
        }
        proof {
            assert(rest@ =~= v@.drop_last());
            assert(!is_space(v@.first()));
        }
        trim_chars(rest)
    } else {
        v
    }
}

/// Reads a denylist file's text: one entry per line, trimmed, empty lines
/// dropped.
pub fn parse_denylist(text: &str) -> (r: Vec<String>)
    ensures
        strings_view(r@) == spec_denylist(split_lines(text@)),
{
    let chars = str_chars(text);
    let n = chars.len();
    let mut r: Vec<String> = Vec::new();
    let mut line: Vec<char> = Vec::new();
    let mut i: usize = 0;
    proof {
        assert(chars@.take(0) =~= Seq::<char>::empty());
        assert(strings_view(r@) =~= spec_denylist(split_lines(chars@.take(0)).drop_last()));
    }
    while i < n
        invariant
            i <= n,
            n == chars@.len(),
            chars@ == text@,
            split_lines(chars@.take(i as int)).last() == line@,
            strings_view(r@) =~= spec_denylist(
                split_lines(chars@.take(i as int)).drop_last(),
            ),
        decreases n - i,
    {
        let c = chars[i];
        proof {
            assert(chars@.take(i as int + 1).drop_last() =~= chars@.take(i as int));
            assert(chars@.take(i as int + 1).last() == chars@[i as int]);
            lemma_split_lines_len(chars@.take(i as int));
            lemma_split_lines_len(chars@.take(i as int + 1));
        }
        if c == '\n' {
            let ghost r0 = r@;
            let ghost sl0 = split_lines(chars@.take(i as int));
            let done = trim_chars(line);
            if done.len() > 0 {
                let mut s = String::new();
                let m = done.len();
                let mut j: usize = 0;
                while j < m
                    invariant
                        j <= m,
                        m == done@.len(),
                        s@ =~= done@.take(j as int),
                    decreases m - j,
                {
                    crate::text::push_char(&mut s, done[j]);
                    assert(s@ =~= done@.take(j as int + 1));
                    j = j + 1;
                }
                proof {
                    assert(s@ =~= done@);
                }
                r.push(s);
                proof {
                    assert(strings_view(r@) =~= strings_view(r0).push(done@));
                }
            }
            line = Vec::new();
            proof {
                let sl = split_lines(chars@.take(i as int + 1));
                assert(sl =~= sl0.push(Seq::empty()));
                assert(sl.drop_last() =~= sl0);
                assert(spec_denylist(sl0) =~= spec_denylist(sl0.drop_last()) + (
                if trimmed(sl0.last()).len() > 0 {
                    seq![trimmed(sl0.last())]
                } else {
                    Seq::<Seq<char>>::empty()
                }));
                assert(strings_view(r@) =~= spec_denylist(sl.drop_last()));
            }
        } else {
            line.push(c);
            proof {
                let sl0 = split_lines(chars@.take(i as int));
                let sl = split_lines(chars@.take(i as int + 1));
                assert(sl =~= sl0.update(sl0.len() - 1, sl0.last().push(chars@[i as int])));
                assert(sl.drop_last() =~= sl0.drop_last());
                assert(sl.last() == line@);
            }
        }
        i = i + 1;
    }
    proof {
        assert(chars@.take(n as int) =~= chars@);
        lemma_split_lines_len(text@);
    }
    let done = trim_chars(line);
    if done.len() > 0 {
        let ghost r0 = r@;
        let mut s = String::new();
        let m = done.len();
        let mut j: usize = 0;
        while j < m
            invariant
                j <= m,
                m == done@.len(),
                s@ =~= done@.take(j as int),
            decreases m - j,
        {
            crate::text::push_char(&mut s, done[j]);
            assert(s@ =~= done@.take(j as int + 1));
            j = j + 1;
        }
        proof {
            assert(s@ =~= done@);
        }
        r.push(s);
        proof {
            assert(strings_view(r@) =~= strings_view(r0).push(done@));
            let sl = split_lines(text@);
            assert(spec_denylist(sl) =~= spec_denylist(sl.drop_last()) + seq![trimmed(sl.last())]);
        }
    } else {
        proof {
            let sl = split_lines(text@);
            assert(spec_denylist(sl) =~= spec_denylist(sl.drop_last()));
        }
    }
    r
}

/// Whether `suffix` ends `s`.
pub open spec fn ends_with_str(s: Seq<char>, suffix: Seq<char>) -> bool {
    s.len() >= suffix.len() && s.skip(s.len() - suffix.len()) == suffix
}

/// Whether a path names a video file, by its extension.
pub open spec fn is_video_path(s: Seq<char>) -> bool {
    ||| ends_with_str(s, ".mp4"@)
    ||| ends_with_str(s, ".mov"@)
    ||| ends_with_str(s, ".wmv"@)
    ||| ends_with_str(s, ".avi"@)
    ||| ends_with_str(s, ".flv"@)
    ||| ends_with_str(s, ".f4v"@)
    ||| ends_with_str(s, ".swf"@)
    ||| ends_with_str(s, ".mkv"@)
    ||| ends_with_str(s, ".webm"@)
}

/// The video files of a directory listing, in listing order.
pub open spec fn filter_videos(es: Seq<Seq<char>>) -> Seq<Seq<char>>
    decreases es.len(),
{
    if es.len() == 0 {
        Seq::empty()
    } else {
        filter_videos(es.drop_last()) + (if is_video_path(es.last()) {
            seq![es.last()]
        } else {
            Seq::empty()
        })
    }
}

/// Whether the characters end with the given suffix.
fn chars_ends_with(v: &Vec<char>, suffix: &str) -> (r: bool)
    ensures
        r == ends_with_str(v@, suffix@),
{
    let sc = str_chars(suffix);
    let m = sc.len();
    let n = v.len();
    if m > n {
        return false;
    }
    let base = n - m;
    for j in 0..m
        invariant
            m <= n,
            base == n - m,
            n == v@.len(),
            m == sc@.len(),
            sc@ == suffix@,
            forall|q: int| 0 <= q < j ==> v@[base + q] == suffix@[q],
    {
        if v[base + j] != sc[j] {
            assert(v@.skip(base as int)[j as int] != suffix@[j as int]);
            return false;
        }
    }
    assert(v@.skip(base as int) =~= suffix@);
    true
}

/// Whether a path names a video file.
fn is_video_file(path: &String) -> (r: bool)
    ensures
        r == is_video_path(path@),
{
    let v = str_chars(path.as_str());
    chars_ends_with(&v, ".mp4") || chars_ends_with(&v, ".mov") || chars_ends_with(&v, ".wmv")
        || chars_ends_with(&v, ".avi") || chars_ends_with(&v, ".flv") || chars_ends_with(
        &v,
        ".f4v",
    ) || chars_ends_with(&v, ".swf") || chars_ends_with(&v, ".mkv") || chars_ends_with(&v, ".webm")
}

/// The files one input path stands for: the path itself, or — when it is a
/// directory whose entries are supplied — its video files, in listing
/// order.
pub fn input_path_to_list(input_path: String, dir_entries: Option<Vec<String>>) -> (r: Vec<String>)
    ensures
        strings_view(r@) == (match dir_entries {
            None => seq![input_path@],
            Some(es) => filter_videos(strings_view(es@)),
        }),
{
    match dir_entries {
        None => {
            let mut r: Vec<String> = Vec::new();
            r.push(input_path);
            proof {
                assert(strings_view(r@) =~= seq![r@[0]@]);
            }
            r
        },
        Some(es) => {
            let n = es.len();
            let mut r: Vec<String> = Vec::new();
            proof {
                assert(strings_view(es@).take(0) =~= Seq::<Seq<char>>::empty());
                assert(strings_view(r@) =~= filter_videos(strings_view(es@).take(0)));
            }
            for i in 0..n
                invariant
                    n == es@.len(),
                    strings_view(r@) =~= filter_videos(strings_view(es@).take(i as int)),
            {
                let ghost r0 = r@;
                if is_video_file(&es[i]) {
                    r.push(es[i].clone());
                    proof {
                        assert(strings_view(r@) =~= strings_view(r0).push(es@[i as int]@));
                    }
                }
                proof {
                    let sv = strings_view(es@);
                    assert(sv.take(i as int + 1).drop_last() =~= sv.take(i as int));
                    assert(sv.take(i as int + 1).last() == sv[i as int]);
                    assert(sv[i as int] == es@[i as int]@);
                    assert(strings_view(r@) =~= filter_videos(sv.take(i as int + 1)));
                }
            }
            proof {
                assert(strings_view(es@).take(n as int) =~= strings_view(es@));
            }
            r
        },
    }
}

} // verus!
