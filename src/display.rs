//! Display strings for search results: a manifest's path with its parent
//! directory highlighted, and a match count.

use colored::Colorize;
use vstd::prelude::*;
use vstd::string::StringExecFns;
use vstd::string::StringSliceAdditionalSpecFns;
use crate::paths::{split_dir_path_parts_str, split_view, DirectoryType, PartsView};

verus! {

/// `s` holds no escape character.
pub open spec fn no_escape(s: Seq<char>) -> bool {
    forall|i: int| 0 <= i < s.len() ==> s[i] != '\u{1b}'
}

/// The terminal sequence that turns the foreground green.
pub open spec fn green_on() -> Seq<char> {
    seq!['\u{1b}', '[', '3', '2', 'm']
}

/// The terminal sequence that resets all attributes.
pub open spec fn reset_all() -> Seq<char> {
    seq!['\u{1b}', '[', '0', 'm']
}

/// `g` is `s` shown in the colour that `on` turns on: as it is when
/// colouring is off, else between `on` and the reset sequence.
pub open spec fn painted_with(g: Seq<char>, s: Seq<char>, on: Seq<char>) -> bool {
    g == s || g == on + s + reset_all()
}

/// `g` is `s` shown green.
pub open spec fn painted_green(g: Seq<char>, s: Seq<char>) -> bool {
    painted_with(g, s, green_on())
}

/// The terminal sequence that turns the foreground red.
pub open spec fn red_on() -> Seq<char> {
    seq!['\u{1b}', '[', '3', '1', 'm']
}

/// The terminal sequence that turns the foreground yellow.
pub open spec fn yellow_on() -> Seq<char> {
    seq!['\u{1b}', '[', '3', '3', 'm']
}

/// The terminal sequence that turns the foreground magenta.
pub open spec fn purple_on() -> Seq<char> {
    seq!['\u{1b}', '[', '3', '5', 'm']
}

/// Relies on colored's `Colorize::green` and the `Display` of
/// `ColoredString`: the text as it is when colouring is off (which the
/// environment and terminal decide), else the green sequence, the text and
/// the reset sequence; a text with no escape character in it is not altered.
#[verifier::external_body]
pub(crate) fn green(s: &str) -> (r: String)
    ensures
        no_escape(s@) ==> painted_green(r@, s@),
{
    s.green().to_string()
}

/// Relies on colored's `Colorize::red` and the `Display` of
/// `ColoredString`, as `green` does.
#[verifier::external_body]
pub(crate) fn red(s: &str) -> (r: String)
    ensures
        no_escape(s@) ==> painted_with(r@, s@, red_on()),
{
    s.red().to_string()
}

/// Relies on colored's `Colorize::yellow` and the `Display` of
/// `ColoredString`, as `green` does.
#[verifier::external_body]
pub(crate) fn yellow(s: &str) -> (r: String)
    ensures
        no_escape(s@) ==> painted_with(r@, s@, yellow_on()),
{
    s.yellow().to_string()
}

/// Relies on colored's `Colorize::purple` (the magenta foreground) and the
/// `Display` of `ColoredString`, as `green` does.
#[verifier::external_body]
pub(crate) fn purple(s: &str) -> (r: String)
    ensures
        no_escape(s@) ==> painted_with(r@, s@, purple_on()),
{
    s.purple().to_string()
}

/// The argument that the display of `v` shows green: the parent
/// directory, or `.` for a file directly in the searched directory.
pub open spec fn green_part(v: PartsView) -> Seq<char> {
    if v.start && v.prefix.len() == 0 {
        "."@
    } else {
        v.parent
    }
}

/// The display of `v`, with `g` standing for its green part.
pub open spec fn display_of(v: PartsView, g: Seq<char>) -> Seq<char> {
    if v.prefix.len() == 0 {
        g + "/"@ + v.file
    } else {
        v.prefix + "/"@ + g + "/"@ + v.file
    }
}

/// `r` is a display of `file` relative to `dir`, whatever the colouring.
pub open spec fn dir_display(r: Seq<char>, file: Seq<u8>, dir: Seq<u8>) -> bool {
    let v = split_view(file, dir);
    no_escape(green_part(v)) ==> exists|g: Seq<char>| painted_green(g, green_part(v)) && r == display_of(v, g)
}

/// `r` is the match-count display of `n`, whatever the colouring.
pub open spec fn matches_info(r: Seq<char>, n: nat) -> bool {
    exists|g: Seq<char>| painted_green(g, decimal(n)) && r == "("@ + g + " matches)"@
}

/// The display of `file_path` relative to `current_dir`: `./file` for a
/// file in it, else `parent/file` or `prefix/parent/file`, with `.` or the
/// parent shown green.
pub fn build_directory_display(file_path: &str, current_dir: &str) -> (r: String)
    ensures
        dir_display(r@, file_path.spec_bytes(), current_dir.spec_bytes()),
{
    let dir_type = split_dir_path_parts_str(file_path, current_dir);
    let ghost v = dir_type@;
    let (start, parts) = match dir_type {
        DirectoryType::Start(p) => (true, p),
        DirectoryType::Nested(p) => (false, p),
    };
    let highlighted = if start && parts.prefix.as_str().is_empty() {
        green(".")
    } else {
        green(parts.parent.as_str())
    };
    let mut out = if parts.prefix.as_str().is_empty() {
        highlighted
    } else {
        let mut o = parts.prefix.as_str().to_owned();
        o.append("/");
        o.append(highlighted.as_str());
        o
    };
    out.append("/");
    out.append(parts.file.as_str());
    proof {
        if no_escape(green_part(v)) {
            assert(painted_green(highlighted@, green_part(v)));
            assert(out@ =~= display_of(v, highlighted@));
        }
    }
    out
}

/// The display of `file_path` relative to `root_dir`.
pub fn get_colored_dir_path(file_path: &str, root_dir: &str) -> (r: String)
    ensures
        dir_display(r@, file_path.spec_bytes(), root_dir.spec_bytes()),
{
    build_directory_display(file_path, root_dir)
}

/// The decimal digit `d`.
pub open spec fn digit(d: nat) -> char {
    if d == 0 {
        '0'
    } else if d == 1 {
        '1'
    } else if d == 2 {
        '2'
    } else if d == 3 {
        '3'
    } else if d == 4 {
        '4'
    } else if d == 5 {
        '5'
    } else if d == 6 {
        '6'
    } else if d == 7 {
        '7'
    } else if d == 8 {
        '8'
    } else {
        '9'
    }
}

/// The decimal notation of `n`.
pub open spec fn decimal(n: nat) -> Seq<char>
    decreases n,
{
    if n < 10 {
        seq![digit(n)]
    } else {
        decimal(n / 10).push(digit(n % 10))
    }
}

proof fn lemma_decimal_no_escape(n: nat)
    ensures
        no_escape(decimal(n)),
    decreases n,
{
    if n >= 10 {
        lemma_decimal_no_escape(n / 10);
    }
}

fn digit_str(d: usize) -> (r: &'static str)
    requires
        d < 10,
    ensures
        r@ == seq![digit(d as nat)],
{
    if d == 0 {
        proof {
            reveal_strlit("0");
            assert("0"@ =~= seq![digit(0)]);
        }
        "0"
    } else if d == 1 {
        proof {
            reveal_strlit("1");
            assert("1"@ =~= seq![digit(1)]);
        }
        "1"
    } else if d == 2 {
        proof {
            reveal_strlit("2");
            assert("2"@ =~= seq![digit(2)]);
        }
        "2"
    } else if d == 3 {
        proof {
            reveal_strlit("3");
            assert("3"@ =~= seq![digit(3)]);
        }
        "3"
    } else if d == 4 {
        proof {
            reveal_strlit("4");
            assert("4"@ =~= seq![digit(4)]);
        }
        "4"
    } else if d == 5 {
        proof {
            reveal_strlit("5");
            assert("5"@ =~= seq![digit(5)]);
        }
        "5"
    } else if d == 6 {
        proof {
            reveal_strlit("6");
            assert("6"@ =~= seq![digit(6)]);
        }
        "6"
    } else if d == 7 {
        proof {
            reveal_strlit("7");
            assert("7"@ =~= seq![digit(7)]);
        }
        "7"
    } else if d == 8 {
        proof {
            reveal_strlit("8");
            assert("8"@ =~= seq![digit(8)]);
        }
        "8"
    } else {
        proof {
            reveal_strlit("9");
            assert("9"@ =~= seq![digit(9)]);
        }
        "9"
    }
}

/// The decimal notation of `n`.
pub fn decimal_string(n: usize) -> (r: String)
    ensures
        r@ == decimal(n as nat),
    decreases n,
{
    if n < 10 {
        digit_str(n).to_owned()
    } else {
        let mut s = decimal_string(n / 10);
        s.append(digit_str(n % 10));
        s
    }
}

/// `(N matches)`, with the count shown green.
pub fn build_matches_info(matches: usize) -> (r: String)
    ensures
        matches_info(r@, matches as nat),
{
    let count = decimal_string(matches);
    let shown = green(count.as_str());
    proof {
        lemma_decimal_no_escape(matches as nat);
    }
    let mut out = "(".to_owned();
    out.append(shown.as_str());
    out.append(" matches)");
    assert(painted_green(shown@, decimal(matches as nat)) && out@ == "("@ + shown@ + " matches)"@);
    out
}

} // verus!
