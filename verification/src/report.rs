//! Report rendering: one title line, then one line per ranked entry, at most
//! the configured number of entries, each formatted as `- #(<count>) "<content>"`.

use vstd::prelude::*;
use vstd::string::StringExecFns;
use crate::counts::pairs_view;

verus! {

/// The decimal digit character for `d`.
pub open spec fn digit_char(d: int) -> char {
    if d == 0 {
        '0'
    } else if d == 1 {
        '1'
    } else if d == 2 {
        '2'
    } else if d == 3 {
        '3'
    } else if d == 4 {
        '4'
    } else if d == 5 {
        '5'
    } else if d == 6 {
        '6'
    } else if d == 7 {
        '7'
    } else if d == 8 {
        '8'
    } else {
        '9'
    }
}

/// The decimal digits of `n`, most significant first, without leading zeros
/// (a single zero for zero itself).
pub open spec fn dec_digits(n: int) -> Seq<char>
    decreases n,
{
    if n < 10 {
        seq![digit_char(n)]
    } else {
        dec_digits(n / 10).push(digit_char(n % 10))
    }
}

/// The title line of the report.
pub open spec fn report_title() -> Seq<char> {
    "# Duplicate strings Report"@
}

/// One ranked report line: the count in parentheses, then the content in
/// quotation marks.
pub open spec fn report_line(k: Seq<char>, c: u64) -> Seq<char> {
    "- #("@ + dec_digits(c as int) + ") \""@ + k + "\""@
}

/// One decimal digit as a string slice.
fn digit_str(d: u64) -> (s: &'static str)
    requires
        d < 10,
    ensures
        s@ == seq![digit_char(d as int)],
{
    let s: &'static str = if d == 0 {
        "0"
    } else if d == 1 {
        "1"
    } else if d == 2 {
        "2"
    } else if d == 3 {
        "3"
    } else if d == 4 {
        "4"
    } else if d == 5 {
        "5"
    } else if d == 6 {
        "6"
    } else if d == 7 {
        "7"
    } else if d == 8 {
        "8"
    } else {
        "9"
    };
    proof {
        reveal_strlit("0");
        reveal_strlit("1");
        reveal_strlit("2");
        reveal_strlit("3");
        reveal_strlit("4");
        reveal_strlit("5");
        reveal_strlit("6");
        reveal_strlit("7");
        reveal_strlit("8");
        reveal_strlit("9");
        assert(s@ =~= seq![digit_char(d as int)]);
    }
    s
}

/// Render `n` in decimal.
pub fn u64_to_string(n: u64) -> (s: String)
    ensures
        s@ == dec_digits(n as int),
    decreases n,
{
    if n < 10 {
        digit_str(n).to_owned()
    } else {
        let mut s = u64_to_string(n / 10);
        s.append(digit_str(n % 10));
        proof {
            assert(s@ =~= dec_digits(n as int));
        }
        s
    }
}

/// Render one ranked entry as a report line.
pub fn render_line(value: &String, count: u64) -> (line: String)
    ensures
        line@ == report_line(value@, count),
{
    let mut line = u64_to_string(count);
    line = "- #(".to_owned().concat(line.as_str());
    line.append(") \"");
    line.append(value.as_str());
    line.append("\"");
    proof {
        assert(line@ =~= report_line(value@, count));
    }
    line
}

/// Render the whole report: the title line, then the first `max_lines`
/// ranked entries (all of them when fewer), one line each, in rank order.
pub fn render_report(ranked: &Vec<(String, u64)>, max_lines: usize) -> (lines: Vec<String>)
    ensures
        lines@.len() == 1 + if ranked@.len() < max_lines as int {
            ranked@.len() as int
        } else {
            max_lines as int
        },
        lines@[0]@ == report_title(),
        forall|i: int|
            0 <= i < lines@.len() - 1 ==> (#[trigger] lines@[i + 1])@ == report_line(
                pairs_view(ranked@)[i].0,
                pairs_view(ranked@)[i].1,
            ),
{
    let n = if ranked.len() < max_lines {
        ranked.len()
    } else {
        max_lines
    };
    let mut lines: Vec<String> = Vec::new();
    lines.push("# Duplicate strings Report".to_owned());
    let mut i: usize = 0;
    while i < n
        invariant
            n <= ranked@.len(),
            n == if ranked@.len() < max_lines as int {
                ranked@.len() as int
            } else {
                max_lines as int
            },
            i <= n,
            lines@.len() == i + 1,
            lines@[0]@ == report_title(),
            forall|j: int|
                0 <= j < i ==> (#[trigger] lines@[j + 1])@ == report_line(
                    pairs_view(ranked@)[j].0,
                    pairs_view(ranked@)[j].1,
                ),
        decreases n - i,
    {
        let p = &ranked[i];
        let line = render_line(&p.0, p.1);
        proof {
            assert(pairs_view(ranked@)[i as int] == (ranked@[i as int].0@, ranked@[i as int].1));
        }
        lines.push(line);
        i = i + 1;
    }
    lines
}

} // verus!
