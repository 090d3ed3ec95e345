use vstd::prelude::*;
use vstd::string::*;
use colored::Colorize;
use crate::error::{Fault, HezenError, HezenErrorList, HezenLineInfo};
use crate::lexer::{characters, line_end, text_between};
use crate::text::{decimal, decimal_text};

verus! {

/// A text in red, as the terminal shows it.
///
/// Trusted: wraps `colored::Colorize::red` and the `Display` of its result.
/// Whether escape codes are added depends on the environment, so nothing is
/// claimed of the result.
#[verifier::external_body]
fn red(text: &str) -> String {
    text.red().to_string()
}

/// A text in bright red, as the terminal shows it.
///
/// Trusted: wraps `colored::Colorize::bright_red` and the `Display` of its
/// result. Whether escape codes are added depends on the environment, so
/// nothing is claimed of the result.
#[verifier::external_body]
fn bright_red(text: &str) -> String {
    text.bright_red().to_string()
}

/// A text in bright blue, as the terminal shows it.
///
/// Trusted: wraps `colored::Colorize::bright_blue` and the `Display` of its
/// result. Whether escape codes are added depends on the environment, so
/// nothing is claimed of the result.
#[verifier::external_body]
fn bright_blue(text: &str) -> String {
    text.bright_blue().to_string()
}

/// How many lines a text has from a position on: a line ends at a line
/// break or at the end, and a line break at the end begins no further line.
pub open spec fn count_lines(src: Seq<char>, at: nat) -> nat
    decreases src.len() - at,
{
    if at >= src.len() {
        0
    } else {
        let end = line_end(src, at);
        if at <= end < src.len() {
            1 + count_lines(src, end + 1)
        } else {
            1
        }
    }
}

/// Where the line that is `n` lines after the line at a position begins and
/// ends, if there is such a line.
pub open spec fn nth_line(src: Seq<char>, at: nat, n: nat) -> Option<(nat, nat)>
    decreases src.len() - at,
{
    if at >= src.len() {
        None
    } else {
        let end = line_end(src, at);
        if n == 0 {
            Some((at, end))
        } else if at <= end < src.len() {
            nth_line(src, end + 1, (n - 1) as nat)
        } else {
            None
        }
    }
}

/// The text of a line by its number, from one: what stands between its
/// beginning and its line break, without the carriage return that may stand
/// before the line break. A line that the text does not have is empty.
pub open spec fn line_text(src: Seq<char>, number: nat) -> Seq<char> {
    if number == 0 {
        Seq::empty()
    } else {
        match nth_line(src, 0, (number - 1) as nat) {
            Some((begin, end)) => if begin < end < src.len() && src[end - 1] == '\r' {
                src.subrange(begin as int, end - 1)
            } else if begin <= end <= src.len() {
                src.subrange(begin as int, end as int)
            } else {
                Seq::empty()
            },
            None => Seq::empty(),
        }
    }
}

/// A number of spaces.
pub open spec fn spaces(n: nat) -> Seq<char>
    decreases n,
{
    if n == 0 {
        Seq::empty()
    } else {
        spaces((n - 1) as nat).push(' ')
    }
}

/// The label of a line in the margin: its number, behind as many spaces as
/// make it as wide as the number of the last line, and a bar.
pub open spec fn line_label(src: Seq<char>, line: nat) -> Seq<char> {
    let number = decimal_text(line);
    let width = decimal_text(count_lines(src, 0)).len();
    spaces(if width > number.len() {
        (width - number.len()) as nat
    } else {
        0
    }) + number + " |"@
}

/// The word for the kind of a diagnostic.
pub open spec fn kind_word(fault: Fault) -> Seq<char> {
    match fault {
        Fault::Syntax(_, _) => "syntax error"@,
        Fault::Validation(_, _) => "validation error"@,
        Fault::Runtime(_, _) => "runtime error"@,
    }
}

/// The parts of a report that the terminal shows in colour.
pub struct Painted {
    /// The word for the kind of the diagnostic.
    pub kind: String,
    /// The arrow before the place.
    pub arrow: String,
    /// The label of the line in the margin.
    pub label: String,
    /// The bar of the margin.
    pub bar: String,
    /// The caret under the column.
    pub caret: String,
}

/// The report of a diagnostic over its source text, given its coloured
/// parts: the kind and the message; the place; the line of the source text
/// in a margin; and under it a caret at the column.
pub open spec fn report_text(
    fault: Fault,
    src: Seq<char>,
    kind: Seq<char>,
    arrow: Seq<char>,
    label: Seq<char>,
    bar: Seq<char>,
    caret: Seq<char>,
) -> Seq<char> {
    let place = fault.place();
    let margin = spaces((line_label(src, place.line as nat).len() - 1) as nat) + bar;
    kind + ": "@ + fault.message() + "\n"@ + arrow + " "@ + place.file + ":"@ + decimal_text(
        place.line as nat,
    ) + ":"@ + decimal_text(place.column as nat) + "\n"@ + margin + "\n"@ + label + " "@
        + line_text(src, place.line as nat) + "\n"@ + margin + spaces(place.column as nat) + caret
        + "\n"@ + margin + "\n"@
}

/// A number of spaces.
pub fn blank(n: usize) -> (r: String)
    ensures
        r@ == spaces(n as nat),
{
    let mut text = String::new();
    let mut i: usize = 0;
    while i < n
        invariant
            i <= n,
            text@ == spaces(i as nat),
        decreases n - i,
    {
        crate::text::push_char(&mut text, ' ');
        i = i + 1;
    }
    text
}

fn line_end_of(chars: &Vec<char>, from: usize) -> (r: usize)
    requires
        from <= chars@.len(),
    ensures
        r == line_end(chars@, from as nat),
        from <= r <= chars@.len(),
{
    let mut at = from;
    while at < chars.len() && chars[at] != '\n'
        invariant
            from <= at <= chars@.len(),
            line_end(chars@, from as nat) == line_end(chars@, at as nat),
        decreases chars@.len() - at,
    {
        at = at + 1;
    }
    at
}

/// How many lines a text has.
pub fn lines_in(chars: &Vec<char>) -> (r: usize)
    ensures
        r == count_lines(chars@, 0),
{
    let mut count: usize = 0;
    let mut at: usize = 0;
    while at < chars.len()
        invariant
            at <= chars@.len(),
            count <= at,
            count_lines(chars@, 0) == count + count_lines(chars@, at as nat),
        decreases chars@.len() - at,
    {
        let end = line_end_of(chars, at);
        count = count + 1;
        if end < chars.len() {
            at = end + 1;
        } else {
            at = end;
        }
    }
    count
}

/// The text of a line by its number, from one.
#[verifier::loop_isolation(false)]
pub fn line_of(chars: &Vec<char>, number: usize) -> (r: String)
    ensures
        r@ == line_text(chars@, number as nat),
{
    if number == 0 {
        return String::new();
    }
    let mut left = number - 1;
    let mut at: usize = 0;
    while at < chars.len()
        invariant
            at <= chars@.len(),
            nth_line(chars@, 0, (number - 1) as nat) == nth_line(chars@, at as nat, left as nat),
        decreases chars@.len() - at,
    {
        let end = line_end_of(chars, at);
        if left == 0 {
            if at < end && end < chars.len() && chars[end - 1] == '\r' {
                return text_between(chars, at, end - 1);
            } else {
                return text_between(chars, at, end);
            }
        }
        if end < chars.len() {
            at = end + 1;
            left = left - 1;
        } else {
            return String::new();
        }
    }
    String::new()
}

/// The label of a line in the margin.
pub fn label_of(chars: &Vec<char>, line: usize) -> (r: String)
    ensures
        r@ == line_label(chars@, line as nat),
{
    let number = decimal(line);
    let width = decimal(lines_in(chars)).as_str().unicode_len();
    let length = number.as_str().unicode_len();
    let mut text = if width > length {
        blank(width - length)
    } else {
        blank(0)
    };
    text.append(number.as_str());
    text.append(" |");
    text
}

impl HezenError {
    /// The place of this diagnostic.
    pub fn place(&self) -> (r: &HezenLineInfo)
        ensures
            r@ == self@.place(),
    {
        match self {
            HezenError::Syntax(info, _) => info,
            HezenError::Validation(info, _) => info,
            HezenError::Runtime(info, _) => info,
        }
    }

    /// The message of this diagnostic.
    pub fn message(&self) -> (r: &String)
        ensures
            r@ == self@.message(),
    {
        match self {
            HezenError::Syntax(_, message) => message,
            HezenError::Validation(_, message) => message,
            HezenError::Runtime(_, message) => message,
        }
    }

    /// The word for the kind of this diagnostic.
    pub fn kind(&self) -> (r: String)
        ensures
            r@ == kind_word(self@),
    {
        match self {
            HezenError::Syntax(_, _) => String::from_str("syntax error"),
            HezenError::Validation(_, _) => String::from_str("validation error"),
            HezenError::Runtime(_, _) => String::from_str("runtime error"),
        }
    }

    /// The report of this diagnostic over its source text, given its
    /// coloured parts.
    pub fn details(&self, source: &Vec<char>, painted: &Painted) -> (r: String)
        ensures
            r@ == report_text(
                self@,
                source@,
                painted.kind@,
                painted.arrow@,
                painted.label@,
                painted.bar@,
                painted.caret@,
            ),
    {
        let info = self.place();
        let plain = label_of(source, info.line);
        let width = plain.as_str().unicode_len();
        let mut margin = if width > 0 {
            blank(width - 1)
        } else {
            blank(0)
        };
        margin.append(painted.bar.as_str());
        let mut text = painted.kind.clone();
        text.append(": ");
        text.append(self.message().as_str());
        text.append("\n");
        text.append(painted.arrow.as_str());
        text.append(" ");
        text.append(info.file.as_str());
        text.append(":");
        text.append(decimal(info.line).as_str());
        text.append(":");
        text.append(decimal(info.column).as_str());
        text.append("\n");
        text.append(margin.as_str());
        text.append("\n");
        text.append(painted.label.as_str());
        text.append(" ");
        text.append(line_of(source, info.line).as_str());
        text.append("\n");
        text.append(margin.as_str());
        text.append(blank(info.column).as_str());
        text.append(painted.caret.as_str());
        text.append("\n");
        text.append(margin.as_str());
        text.append("\n");
        text
    }

    /// The report of this diagnostic over its source text, in the colours of
    /// the terminal: the kind in red, the arrow, the label and the bar in
    /// bright blue, the caret in bright red.
    pub fn print_details(&self, source: &str) -> (r: String)
        ensures
            exists|kind: Seq<char>, arrow: Seq<char>, label: Seq<char>, bar: Seq<char>, caret: Seq<char>|
                r@ == report_text(self@, source@, kind, arrow, label, bar, caret),
    {
        let chars = characters(source);
        let plain = label_of(&chars, self.place().line);
        let painted = Painted {
            kind: red(self.kind().as_str()),
            arrow: bright_blue(" -->"),
            label: bright_blue(plain.as_str()),
            bar: bright_blue("|"),
            caret: bright_red("^"),
        };
        let text = self.details(&chars, &painted);
        assert(text@ == report_text(
            self@,
            source@,
            painted.kind@,
            painted.arrow@,
            painted.label@,
            painted.bar@,
            painted.caret@,
        ));
        text
    }
}

/// A text followed by the report of a diagnostic.
pub open spec fn followed(
    before: Seq<char>,
    fault: Fault,
    src: Seq<char>,
    kind: Seq<char>,
    arrow: Seq<char>,
    label: Seq<char>,
    bar: Seq<char>,
    caret: Seq<char>,
) -> Seq<char> {
    before + report_text(fault, src, kind, arrow, label, bar, caret)
}

/// That a text is the reports of the first `n` diagnostics of a list, one
/// after the other, for some colouring of each.
pub open spec fn reports(faults: Seq<Fault>, src: Seq<char>, n: nat, text: Seq<char>) -> bool
    decreases n,
{
    if 0 < n <= faults.len() {
        exists|
            before: Seq<char>,
            kind: Seq<char>,
            arrow: Seq<char>,
            label: Seq<char>,
            bar: Seq<char>,
            caret: Seq<char>,
        |
            text == #[trigger] followed(
                before,
                faults[n - 1],
                src,
                kind,
                arrow,
                label,
                bar,
                caret,
            ) && reports(faults, src, (n - 1) as nat, before)
    } else {
        text.len() == 0
    }
}

impl HezenErrorList {
    /// The reports of the diagnostics over their source text, one after the
    /// other, in the colours of the terminal.
    pub fn print_details(&self, source: &str) -> (r: String)
        ensures
            reports(self@, source@, self@.len(), r@),
    {
        let errors = self.iter();
        let mut text = String::new();
        let mut i: usize = 0;
        while i < errors.len()
            invariant
                i <= errors@.len(),
                errors@.len() == self@.len(),
                forall|j: int| 0 <= j < errors@.len() ==> (#[trigger] errors@[j])@ == self@[j],
                reports(self@, source@, i as nat, text@),
            decreases errors.len() - i,
        {
            let ghost before = text@;
            let report = errors[i].print_details(source);
            text.append(report.as_str());
            proof {
                let (kind, arrow, label, bar, caret) = choose|
                    kind: Seq<char>,
                    arrow: Seq<char>,
                    label: Seq<char>,
                    bar: Seq<char>,
                    caret: Seq<char>,
                |
                    report@ == report_text(errors@[i as int]@, source@, kind, arrow, label, bar, caret);
                assert(text@ == followed(
                    before,
                    self@[i as int],
                    source@,
                    kind,
                    arrow,
                    label,
                    bar,
                    caret,
                ));
                assert(reports(self@, source@, ((i + 1) - 1) as nat, before));
                assert(reports(self@, source@, (i + 1) as nat, text@));
            }
            i = i + 1;
        }
        text
    }
}

} // verus!
