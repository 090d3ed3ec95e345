use vstd::prelude::*;
use vstd::string::*;
use crate::text::{decimal, decimal_text};

verus! {

/// A place in a source file, as a mathematical value.
pub struct Place {
    pub file: Seq<char>,
    pub line: usize,
    pub column: usize,
}

/// A place in a source file: lines and columns count from one.
#[derive(Debug)]
pub struct HezenLineInfo {
    pub file: String,
    pub line: usize,
    pub column: usize,
}

impl View for HezenLineInfo {
    type V = Place;

    open spec fn view(&self) -> Place {
        Place { file: self.file@, line: self.line, column: self.column }
    }
}

impl Clone for HezenLineInfo {
    fn clone(&self) -> (r: Self)
        ensures
            r == *self,
    {
        HezenLineInfo { file: self.file.clone(), line: self.line, column: self.column }
    }
}

impl HezenLineInfo {
    /// The place at a line and a column of a file.
    pub fn new(file: String, line: usize, column: usize) -> (r: Self)
        ensures
            r == (HezenLineInfo { file, line, column }),
    {
        Self { file, line, column }
    }
}

/// A diagnostic as a mathematical value: its kind, its place and its message.
pub enum Fault {
    Syntax(Place, Seq<char>),
    Validation(Place, Seq<char>),
    Runtime(Place, Seq<char>),
}

impl Fault {
    /// The place of the diagnostic.
    pub open spec fn place(self) -> Place {
        match self {
            Fault::Syntax(place, _) => place,
            Fault::Validation(place, _) => place,
            Fault::Runtime(place, _) => place,
        }
    }

    /// The message of the diagnostic.
    pub open spec fn message(self) -> Seq<char> {
        match self {
            Fault::Syntax(_, message) => message,
            Fault::Validation(_, message) => message,
            Fault::Runtime(_, message) => message,
        }
    }

    /// The one-line rendering of a diagnostic.
    pub open spec fn rendering(self) -> Seq<char> {
        match self {
            Fault::Syntax(place, message) => "SyntaxError: "@ + message + " at "@ + place.file
                + ":"@ + decimal_text(place.line as nat) + ":"@ + decimal_text(
                place.column as nat,
            ),
            Fault::Validation(place, message) => "Validation error in file "@ + place.file
                + " at line "@ + decimal_text(place.line as nat) + ":"@ + decimal_text(
                place.column as nat,
            ) + ": "@ + message,
            Fault::Runtime(place, message) => "Runtime error in file "@ + place.file
                + " at line "@ + decimal_text(place.line as nat) + ":"@ + decimal_text(
                place.column as nat,
            ) + ": "@ + message,
        }
    }
}

/// A diagnostic: syntax errors come from the lexer and the parser, validation
/// errors from the resolver, runtime errors from the evaluator.
#[derive(Debug)]
pub enum HezenError {
    Syntax(HezenLineInfo, String),
    Validation(HezenLineInfo, String),
    Runtime(HezenLineInfo, String),
}

impl View for HezenError {
    type V = Fault;

    open spec fn view(&self) -> Fault {
        match self {
            HezenError::Syntax(info, message) => Fault::Syntax(info@, message@),
            HezenError::Validation(info, message) => Fault::Validation(info@, message@),
            HezenError::Runtime(info, message) => Fault::Runtime(info@, message@),
        }
    }
}

impl Clone for HezenError {
    fn clone(&self) -> (r: Self)
        ensures
            r == *self,
    {
        match self {
            HezenError::Syntax(info, message) => HezenError::Syntax(info.clone(), message.clone()),
            HezenError::Validation(info, message) => HezenError::Validation(
                info.clone(),
                message.clone(),
            ),
            HezenError::Runtime(info, message) => HezenError::Runtime(
                info.clone(),
                message.clone(),
            ),
        }
    }
}

impl HezenError {
    /// A syntax error at a place.
    pub fn syntax_error(file: String, line: usize, column: usize, msg: String) -> (r: Self)
        ensures
            r@ == Fault::Syntax(Place { file: file@, line, column }, msg@),
    {
        Self::Syntax(HezenLineInfo { file, line, column }, msg)
    }

    /// A syntax error, as the parser reports it.
    pub fn parser(file: String, line: usize, column: usize, msg: String) -> (r: Self)
        ensures
            r@ == Fault::Syntax(Place { file: file@, line, column }, msg@),
    {
        Self::Syntax(HezenLineInfo { file, line, column }, msg)
    }

    /// A validation error at a place.
    pub fn validation(file: String, line: usize, column: usize, msg: String) -> (r: Self)
        ensures
            r@ == Fault::Validation(Place { file: file@, line, column }, msg@),
    {
        Self::Validation(HezenLineInfo { file, line, column }, msg)
    }

    /// A runtime error at a place.
    pub fn runtime(file: String, line: usize, column: usize, msg: String) -> (r: Self)
        ensures
            r@ == Fault::Runtime(Place { file: file@, line, column }, msg@),
    {
        Self::Runtime(HezenLineInfo { file, line, column }, msg)
    }

    /// The one-line rendering of this diagnostic.
    pub fn to_string(&self) -> (r: String)
        ensures
            r@ == self@.rendering(),
    {
        match self {
            HezenError::Syntax(info, message) => {
                let mut text = String::from_str("SyntaxError: ");
                text.append(message.as_str());
                text.append(" at ");
                text.append(info.file.as_str());
                text.append(":");
                text.append(decimal(info.line).as_str());
                text.append(":");
                text.append(decimal(info.column).as_str());
                text
            },
            HezenError::Validation(info, message) => {
                let mut text = String::from_str("Validation error in file ");
                text.append(info.file.as_str());
                text.append(" at line ");
                text.append(decimal(info.line).as_str());
                text.append(":");
                text.append(decimal(info.column).as_str());
                text.append(": ");
                text.append(message.as_str());
                text
            },
            HezenError::Runtime(info, message) => {
                let mut text = String::from_str("Runtime error in file ");
                text.append(info.file.as_str());
                text.append(" at line ");
                text.append(decimal(info.line).as_str());
                text.append(":");
                text.append(decimal(info.column).as_str());
                text.append(": ");
                text.append(message.as_str());
                text
            },
        }
    }
}

/// The diagnostics of one run, in the order in which they were reported.
#[derive(Debug)]
pub struct HezenErrorList {
    errors: Vec<HezenError>,
}

impl View for HezenErrorList {
    type V = Seq<Fault>;

    closed spec fn view(&self) -> Seq<Fault> {
        Seq::new(self.errors@.len(), |i: int| self.errors@[i]@)
    }
}

impl Default for HezenErrorList {
    fn default() -> (r: Self)
        ensures
            r@ == Seq::<Fault>::empty(),
    {
        let r = Self { errors: Vec::new() };
        assert(r@ =~= Seq::<Fault>::empty());
        r
    }
}

impl HezenErrorList {
    /// A list that holds the one diagnostic given.
    pub fn from(error: HezenError) -> (r: Self)
        ensures
            r@ == seq![error@],
    {
        let mut errors = Vec::new();
        errors.push(error);
        let r = Self { errors };
        assert(r@ =~= seq![error@]);
        r
    }

    /// Adds a diagnostic behind those that the list holds.
    pub fn add(&mut self, error: HezenError)
        ensures
            final(self)@ == old(self)@.push(error@),
    {
        self.errors.push(error);
        assert(self@ =~= old(self)@.push(error@));
    }

    /// Whether the list holds no diagnostic.
    pub fn is_empty(&self) -> (r: bool)
        ensures
            r == (self@.len() == 0),
    {
        self.errors.len() == 0
    }

    /// How many diagnostics the list holds.
    pub fn len(&self) -> (r: usize)
        ensures
            r == self@.len(),
    {
        self.errors.len()
    }

    /// The diagnostics in the order of their report.
    pub fn iter(&self) -> (r: &Vec<HezenError>)
        ensures
            r@.len() == self@.len(),
            forall|i: int| 0 <= i < r@.len() ==> (#[trigger] r@[i])@ == self@[i],
    {
        &self.errors
    }

    /// The renderings of all diagnostics, each followed by a line break.
    pub fn to_string(&self) -> (r: String)
        ensures
            r@ == rendering_of(self@),
    {
        let mut text = String::new();
        let mut i: usize = 0;
        while i < self.errors.len()
            invariant
                i <= self.errors.len(),
                text@ == rendering_of(self@.take(i as int)),
            decreases self.errors.len() - i,
        {
            let line = self.errors[i].to_string();
            assert(self@.take(i as int + 1).drop_last() =~= self@.take(i as int));
            text.append(line.as_str());
            text.append("\n");
            i = i + 1;
        }
        assert(self@.take(i as int) =~= self@);
        text
    }
}

/// The renderings of the diagnostics of a list, each followed by a line break.
pub open spec fn rendering_of(faults: Seq<Fault>) -> Seq<char>
    decreases faults.len(),
{
    if faults.len() == 0 {
        Seq::<char>::empty()
    } else {
        rendering_of(faults.drop_last()) + faults.last().rendering() + "\n"@
    }
}

} // verus!
