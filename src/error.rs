use vstd::prelude::*;

verus! {

/// A place in the source text. Lines and columns count from one; `(0, 0)` stands
/// for a place that is not known.
#[derive(Debug, Clone, Copy, PartialEq, Eq, Structural)]
pub struct Location {
    pub line: usize,
    pub column: usize,
}

impl Location {
    pub open spec fn is_unknown(self) -> bool {
        self.line == 0 && self.column == 0
    }

    pub fn new(line: usize, column: usize) -> (r: Location)
        ensures
            r.line == line,
            r.column == column,
    {
        Location { line, column }
    }

    pub fn unknown() -> (r: Location)
        ensures
            r.is_unknown(),
    {
        Location { line: 0, column: 0 }
    }
}

/// The class of an error, without its message or place.
#[derive(Debug, Clone, Copy, PartialEq, Eq, Structural)]
pub enum ErrorKind {
    Syntax,
    Runtime,
    Type,
    Name,
    IO,
}

/// Every failure of lexing, parsing or evaluation. All but `IO` carry a place.
#[derive(Debug, Clone)]
pub enum MewError {
    Syntax(String, Location),
    Runtime(String, Location),
    Type(String, Location),
    Name(String, Location),
    IO(String),
}

pub type MewResult<T> = Result<T, MewError>;

impl MewError {
    pub open spec fn spec_kind(self) -> ErrorKind {
        match self {
            MewError::Syntax(..) => ErrorKind::Syntax,
            MewError::Runtime(..) => ErrorKind::Runtime,
            MewError::Type(..) => ErrorKind::Type,
            MewError::Name(..) => ErrorKind::Name,
            MewError::IO(..) => ErrorKind::IO,
        }
    }

    pub open spec fn spec_message(self) -> Seq<char> {
        match self {
            MewError::Syntax(m, _) => m@,
            MewError::Runtime(m, _) => m@,
            MewError::Type(m, _) => m@,
            MewError::Name(m, _) => m@,
            MewError::IO(m) => m@,
        }
    }

    pub fn syntax(message: String) -> (r: MewError)
        ensures
            r == MewError::Syntax(message, Location { line: 0, column: 0 }),
    {
        MewError::Syntax(message, Location::unknown())
    }

    pub fn syntax_at(message: String, location: Location) -> (r: MewError)
        ensures
            r == MewError::Syntax(message, location),
    {
        MewError::Syntax(message, location)
    }

    pub fn runtime(message: String) -> (r: MewError)
        ensures
            r == MewError::Runtime(message, Location { line: 0, column: 0 }),
    {
        MewError::Runtime(message, Location::unknown())
    }

    pub fn runtime_at(message: String, location: Location) -> (r: MewError)
        ensures
            r == MewError::Runtime(message, location),
    {
        MewError::Runtime(message, location)
    }

    pub fn type_error(message: String) -> (r: MewError)
        ensures
            r == MewError::Type(message, Location { line: 0, column: 0 }),
    {
        MewError::Type(message, Location::unknown())
    }

    pub fn type_error_at(message: String, location: Location) -> (r: MewError)
        ensures
            r == MewError::Type(message, location),
    {
        MewError::Type(message, location)
    }

    pub fn name(message: String) -> (r: MewError)
        ensures
            r == MewError::Name(message, Location { line: 0, column: 0 }),
    {
        MewError::Name(message, Location::unknown())
    }

    pub fn name_at(message: String, location: Location) -> (r: MewError)
        ensures
            r == MewError::Name(message, location),
    {
        MewError::Name(message, location)
    }

    /// The place of the error; `IO` errors have none.
    pub fn location(&self) -> (r: Option<Location>)
        ensures
            r == match *self {
                MewError::Syntax(_, l) => Some(l),
                MewError::Runtime(_, l) => Some(l),
                MewError::Type(_, l) => Some(l),
                MewError::Name(_, l) => Some(l),
                MewError::IO(_) => None::<Location>,
            },
    {
        match self {
            MewError::Syntax(_, l) => Some(*l),
            MewError::Runtime(_, l) => Some(*l),
            MewError::Type(_, l) => Some(*l),
            MewError::Name(_, l) => Some(*l),
            MewError::IO(_) => None,
        }
    }

    pub fn kind(&self) -> (r: ErrorKind)
        ensures
            r == self.spec_kind(),
    {
        match self {
            MewError::Syntax(..) => ErrorKind::Syntax,
            MewError::Runtime(..) => ErrorKind::Runtime,
            MewError::Type(..) => ErrorKind::Type,
            MewError::Name(..) => ErrorKind::Name,
            MewError::IO(..) => ErrorKind::IO,
        }
    }

    pub fn message(&self) -> (r: String)
        ensures
            r@ == self.spec_message(),
    {
        match self {
            MewError::Syntax(m, _) => m.clone(),
            MewError::Runtime(m, _) => m.clone(),
            MewError::Type(m, _) => m.clone(),
            MewError::Name(m, _) => m.clone(),
            MewError::IO(m) => m.clone(),
        }
    }
}

} // verus!
