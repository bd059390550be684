//! Error taxonomy of the archive reader: archive, index, story, usage and
//! query failures, each with an optional message.

use vstd::prelude::*;

verus! {

#[derive(Clone, Copy, Debug, PartialEq, Eq, Structural)]
pub enum ErrorKind {
    ArchiveError,
    IndexError,
    InvalidStory,
    UsageError,
    QueryError,
}

/// An error of the library: a kind, an optional message, and an optional
/// description of the underlying cause.
#[derive(Debug)]
pub struct Error {
    pub kind: ErrorKind,
    pub message: Option<String>,
    pub source: Option<String>,
}

pub struct ErrorBuilder(pub Error);

impl ErrorBuilder {
    pub fn new(kind: ErrorKind) -> (r: Self)
        ensures
            r.0.kind == kind,
            r.0.message is None,
            r.0.source is None,
    {
        ErrorBuilder(Error { kind, message: None, source: None })
    }

    pub fn message(self, message: &str) -> (r: Self)
        ensures
            r.0.kind == self.0.kind,
            r.0.message matches Some(m) && m@ == message@,
            r.0.source == self.0.source,
    {
        let ErrorBuilder(mut error) = self;
        error.message = Some(message.to_owned());
        ErrorBuilder(error)
    }

    pub fn source(self, source: &str) -> (r: Self)
        ensures
            r.0.kind == self.0.kind,
            r.0.message == self.0.message,
            r.0.source matches Some(m) && m@ == source@,
    {
        let ErrorBuilder(mut error) = self;
        error.source = Some(source.to_owned());
        ErrorBuilder(error)
    }

    pub fn build(self) -> (r: Error)
        ensures
            r == self.0,
    {
        self.0
    }
}

impl Error {
    pub fn archive(message: &str) -> (r: Self)
        ensures
            r.kind == ErrorKind::ArchiveError,
            r.message matches Some(m) && m@ == message@,
            r.source is None,
    {
        ErrorBuilder::new(ErrorKind::ArchiveError).message(message).build()
    }

    pub fn index(message: &str) -> (r: Self)
        ensures
            r.kind == ErrorKind::IndexError,
            r.message matches Some(m) && m@ == message@,
            r.source is None,
    {
        ErrorBuilder::new(ErrorKind::IndexError).message(message).build()
    }

    pub fn invalid() -> (r: Self)
        ensures
            r.kind == ErrorKind::InvalidStory,
            r.message is None,
            r.source is None,
    {
        ErrorBuilder::new(ErrorKind::InvalidStory).build()
    }

    pub fn usage(message: &str) -> (r: Self)
        ensures
            r.kind == ErrorKind::UsageError,
            r.message matches Some(m) && m@ == message@,
            r.source is None,
    {
        ErrorBuilder::new(ErrorKind::UsageError).message(message).build()
    }

    pub fn query(message: &str) -> (r: Self)
        ensures
            r.kind == ErrorKind::QueryError,
            r.message matches Some(m) && m@ == message@,
            r.source is None,
    {
        ErrorBuilder::new(ErrorKind::QueryError).message(message).build()
    }

    pub fn kind(&self) -> (r: ErrorKind)
        ensures
            r == self.kind,
    {
        self.kind
    }

    pub fn message(&self) -> (r: Option<&String>)
        ensures
            r is Some <==> self.message is Some,
            r matches Some(m) ==> (self.message matches Some(n) && m == n),
    {
        match &self.message {
            Some(m) => Some(m),
            None => None,
        }
    }
}

pub type FimfResult<T> = Result<T, Error>;

/// The label a kind prints under.
pub open spec fn spec_kind_label(kind: ErrorKind) -> Seq<char> {
    match kind {
        ErrorKind::ArchiveError => "Archive error"@,
        ErrorKind::IndexError => "Index error"@,
        ErrorKind::InvalidStory => "Invalid story"@,
        ErrorKind::UsageError => "Usage error"@,
        ErrorKind::QueryError => "Query error"@,
    }
}

pub fn kind_label(kind: ErrorKind) -> (r: &'static str)
    ensures
        r@ == spec_kind_label(kind),
{
    match kind {
        ErrorKind::ArchiveError => "Archive error",
        ErrorKind::IndexError => "Index error",
        ErrorKind::InvalidStory => "Invalid story",
        ErrorKind::UsageError => "Usage error",
        ErrorKind::QueryError => "Query error",
    }
}

/// The lowercase expansion of a character, as Unicode defines it; relied on
/// below through `char::to_lowercase`, whose result depends on the character
/// alone.
pub uninterp spec fn lower_char_of(c: char) -> Seq<char>;

/// Relies on `char::to_lowercase` of std: the Unicode lowercase mapping of
/// one character.
#[verifier::external_body]
fn char_to_lower(c: char) -> (r: String)
    ensures
        r@ == lower_char_of(c),
{
    c.to_lowercase().collect()
}

/// A message with its first character lowercased.
pub open spec fn spec_lower(s: Seq<char>) -> Seq<char> {
    if s.len() == 0 {
        s
    } else {
        lower_char_of(s[0]) + s.drop_first()
    }
}

/// Lowercases the first character of a message.
pub fn lower(message: &str) -> (r: String)
    ensures
        r@ == spec_lower(message@),
{
    let chars = crate::text::chars_of(message);
    if chars.len() == 0 {
        let mut out = String::new();
        proof {
            assert(out@ =~= spec_lower(message@));
        }
        return out;
    }
    let head = char_to_lower(chars[0]);
    let mut rest: Vec<char> = Vec::new();
    let mut i: usize = 1;
    while i < chars.len()
        invariant
            1 <= i <= chars@.len(),
            rest@ == chars@.subrange(1, i as int),
        decreases chars@.len() - i,
    {
        let c = chars[i];
        rest.push(c);
        proof {
            assert(rest@ =~= chars@.subrange(1, i + 1));
        }
        i = i + 1;
    }
    proof {
        assert(rest@ =~= message@.drop_first());
    }
    let tail = crate::text::string_from_chars(&rest);
    head.concat(tail.as_str())
}

impl Error {
    /// Formats the error the way the interactive shell prints it.
    pub fn to_message(&self) -> (r: String)
        ensures
            r@ == spec_kind_label(self.kind) + ", "@ + spec_lower(
                match self.message {
                    Some(m) => m@,
                    None => "Unknown cause"@,
                },
            ) + "."@,
    {
        let label = kind_label(self.kind);
        let body = match &self.message {
            Some(m) => lower(m.as_str()),
            None => lower("Unknown cause"),
        };
        let out = label.to_owned();
        let out = out.concat(", ");
        let out = out.concat(body.as_str());
        let out = out.concat(".");
        out
    }
}

} // verus!
