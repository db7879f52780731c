use vstd::prelude::*;

verus! {

/// `std::io::Error`, carried through as an opaque value.
#[verifier::external_type_specification]
#[verifier::external_body]
pub struct ExIoError(std::io::Error);

/// `rusqlite::Error`, carried through as an opaque value.
#[verifier::external_type_specification]
#[verifier::external_body]
pub struct ExSqliteError(rusqlite::Error);

/// Errors returned while reading or parsing a `.clip` file.
#[derive(Debug)]
pub enum ClipError {
    /// Wraps I/O failures from the underlying reader or filesystem.
    Io(std::io::Error),
    /// Wraps SQLite failures while reading the embedded database.
    Sqlite(rusqlite::Error),
    /// The input does not match the expected `.clip` file structure.
    InvalidFormat(&'static str),
    /// The file looks valid, but no preview payload was found.
    PreviewNotFound,
    /// The file uses a variation this crate does not support yet.
    Unsupported(&'static str),
}

/// `res` is the error `InvalidFormat` carrying exactly the message `message`.
pub open spec fn is_invalid_format<T>(res: Result<T, ClipError>, message: Seq<char>) -> bool {
    res matches Err(ClipError::InvalidFormat(m)) && m@ == message
}

impl vstd::std_specs::convert::FromSpecImpl<std::io::Error> for ClipError {
    open spec fn obeys_from_spec() -> bool {
        true
    }

    open spec fn from_spec(value: std::io::Error) -> ClipError {
        ClipError::Io(value)
    }
}

impl From<std::io::Error> for ClipError {
    fn from(value: std::io::Error) -> (res: ClipError) {
        ClipError::Io(value)
    }
}

impl vstd::std_specs::convert::FromSpecImpl<rusqlite::Error> for ClipError {
    open spec fn obeys_from_spec() -> bool {
        true
    }

    open spec fn from_spec(value: rusqlite::Error) -> ClipError {
        ClipError::Sqlite(value)
    }
}

impl From<rusqlite::Error> for ClipError {
    fn from(value: rusqlite::Error) -> (res: ClipError) {
        ClipError::Sqlite(value)
    }
}

impl ClipError {
    /// The human-readable description of this error.
    pub fn to_string(&self) -> (res: String)
        ensures
            match self {
                ClipError::Io(source) => exists|text: String|
                    #[trigger] vstd::string::to_string_from_display_ensures::<std::io::Error>(
                        source,
                        text,
                    ) && res@ == "I/O error: "@ + text@,
                ClipError::Sqlite(source) => exists|text: String|
                    #[trigger] vstd::string::to_string_from_display_ensures::<rusqlite::Error>(
                        source,
                        text,
                    ) && res@ == "SQLite error: "@ + text@,
                ClipError::InvalidFormat(m) => res@ == "invalid .clip file: "@ + m@,
                ClipError::PreviewNotFound => res@ == "preview image not found"@,
                ClipError::Unsupported(m) => res@ == "unsupported .clip file: "@ + m@,
            },
    {
        match self {
            ClipError::Io(source) => {
                let mut text = "I/O error: ".to_owned();
                let detail = source.to_string();
                text.append(detail.as_str());
                text
            },
            ClipError::Sqlite(source) => {
                let mut text = "SQLite error: ".to_owned();
                let detail = source.to_string();
                text.append(detail.as_str());
                text
            },
            ClipError::InvalidFormat(message) => {
                let mut text = "invalid .clip file: ".to_owned();
                text.append(message);
                text
            },
            ClipError::PreviewNotFound => "preview image not found".to_owned(),
            ClipError::Unsupported(message) => {
                let mut text = "unsupported .clip file: ".to_owned();
                text.append(message);
                text
            },
        }
    }
}

} // verus!
