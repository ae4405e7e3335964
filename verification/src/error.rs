//! Why a load failed.

use vstd::prelude::*;

verus! {

/// Why the text of a record file is not a record of the expected shape.
#[derive(Debug, PartialEq, Eq)]
pub enum ParseReason {
    /// The text is not valid TOML; the parser's message.
    Syntax(String),
    /// A required field, named here, is absent.
    MissingField(String),
    /// The field named here holds a value of the wrong type.
    WrongType(String),
}

/// Why a schema document cannot give a field order.
#[derive(Debug, PartialEq, Eq)]
pub enum SchemaReason {
    /// The text is not a JSON object; the parser's message.
    Syntax(String),
    /// The document has no `properties` member.
    MissingProperties,
    /// The `properties` member is not an object.
    PropertiesNotObject,
}

/// A failed load, with the path of the file at fault.
#[derive(Debug, PartialEq, Eq)]
pub enum LoadError {
    /// The file could not be read; the message is the reader's.
    Io { path: String, message: String },
    /// The file's content is not a record of the expected shape.
    Parse { path: String, reason: ParseReason },
    /// The schema document is malformed or lacks its `properties` section.
    Schema { path: String, cause: SchemaReason },
}

/// Mathematical content of a [`ParseReason`].
pub enum ParseReasonView {
    Syntax(Seq<char>),
    MissingField(Seq<char>),
    WrongType(Seq<char>),
}

/// Mathematical content of a [`SchemaReason`].
pub enum SchemaReasonView {
    Syntax(Seq<char>),
    MissingProperties,
    PropertiesNotObject,
}

/// Mathematical content of a [`LoadError`].
pub enum LoadErrorView {
    Io { path: Seq<char>, message: Seq<char> },
    Parse { path: Seq<char>, reason: ParseReasonView },
    Schema { path: Seq<char>, cause: SchemaReasonView },
}

impl View for ParseReason {
    type V = ParseReasonView;

    open spec fn view(&self) -> ParseReasonView {
        match self {
            ParseReason::Syntax(message) => ParseReasonView::Syntax(message@),
            ParseReason::MissingField(name) => ParseReasonView::MissingField(name@),
            ParseReason::WrongType(name) => ParseReasonView::WrongType(name@),
        }
    }
}

impl View for SchemaReason {
    type V = SchemaReasonView;

    open spec fn view(&self) -> SchemaReasonView {
        match self {
            SchemaReason::Syntax(message) => SchemaReasonView::Syntax(message@),
            SchemaReason::MissingProperties => SchemaReasonView::MissingProperties,
            SchemaReason::PropertiesNotObject => SchemaReasonView::PropertiesNotObject,
        }
    }
}

impl View for LoadError {
    type V = LoadErrorView;

    open spec fn view(&self) -> LoadErrorView {
        match self {
            LoadError::Io { path, message } => LoadErrorView::Io {
                path: path@,
                message: message@,
            },
            LoadError::Parse { path, reason } => LoadErrorView::Parse {
                path: path@,
                reason: reason@,
            },
            LoadError::Schema { path, cause } => LoadErrorView::Schema {
                path: path@,
                cause: cause@,
            },
        }
    }
}

impl LoadError {
    /// The path of the file that the load failed on.
    pub fn path(&self) -> (path: &String)
        ensures
            path@ == match self@ {
                LoadErrorView::Io { path, .. } => path,
                LoadErrorView::Parse { path, .. } => path,
                LoadErrorView::Schema { path, .. } => path,
            },
    {
        match self {
            LoadError::Io { path, .. } => path,
            LoadError::Parse { path, .. } => path,
            LoadError::Schema { path, .. } => path,
        }
    }
}

} // verus!
