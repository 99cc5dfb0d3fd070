use vstd::prelude::*;
use vstd::std_specs::cmp::PartialEqSpec;

verus! {

/// Kinds of errors that can occur. Each kind carries a message.
#[derive(Debug)]
pub enum ErrorKind {
    /// IO Error
    IO(String),
    /// Log Error
    Log(String),
    /// UTF8 Error
    Utf8(String),
    /// ArrayIndexOutOfBounds
    ArrayIndexOutOfBounds(String),
    /// Configuration Error
    Configuration(String),
    /// Poison error multiple locks
    Poison(String),
    /// CorruptedData
    CorruptedData(String),
    /// Timeout
    Timeout(String),
    /// Capacity Exceeded
    CapacityExceeded(String),
    /// UnexpectedEof Error
    UnexpectedEof(String),
    /// IllegalArgument
    IllegalArgument(String),
    /// Miscellaneous Error
    Misc(String),
    /// Illegal State
    IllegalState(String),
    /// Simulated Error used in testing
    Test(String),
    /// Overflow error
    Overflow(String),
    /// Thread Panic
    ThreadPanic(String),
    /// Memory Allocation Error
    Alloc(String),
    /// Operation not supported
    OperationNotSupported(String),
    /// system time error
    SystemTime(String),
    /// Errno system error
    Errno(String),
    /// TLS layer error
    Rustls(String),
    /// Cryptographic channel error
    Crypt(String),
    /// Http server error
    Http(String),
}

/// The names of the [`ErrorKind`]s. [`err`] and [`map_err`] build an [`Error`] of the
/// kind that carries the same name.
#[derive(Debug, Clone, Copy, PartialEq, Eq, Structural)]
pub enum ErrKind {
    /// IO Error
    IO,
    /// Log Error
    Log,
    /// UTF8 Error
    Utf8,
    /// ArrayIndexOutOfBounds
    ArrayIndexOutOfBounds,
    /// Configuration Error
    Configuration,
    /// Poison error multiple locks
    Poison,
    /// CorruptedData
    CorruptedData,
    /// Timeout
    Timeout,
    /// Capacity Exceeded
    CapacityExceeded,
    /// UnexpectedEof Error
    UnexpectedEof,
    /// IllegalArgument
    IllegalArgument,
    /// Miscellaneous Error
    Misc,
    /// Illegal State
    IllegalState,
    /// Simulated Error used in testing
    Test,
    /// Overflow error
    Overflow,
    /// Thread Panic
    ThreadPanic,
    /// Memory Allocation Error
    Alloc,
    /// Operation not supported
    OperationNotSupported,
    /// system time error
    SystemTime,
    /// Errno system error
    Errno,
    /// TLS layer error
    Rustls,
    /// Cryptographic channel error
    Crypt,
    /// Http server error
    Http,
}

impl ErrorKind {
    /// The name of this kind.
    pub open spec fn name(&self) -> ErrKind {
        match self {
            ErrorKind::IO(_) => ErrKind::IO,
            ErrorKind::Log(_) => ErrKind::Log,
            ErrorKind::Utf8(_) => ErrKind::Utf8,
            ErrorKind::ArrayIndexOutOfBounds(_) => ErrKind::ArrayIndexOutOfBounds,
            ErrorKind::Configuration(_) => ErrKind::Configuration,
            ErrorKind::Poison(_) => ErrKind::Poison,
            ErrorKind::CorruptedData(_) => ErrKind::CorruptedData,
            ErrorKind::Timeout(_) => ErrKind::Timeout,
            ErrorKind::CapacityExceeded(_) => ErrKind::CapacityExceeded,
            ErrorKind::UnexpectedEof(_) => ErrKind::UnexpectedEof,
            ErrorKind::IllegalArgument(_) => ErrKind::IllegalArgument,
            ErrorKind::Misc(_) => ErrKind::Misc,
            ErrorKind::IllegalState(_) => ErrKind::IllegalState,
            ErrorKind::Test(_) => ErrKind::Test,
            ErrorKind::Overflow(_) => ErrKind::Overflow,
            ErrorKind::ThreadPanic(_) => ErrKind::ThreadPanic,
            ErrorKind::Alloc(_) => ErrKind::Alloc,
            ErrorKind::OperationNotSupported(_) => ErrKind::OperationNotSupported,
            ErrorKind::SystemTime(_) => ErrKind::SystemTime,
            ErrorKind::Errno(_) => ErrKind::Errno,
            ErrorKind::Rustls(_) => ErrKind::Rustls,
            ErrorKind::Crypt(_) => ErrKind::Crypt,
            ErrorKind::Http(_) => ErrKind::Http,
        }
    }

    /// The message carried by this kind.
    pub open spec fn message(&self) -> Seq<char> {
        match self {
            ErrorKind::IO(m) => m@,
            ErrorKind::Log(m) => m@,
            ErrorKind::Utf8(m) => m@,
            ErrorKind::ArrayIndexOutOfBounds(m) => m@,
            ErrorKind::Configuration(m) => m@,
            ErrorKind::Poison(m) => m@,
            ErrorKind::CorruptedData(m) => m@,
            ErrorKind::Timeout(m) => m@,
            ErrorKind::CapacityExceeded(m) => m@,
            ErrorKind::UnexpectedEof(m) => m@,
            ErrorKind::IllegalArgument(m) => m@,
            ErrorKind::Misc(m) => m@,
            ErrorKind::IllegalState(m) => m@,
            ErrorKind::Test(m) => m@,
            ErrorKind::Overflow(m) => m@,
            ErrorKind::ThreadPanic(m) => m@,
            ErrorKind::Alloc(m) => m@,
            ErrorKind::OperationNotSupported(m) => m@,
            ErrorKind::SystemTime(m) => m@,
            ErrorKind::Errno(m) => m@,
            ErrorKind::Rustls(m) => m@,
            ErrorKind::Crypt(m) => m@,
            ErrorKind::Http(m) => m@,
        }
    }

    /// The text this kind displays: the prefix of its name followed by its message.
    pub open spec fn text(&self) -> Seq<char> {
        kind_prefix(self.name()) + self.message()
    }

    /// Returns the name of this kind.
    pub fn kind_name(&self) -> (r: ErrKind)
        ensures
            r == self.name(),
    {
        match self {
            ErrorKind::IO(_) => ErrKind::IO,
            ErrorKind::Log(_) => ErrKind::Log,
            ErrorKind::Utf8(_) => ErrKind::Utf8,
            ErrorKind::ArrayIndexOutOfBounds(_) => ErrKind::ArrayIndexOutOfBounds,
            ErrorKind::Configuration(_) => ErrKind::Configuration,
            ErrorKind::Poison(_) => ErrKind::Poison,
            ErrorKind::CorruptedData(_) => ErrKind::CorruptedData,
            ErrorKind::Timeout(_) => ErrKind::Timeout,
            ErrorKind::CapacityExceeded(_) => ErrKind::CapacityExceeded,
            ErrorKind::UnexpectedEof(_) => ErrKind::UnexpectedEof,
            ErrorKind::IllegalArgument(_) => ErrKind::IllegalArgument,
            ErrorKind::Misc(_) => ErrKind::Misc,
            ErrorKind::IllegalState(_) => ErrKind::IllegalState,
            ErrorKind::Test(_) => ErrKind::Test,
            ErrorKind::Overflow(_) => ErrKind::Overflow,
            ErrorKind::ThreadPanic(_) => ErrKind::ThreadPanic,
            ErrorKind::Alloc(_) => ErrKind::Alloc,
            ErrorKind::OperationNotSupported(_) => ErrKind::OperationNotSupported,
            ErrorKind::SystemTime(_) => ErrKind::SystemTime,
            ErrorKind::Errno(_) => ErrKind::Errno,
            ErrorKind::Rustls(_) => ErrKind::Rustls,
            ErrorKind::Crypt(_) => ErrKind::Crypt,
            ErrorKind::Http(_) => ErrKind::Http,
        }
    }

    /// Returns a copy of the message carried by this kind.
    pub fn message_string(&self) -> (r: String)
        ensures
            r@ == self.message(),
    {
        match self {
            ErrorKind::IO(m) => m.clone(),
            ErrorKind::Log(m) => m.clone(),
            ErrorKind::Utf8(m) => m.clone(),
            ErrorKind::ArrayIndexOutOfBounds(m) => m.clone(),
            ErrorKind::Configuration(m) => m.clone(),
            ErrorKind::Poison(m) => m.clone(),
            ErrorKind::CorruptedData(m) => m.clone(),
            ErrorKind::Timeout(m) => m.clone(),
            ErrorKind::CapacityExceeded(m) => m.clone(),
            ErrorKind::UnexpectedEof(m) => m.clone(),
            ErrorKind::IllegalArgument(m) => m.clone(),
            ErrorKind::Misc(m) => m.clone(),
            ErrorKind::IllegalState(m) => m.clone(),
            ErrorKind::Test(m) => m.clone(),
            ErrorKind::Overflow(m) => m.clone(),
            ErrorKind::ThreadPanic(m) => m.clone(),
            ErrorKind::Alloc(m) => m.clone(),
            ErrorKind::OperationNotSupported(m) => m.clone(),
            ErrorKind::SystemTime(m) => m.clone(),
            ErrorKind::Errno(m) => m.clone(),
            ErrorKind::Rustls(m) => m.clone(),
            ErrorKind::Crypt(m) => m.clone(),
            ErrorKind::Http(m) => m.clone(),
        }
    }

    /// Returns the text this kind displays, such as `IO Error: file not found`.
    pub fn to_text(&self) -> (r: String)
        ensures
            r@ == self.text(),
    {
        let mut r = prefix_of(self.kind_name());
        let m = self.message_string();
        r.append(m.as_str());
        r
    }
}

/// The prefix displayed before the message of each kind.
pub open spec fn kind_prefix(name: ErrKind) -> Seq<char> {
    match name {
        ErrKind::IO => "IO Error: "@,
        ErrKind::Log => "Log Error: "@,
        ErrKind::Utf8 => "UTF8 Error: "@,
        ErrKind::ArrayIndexOutOfBounds => "ArrayIndexOutofBounds: "@,
        ErrKind::Configuration => "Configuration Error: "@,
        ErrKind::Poison => "Poison Error: "@,
        ErrKind::CorruptedData => "Corrupted Data Error: "@,
        ErrKind::Timeout => "Timeout: "@,
        ErrKind::CapacityExceeded => "Capacity Exceeded: "@,
        ErrKind::UnexpectedEof => "UnexpectedEOF: "@,
        ErrKind::IllegalArgument => "IllegalArgument: "@,
        ErrKind::Misc => "Miscellaneous Error: "@,
        ErrKind::IllegalState => "Illegal State Error: "@,
        ErrKind::Test => "simulated test error: "@,
        ErrKind::Overflow => "overflow error: "@,
        ErrKind::ThreadPanic => "thread panic: "@,
        ErrKind::Alloc => "memory allocation error: "@,
        ErrKind::OperationNotSupported => "operation not supported error: "@,
        ErrKind::SystemTime => "system time error: "@,
        ErrKind::Errno => "errno error: "@,
        ErrKind::Rustls => "Rustls Error: "@,
        ErrKind::Crypt => "Crypt Error: "@,
        ErrKind::Http => "Http Error: "@,
    }
}

/// Returns the prefix displayed before the message of the named kind.
pub fn prefix_of(name: ErrKind) -> (r: String)
    ensures
        r@ == kind_prefix(name),
{
    let s: &str = match name {
        ErrKind::IO => "IO Error: ",
        ErrKind::Log => "Log Error: ",
        ErrKind::Utf8 => "UTF8 Error: ",
        ErrKind::ArrayIndexOutOfBounds => "ArrayIndexOutofBounds: ",
        ErrKind::Configuration => "Configuration Error: ",
        ErrKind::Poison => "Poison Error: ",
        ErrKind::CorruptedData => "Corrupted Data Error: ",
        ErrKind::Timeout => "Timeout: ",
        ErrKind::CapacityExceeded => "Capacity Exceeded: ",
        ErrKind::UnexpectedEof => "UnexpectedEOF: ",
        ErrKind::IllegalArgument => "IllegalArgument: ",
        ErrKind::Misc => "Miscellaneous Error: ",
        ErrKind::IllegalState => "Illegal State Error: ",
        ErrKind::Test => "simulated test error: ",
        ErrKind::Overflow => "overflow error: ",
        ErrKind::ThreadPanic => "thread panic: ",
        ErrKind::Alloc => "memory allocation error: ",
        ErrKind::OperationNotSupported => "operation not supported error: ",
        ErrKind::SystemTime => "system time error: ",
        ErrKind::Errno => "errno error: ",
        ErrKind::Rustls => "Rustls Error: ",
        ErrKind::Crypt => "Crypt Error: ",
        ErrKind::Http => "Http Error: ",
    };
    String::from_str(s)
}

/// Builds the kind of the given name that carries `msg`.
pub fn build_kind(name: ErrKind, msg: String) -> (r: ErrorKind)
    ensures
        r.name() == name,
        r.message() == msg@,
{
    match name {
        ErrKind::IO => ErrorKind::IO(msg),
        ErrKind::Log => ErrorKind::Log(msg),
        ErrKind::Utf8 => ErrorKind::Utf8(msg),
        ErrKind::ArrayIndexOutOfBounds => ErrorKind::ArrayIndexOutOfBounds(msg),
        ErrKind::Configuration => ErrorKind::Configuration(msg),
        ErrKind::Poison => ErrorKind::Poison(msg),
        ErrKind::CorruptedData => ErrorKind::CorruptedData(msg),
        ErrKind::Timeout => ErrorKind::Timeout(msg),
        ErrKind::CapacityExceeded => ErrorKind::CapacityExceeded(msg),
        ErrKind::UnexpectedEof => ErrorKind::UnexpectedEof(msg),
        ErrKind::IllegalArgument => ErrorKind::IllegalArgument(msg),
        ErrKind::Misc => ErrorKind::Misc(msg),
        ErrKind::IllegalState => ErrorKind::IllegalState(msg),
        ErrKind::Test => ErrorKind::Test(msg),
        ErrKind::Overflow => ErrorKind::Overflow(msg),
        ErrKind::ThreadPanic => ErrorKind::ThreadPanic(msg),
        ErrKind::Alloc => ErrorKind::Alloc(msg),
        ErrKind::OperationNotSupported => ErrorKind::OperationNotSupported(msg),
        ErrKind::SystemTime => ErrorKind::SystemTime(msg),
        ErrKind::Errno => ErrorKind::Errno(msg),
        ErrKind::Rustls => ErrorKind::Rustls(msg),
        ErrKind::Crypt => ErrorKind::Crypt(msg),
        ErrKind::Http => ErrorKind::Http(msg),
    }
}

impl Clone for ErrorKind {
    fn clone(&self) -> (r: Self)
        ensures
            r == *self,
    {
        match self {
            ErrorKind::IO(m) => ErrorKind::IO(m.clone()),
            ErrorKind::Log(m) => ErrorKind::Log(m.clone()),
            ErrorKind::Utf8(m) => ErrorKind::Utf8(m.clone()),
            ErrorKind::ArrayIndexOutOfBounds(m) => ErrorKind::ArrayIndexOutOfBounds(m.clone()),
            ErrorKind::Configuration(m) => ErrorKind::Configuration(m.clone()),
            ErrorKind::Poison(m) => ErrorKind::Poison(m.clone()),
            ErrorKind::CorruptedData(m) => ErrorKind::CorruptedData(m.clone()),
            ErrorKind::Timeout(m) => ErrorKind::Timeout(m.clone()),
            ErrorKind::CapacityExceeded(m) => ErrorKind::CapacityExceeded(m.clone()),
            ErrorKind::UnexpectedEof(m) => ErrorKind::UnexpectedEof(m.clone()),
            ErrorKind::IllegalArgument(m) => ErrorKind::IllegalArgument(m.clone()),
            ErrorKind::Misc(m) => ErrorKind::Misc(m.clone()),
            ErrorKind::IllegalState(m) => ErrorKind::IllegalState(m.clone()),
            ErrorKind::Test(m) => ErrorKind::Test(m.clone()),
            ErrorKind::Overflow(m) => ErrorKind::Overflow(m.clone()),
            ErrorKind::ThreadPanic(m) => ErrorKind::ThreadPanic(m.clone()),
            ErrorKind::Alloc(m) => ErrorKind::Alloc(m.clone()),
            ErrorKind::OperationNotSupported(m) => ErrorKind::OperationNotSupported(m.clone()),
            ErrorKind::SystemTime(m) => ErrorKind::SystemTime(m.clone()),
            ErrorKind::Errno(m) => ErrorKind::Errno(m.clone()),
            ErrorKind::Rustls(m) => ErrorKind::Rustls(m.clone()),
            ErrorKind::Crypt(m) => ErrorKind::Crypt(m.clone()),
            ErrorKind::Http(m) => ErrorKind::Http(m.clone()),
        }
    }
}

impl PartialEq for ErrorKind {
    fn eq(&self, other: &Self) -> (r: bool) {
        if self.kind_name() != other.kind_name() {
            return false;
        }
        let a = self.message_string();
        let b = other.message_string();
        a == b
    }
}

impl vstd::std_specs::cmp::PartialEqSpecImpl for ErrorKind {
    open spec fn obeys_eq_spec() -> bool {
        true
    }

    open spec fn eq_spec(&self, other: &ErrorKind) -> bool {
        self.name() == other.name() && self.message() == other.message()
    }
}

/// Base error struct used throughout this library. It holds the [`ErrorKind`] that occurred.
#[derive(Debug)]
pub struct Error {
    inner: ErrorKind,
}

impl Error {
    /// The kind this error holds.
    pub closed spec fn spec_kind(&self) -> ErrorKind {
        self.inner
    }

    /// Wraps a kind into an error.
    pub fn from_kind(kind: ErrorKind) -> (r: Error)
        ensures
            r.spec_kind() == kind,
    {
        Error { inner: kind }
    }

    /// Returns the kind of error that occurred.
    pub fn kind(&self) -> (r: ErrorKind)
        ensures
            r == self.spec_kind(),
    {
        self.inner.clone()
    }

    /// Returns the text of the kind of this error, for instance `Log Error: log not initialized`.
    pub fn inner(&self) -> (r: String)
        ensures
            r@ == self.spec_kind().text(),
    {
        self.inner.to_text()
    }
}

impl Error {
    /// The error that holds `kind`.
    pub closed spec fn spec_wrap(kind: ErrorKind) -> Error {
        Error { inner: kind }
    }

    /// The error that holds a kind holds that kind.
    pub proof fn lemma_wrap(kind: ErrorKind)
        ensures
            Error::spec_wrap(kind).spec_kind() == kind,
    {
    }
}

impl From<ErrorKind> for Error {
    fn from(kind: ErrorKind) -> (r: Error) {
        Error { inner: kind }
    }
}

impl vstd::std_specs::convert::FromSpecImpl<ErrorKind> for Error {
    open spec fn obeys_from_spec() -> bool {
        true
    }

    open spec fn from_spec(kind: ErrorKind) -> Error {
        Error::spec_wrap(kind)
    }
}

impl PartialEq for Error {
    fn eq(&self, other: &Self) -> (r: bool) {
        self.inner == other.inner
    }
}

impl vstd::std_specs::cmp::PartialEqSpecImpl for Error {
    open spec fn obeys_eq_spec() -> bool {
        true
    }

    open spec fn eq_spec(&self, other: &Error) -> bool {
        self.spec_kind().name() == other.spec_kind().name()
            && self.spec_kind().message() == other.spec_kind().message()
    }
}

/// Two errors are equal exactly when their kinds have the same name and message.
pub proof fn lemma_error_eq_is_kind_eq(a: Error, b: Error)
    ensures
        PartialEqSpec::eq_spec(&a, &b) <==> (a.spec_kind().name() == b.spec_kind().name()
            && a.spec_kind().message() == b.spec_kind().message()),
{
}

/// Whether `e` is an error whose kind has the given name and carries `msg`.
pub open spec fn is_err_of(e: Error, name: ErrKind, msg: Seq<char>) -> bool {
    e.spec_kind().name() == name && e.spec_kind().message() == msg
}

/// Builds the error whose kind has the given name and carries `msg`.
pub fn err(name: ErrKind, msg: &str) -> (r: Error)
    ensures
        r.spec_kind().name() == name,
        r.spec_kind().message() == msg@,
{
    Error::from_kind(build_kind(name, String::from_str(msg)))
}

/// Maps an error described by `cause` into an error of the given name. The message is
/// `msg`, a colon and a space, then `cause`, the text of the underlying error.
pub fn map_err(name: ErrKind, msg: &str, cause: &str) -> (r: Error)
    ensures
        r.spec_kind().name() == name,
        r.spec_kind().message() == msg@ + ": "@ + cause@,
{
    let mut m = String::from_str(msg);
    m.append(": ");
    m.append(cause);
    Error::from_kind(build_kind(name, m))
}

/// The classes of errors of the standard library and of outside crates that convert into an
/// [`Error`].
#[derive(Debug, Clone, Copy, PartialEq, Eq, Structural)]
pub enum ForeignError {
    /// An input/output error.
    Io,
    /// An OS string that is not valid unicode.
    OsString,
    /// A failed integer conversion.
    TryFromInt,
    /// A failed integer parse.
    ParseInt,
    /// A failed UTF-8 decoding.
    Utf8,
    /// A poisoned lock.
    Poison,
    /// A failed channel receive.
    Recv,
    /// A failed channel send.
    Send,
    /// A bad memory layout.
    Layout,
    /// A system time error.
    SystemTime,
    /// A system errno value.
    Errno,
    /// A value that cannot exist.
    Infallible,
    /// An error of the TLS layer.
    Rustls,
    /// A TLS signing error.
    Sign,
    /// An invalid DNS name.
    InvalidDnsName,
}

/// The kind name into which an error of the given class converts.
pub open spec fn foreign_name(source: ForeignError) -> ErrKind {
    match source {
        ForeignError::Io => ErrKind::IO,
        ForeignError::OsString => ErrKind::Misc,
        ForeignError::TryFromInt => ErrKind::Misc,
        ForeignError::ParseInt => ErrKind::Misc,
        ForeignError::Utf8 => ErrKind::Utf8,
        ForeignError::Poison => ErrKind::Poison,
        ForeignError::Recv => ErrKind::IllegalState,
        ForeignError::Send => ErrKind::IllegalState,
        ForeignError::Layout => ErrKind::Alloc,
        ForeignError::SystemTime => ErrKind::SystemTime,
        ForeignError::Errno => ErrKind::Errno,
        ForeignError::Infallible => ErrKind::Misc,
        ForeignError::Rustls => ErrKind::IO,
        ForeignError::Sign => ErrKind::IO,
        ForeignError::InvalidDnsName => ErrKind::IO,
    }
}

/// The text placed before the description of an error of the given class.
pub open spec fn foreign_lead(source: ForeignError) -> Seq<char> {
    match source {
        ForeignError::Io => ""@,
        ForeignError::OsString => ""@,
        ForeignError::TryFromInt => "TryFromIntError: "@,
        ForeignError::ParseInt => "ParseIntError: "@,
        ForeignError::Utf8 => "Utf8 error: "@,
        ForeignError::Poison => "Poison error: "@,
        ForeignError::Recv => "Recv error: "@,
        ForeignError::Send => "Send error: "@,
        ForeignError::Layout => "Layout error: "@,
        ForeignError::SystemTime => "System Time error: "@,
        ForeignError::Errno => "Errno system error: "@,
        ForeignError::Infallible => "Infallible: "@,
        ForeignError::Rustls => "Rustls error: "@,
        ForeignError::Sign => "Rustls Signing error: "@,
        ForeignError::InvalidDnsName => "Rustls Invalid DnsNameError: "@,
    }
}

/// Converts an error of the given class, whose own text is `description`, into an [`Error`].
pub fn from_foreign(source: ForeignError, description: &str) -> (r: Error)
    ensures
        r.spec_kind().name() == foreign_name(source),
        r.spec_kind().message() == foreign_lead(source) + description@,
{
    let (name, lead): (ErrKind, &str) = match source {
        ForeignError::Io => (ErrKind::IO, ""),
        ForeignError::OsString => (ErrKind::Misc, ""),
        ForeignError::TryFromInt => (ErrKind::Misc, "TryFromIntError: "),
        ForeignError::ParseInt => (ErrKind::Misc, "ParseIntError: "),
        ForeignError::Utf8 => (ErrKind::Utf8, "Utf8 error: "),
        ForeignError::Poison => (ErrKind::Poison, "Poison error: "),
        ForeignError::Recv => (ErrKind::IllegalState, "Recv error: "),
        ForeignError::Send => (ErrKind::IllegalState, "Send error: "),
        ForeignError::Layout => (ErrKind::Alloc, "Layout error: "),
        ForeignError::SystemTime => (ErrKind::SystemTime, "System Time error: "),
        ForeignError::Errno => (ErrKind::Errno, "Errno system error: "),
        ForeignError::Infallible => (ErrKind::Misc, "Infallible: "),
        ForeignError::Rustls => (ErrKind::IO, "Rustls error: "),
        ForeignError::Sign => (ErrKind::IO, "Rustls Signing error: "),
        ForeignError::InvalidDnsName => (ErrKind::IO, "Rustls Invalid DnsNameError: "),
    };
    let mut m = String::from_str(lead);
    m.append(description);
    Error::from_kind(build_kind(name, m))
}

} // verus!
