//! The failures that the library reports.
use vstd::prelude::*;
use vstd::string::*;

verus! {

/// A type descriptor that the grammar rejects. Each variant carries the
/// offending descriptor and, but for `UnknownType`, the rule it breaks.
#[derive(Debug, PartialEq, Eq)]
pub enum AbiError {
    FixedMN(String, String),
    IntegerM(String, String),
    BytesM(String, String),
    Tuple(String, String),
    ArrayM(String, String),
    Array(String, String),
    UnknownType(String),
}

/// The name under which the same failure is known to readers of
/// interface documents.
pub type AbiJsonError = AbiError;

/// The mathematical content of an [`AbiError`].
pub enum AbiErrorView {
    FixedMN(Seq<char>, Seq<char>),
    IntegerM(Seq<char>, Seq<char>),
    BytesM(Seq<char>, Seq<char>),
    Tuple(Seq<char>, Seq<char>),
    ArrayM(Seq<char>, Seq<char>),
    Array(Seq<char>, Seq<char>),
    UnknownType(Seq<char>),
}

impl View for AbiError {
    type V = AbiErrorView;

    open spec fn view(&self) -> AbiErrorView {
        match *self {
            AbiError::FixedMN(d, r) => AbiErrorView::FixedMN(d@, r@),
            AbiError::IntegerM(d, r) => AbiErrorView::IntegerM(d@, r@),
            AbiError::BytesM(d, r) => AbiErrorView::BytesM(d@, r@),
            AbiError::Tuple(d, r) => AbiErrorView::Tuple(d@, r@),
            AbiError::ArrayM(d, r) => AbiErrorView::ArrayM(d@, r@),
            AbiError::Array(d, r) => AbiErrorView::Array(d@, r@),
            AbiError::UnknownType(d) => AbiErrorView::UnknownType(d@),
        }
    }
}

/// A failure of the template engine.
#[derive(Debug, PartialEq, Eq)]
pub enum TypeMappingError {
    /// No template, or no emitted tuple, is known under this name.
    NotFound(String),
    /// A placeholder marker is left after substitution. Carries the text
    /// as substituted and the placeholder names that were supplied.
    Serde(String, String),
}

/// The mathematical content of a [`TypeMappingError`].
pub enum TypeMappingErrorView {
    NotFound(Seq<char>),
    Serde(Seq<char>, Seq<char>),
}

impl View for TypeMappingError {
    type V = TypeMappingErrorView;

    open spec fn view(&self) -> TypeMappingErrorView {
        match *self {
            TypeMappingError::NotFound(n) => TypeMappingErrorView::NotFound(n@),
            TypeMappingError::Serde(t, p) => TypeMappingErrorView::Serde(t@, p@),
        }
    }
}

/// A call of the generation lifecycle made out of turn.
#[derive(Debug, Clone, Copy, PartialEq, Eq, Structural)]
pub enum ProtocolError {
    /// A contract scope was opened while another one is open.
    AlreadyOpen,
    /// An emit or finalize call came outside an open contract scope.
    NotOpen,
    /// The deploy binding was asked for a contract without deploy data.
    NoDeployData,
    /// The deploy binding was asked for twice.
    DeployedTwice,
    /// The build was finalized while contracts were still to be built.
    Unfinished,
}

/// A failure of a binding build.
#[derive(Debug, PartialEq, Eq)]
pub enum BindError {
    /// The runtime binder holds no runtime type under this name.
    UnknownType(String),
    /// A type descriptor was rejected.
    Abi(AbiError),
    /// A template could not be resolved.
    Mapping(TypeMappingError),
    /// The lifecycle was violated.
    Protocol(ProtocolError),
    /// An input document is malformed; carries what is wrong with it.
    Parse(String),
    /// The target-language generator gave up; carries its reason.
    Generator(String),
}

/// The mathematical content of a [`BindError`].
pub enum BindErrorView {
    UnknownType(Seq<char>),
    Abi(AbiErrorView),
    Mapping(TypeMappingErrorView),
    Protocol(ProtocolError),
    Parse(Seq<char>),
    Generator(Seq<char>),
}

impl View for BindError {
    type V = BindErrorView;

    open spec fn view(&self) -> BindErrorView {
        match *self {
            BindError::UnknownType(n) => BindErrorView::UnknownType(n@),
            BindError::Abi(e) => BindErrorView::Abi(e@),
            BindError::Mapping(e) => BindErrorView::Mapping(e@),
            BindError::Protocol(e) => BindErrorView::Protocol(e),
            BindError::Parse(m) => BindErrorView::Parse(m@),
            BindError::Generator(m) => BindErrorView::Generator(m@),
        }
    }
}

impl AbiErrorView {
    /// The words that open the message of this failure.
    pub open spec fn headline(self) -> Seq<char> {
        match self {
            AbiErrorView::FixedMN(_, _) => "Invalid fixed type declare "@,
            AbiErrorView::IntegerM(_, _) => "Invalid integer type declare "@,
            AbiErrorView::BytesM(_, _) => "Invalid fixed length binary type declare "@,
            AbiErrorView::Tuple(_, _) => "Invalid tuple type declare "@,
            AbiErrorView::ArrayM(_, _) => "Invalid fixed-length Array type declare "@,
            AbiErrorView::Array(_, _) => "Invalid Array type declare "@,
            AbiErrorView::UnknownType(_) => "Invalid Type declare "@,
        }
    }

    /// The message of this failure: the headline, the offending
    /// descriptor and, after a comma, the rule it breaks.
    pub open spec fn message(self) -> Seq<char> {
        match self {
            AbiErrorView::FixedMN(d, r) => self.headline() + d + ", "@ + r,
            AbiErrorView::IntegerM(d, r) => self.headline() + d + ", "@ + r,
            AbiErrorView::BytesM(d, r) => self.headline() + d + ", "@ + r,
            AbiErrorView::Tuple(d, r) => self.headline() + d + ", "@ + r,
            AbiErrorView::ArrayM(d, r) => self.headline() + d + ", "@ + r,
            AbiErrorView::Array(d, r) => self.headline() + d + ", "@ + r,
            AbiErrorView::UnknownType(d) => self.headline() + d,
        }
    }
}

/// A headline, a value and, after a comma, a rule.
fn compose(headline: &str, value: &str, rule: &str) -> (r: String)
    ensures
        r@ == headline@ + value@ + ", "@ + rule@,
{
    let mut r = String::from_str(headline);
    r.append(value);
    r.append(", ");
    r.append(rule);
    r
}

/// A headline and a value.
fn announce(headline: &str, value: &str) -> (r: String)
    ensures
        r@ == headline@ + value@,
{
    let mut r = String::from_str(headline);
    r.append(value);
    r
}

impl AbiError {
    /// The message of this failure.
    pub fn to_string(&self) -> (r: String)
        ensures
            r@ == self@.message(),
    {
        match self {
            AbiError::FixedMN(d, r) => compose("Invalid fixed type declare ", d.as_str(), r.as_str()),
            AbiError::IntegerM(d, r) => compose(
                "Invalid integer type declare ",
                d.as_str(),
                r.as_str(),
            ),
            AbiError::BytesM(d, r) => compose(
                "Invalid fixed length binary type declare ",
                d.as_str(),
                r.as_str(),
            ),
            AbiError::Tuple(d, r) => compose("Invalid tuple type declare ", d.as_str(), r.as_str()),
            AbiError::ArrayM(d, r) => compose(
                "Invalid fixed-length Array type declare ",
                d.as_str(),
                r.as_str(),
            ),
            AbiError::Array(d, r) => compose("Invalid Array type declare ", d.as_str(), r.as_str()),
            AbiError::UnknownType(d) => announce("Invalid Type declare ", d.as_str()),
        }
    }
}

impl TypeMappingErrorView {
    /// The message of this failure.
    pub open spec fn message(self) -> Seq<char> {
        match self {
            TypeMappingErrorView::NotFound(n) => "Type mapping not found for "@ + n,
            TypeMappingErrorView::Serde(t, p) => "Serde type mapping parsing error for type "@ + t
                + ", "@ + "valid placeholder: "@ + p,
        }
    }
}

impl TypeMappingError {
    /// The message of this failure.
    pub fn to_string(&self) -> (r: String)
        ensures
            r@ == self@.message(),
    {
        match self {
            TypeMappingError::NotFound(n) => announce("Type mapping not found for ", n.as_str()),
            TypeMappingError::Serde(t, p) => {
                let mut r = compose(
                    "Serde type mapping parsing error for type ",
                    t.as_str(),
                    "valid placeholder: ",
                );
                r.append(p.as_str());
                r
            },
        }
    }
}

impl ProtocolError {
    /// The message of this failure.
    pub open spec fn message(self) -> Seq<char> {
        match self {
            ProtocolError::AlreadyOpen => "a contract scope is already open"@,
            ProtocolError::NotOpen => "no contract scope is open"@,
            ProtocolError::NoDeployData => "the contract has no deploy data"@,
            ProtocolError::DeployedTwice => "the deploy binding was already emitted"@,
            ProtocolError::Unfinished => "contracts are still to be built"@,
        }
    }

    /// The message of this failure.
    pub fn to_string(&self) -> (r: String)
        ensures
            r@ == self.message(),
    {
        match self {
            ProtocolError::AlreadyOpen => String::from_str("a contract scope is already open"),
            ProtocolError::NotOpen => String::from_str("no contract scope is open"),
            ProtocolError::NoDeployData => String::from_str("the contract has no deploy data"),
            ProtocolError::DeployedTwice => String::from_str(
                "the deploy binding was already emitted",
            ),
            ProtocolError::Unfinished => String::from_str("contracts are still to be built"),
        }
    }
}

impl BindErrorView {
    /// The message of this failure.
    pub open spec fn message(self) -> Seq<char> {
        match self {
            BindErrorView::UnknownType(n) => "Runtime binder didn't found mapping runtime type for "@
                + n,
            BindErrorView::Abi(e) => e.message(),
            BindErrorView::Mapping(e) => e.message(),
            BindErrorView::Protocol(e) => "Generation protocol violated: "@ + e.message(),
            BindErrorView::Parse(m) => "Malformed input document: "@ + m,
            BindErrorView::Generator(m) => "Generator failed: "@ + m,
        }
    }
}

impl BindError {
    /// The message of this failure.
    pub fn to_string(&self) -> (r: String)
        ensures
            r@ == self@.message(),
    {
        match self {
            BindError::UnknownType(n) => announce(
                "Runtime binder didn't found mapping runtime type for ",
                n.as_str(),
            ),
            BindError::Abi(e) => e.to_string(),
            BindError::Mapping(e) => e.to_string(),
            BindError::Protocol(e) => announce(
                "Generation protocol violated: ",
                e.to_string().as_str(),
            ),
            BindError::Parse(m) => announce("Malformed input document: ", m.as_str()),
            BindError::Generator(m) => announce("Generator failed: ", m.as_str()),
        }
    }
}

} // verus!
