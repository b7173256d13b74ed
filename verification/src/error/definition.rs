//! Static error definitions: codes, owners, classes and severities.
//!
//! An error code is a dot-separated name of at least two non-empty
//! segments: the segments before the last one form its namespace and hold
//! only upper-case ASCII letters, ASCII digits and underscores; the last
//! segment holds only ASCII digits. An owner holds only those namespace
//! characters. A definition's owner is the first segment of its code.

use vstd::prelude::*;
use crate::contracts::Version;
use crate::status::Retryability;
use crate::text::{is_blank, str_equal, str_is_blank};

verus! {

/// An upper-case ASCII letter, an ASCII digit or an underscore.
pub open spec fn is_namespace_char(c: char) -> bool {
    (65 <= c as u32 <= 90) || (48 <= c as u32 <= 57) || c == '_'
}

/// An ASCII digit.
pub open spec fn is_ascii_digit(c: char) -> bool {
    48 <= c as u32 <= 57
}

/// The text contains a dot.
pub open spec fn has_dot(s: Seq<char>) -> bool {
    exists|i: int| 0 <= i < s.len() && s[i] == '.'
}

/// Two dots stand next to each other at position `i`.
pub open spec fn double_dot_at(s: Seq<char>, i: int) -> bool {
    s[i] == '.' && s[i + 1] == '.'
}

/// Some dot-separated segment of the text is empty.
pub open spec fn has_empty_segment(s: Seq<char>) -> bool {
    ||| s.len() == 0
    ||| s[0] == '.'
    ||| s[s.len() - 1] == '.'
    ||| exists|i: int| 0 <= i < s.len() - 1 && #[trigger] double_dot_at(s, i)
}

/// No dot occurs at or after position `i`.
pub open spec fn after_last_dot(s: Seq<char>, i: int) -> bool {
    forall|j: int| i <= j < s.len() ==> s[j] != '.'
}

/// Why a text is not an error code, in the order the checks apply.
pub open spec fn code_fault(s: Seq<char>) -> Option<InvalidErrorCode> {
    if !has_dot(s) || has_empty_segment(s) {
        Some(InvalidErrorCode::Malformed)
    } else if exists|i: int| 0 <= i < s.len() && after_last_dot(s, i) && !is_ascii_digit(s[i]) {
        Some(InvalidErrorCode::MissingNumericSuffix)
    } else if exists|i: int|
        0 <= i < s.len() && s[i] != '.' && !after_last_dot(s, i) && !is_namespace_char(s[i]) {
        Some(InvalidErrorCode::InvalidNamespace)
    } else {
        None
    }
}

/// The position of the last dot of a text.
pub open spec fn last_dot(s: Seq<char>) -> int {
    choose|k: int| 0 <= k < s.len() && s[k] == '.' && after_last_dot(s, k + 1)
}

/// The position of the first dot of a text, or its length.
pub open spec fn first_dot(s: Seq<char>) -> int {
    if has_dot(s) {
        choose|k: int| 0 <= k < s.len() && s[k] == '.' && forall|j: int| 0 <= j < k ==> s[j] != '.'
    } else {
        s.len() as int
    }
}

/// The first dot-separated segment of a text.
pub open spec fn first_segment(s: Seq<char>) -> Seq<char> {
    s.subrange(0, first_dot(s))
}

/// Reasons a text is not an error code.
#[derive(Clone, Copy, Debug, PartialEq, Eq, Structural)]
pub enum InvalidErrorCode {
    /// Fewer than two segments, or an empty segment.
    Malformed,
    /// A namespace segment holds a character other than an upper-case
    /// letter, a digit or an underscore.
    InvalidNamespace,
    /// The last segment holds a character other than a digit.
    MissingNumericSuffix,
}

impl InvalidErrorCode {
    /// Human-readable description of the error.
    pub fn to_string(&self) -> (r: String)
        ensures
            r@ == "invalid namespaced error code"@,
    {
        "invalid namespaced error code".to_string()
    }
}

/// A validated, namespaced error code such as `CORE.CONTRACT.001`.
#[derive(Debug)]
pub struct ErrorCode {
    value: String,
}

impl View for ErrorCode {
    type V = Seq<char>;

    closed spec fn view(&self) -> Seq<char> {
        self.value@
    }
}

impl Clone for ErrorCode {
    fn clone(&self) -> (r: Self)
        ensures
            r@ == self@,
    {
        proof {
            use_type_invariant(self);
        }
        ErrorCode { value: self.value.clone() }
    }
}

impl PartialEq for ErrorCode {
    fn eq(&self, other: &Self) -> (r: bool) {
        str_equal(self.value.as_str(), other.value.as_str())
    }
}

impl Eq for ErrorCode {}

impl vstd::std_specs::cmp::PartialEqSpecImpl for ErrorCode {
    open spec fn obeys_eq_spec() -> bool {
        true
    }

    open spec fn eq_spec(&self, other: &Self) -> bool {
        self@ == other@
    }
}

/// Finds the position of the last dot and checks the segment structure.
fn scan_code(s: &str) -> (r: Option<usize>)
    ensures
        match r {
            Some(k) => has_dot(s@) && !has_empty_segment(s@) && k < s@.len() && s@[k as int] == '.'
                && after_last_dot(s@, k + 1),
            None => !has_dot(s@) || has_empty_segment(s@),
        },
{
    let n = s.unicode_len();
    if n == 0 {
        return None;
    }
    let mut last: Option<usize> = None;
    let mut previous_dot = false;
    let mut i: usize = 0;
    while i < n
        invariant
            n == s@.len(),
            n > 0,
            i <= n,
            previous_dot == (i > 0 && s@[i - 1] == '.'),
            forall|j: int| 0 <= j < i - 1 ==> !#[trigger] double_dot_at(s@, j),
            i > 0 ==> s@[0] != '.',
            match last {
                Some(k) => k < i && s@[k as int] == '.' && forall|j: int| k < j < i ==> s@[j] != '.',
                None => forall|j: int| 0 <= j < i ==> s@[j] != '.',
            },
        decreases n - i,
    {
        let c = s.get_char(i);
        if c == '.' {
            if i == 0 || previous_dot {
                proof {
                    if i > 0 {
                        assert(double_dot_at(s@, i - 1));
                    }
                }
                return None;
            }
            last = Some(i);
            previous_dot = true;
        } else {
            previous_dot = false;
        }
        i = i + 1;
    }
    match last {
        None => None,
        Some(k) => {
            if k == n - 1 {
                None
            } else {
                Some(k)
            }
        },
    }
}

impl ErrorCode {
    #[verifier::type_invariant]
    spec fn well_formed(self) -> bool {
        code_fault(self.value@) is None
    }

    /// Parses a namespaced error code.
    pub fn new(value: &str) -> (r: Result<ErrorCode, InvalidErrorCode>)
        ensures
            match code_fault(value@) {
                Some(e) => r == Err::<ErrorCode, InvalidErrorCode>(e),
                None => r matches Ok(code) && code@ == value@,
            },
    {
        let last = match scan_code(value) {
            None => {
                return Err(InvalidErrorCode::Malformed);
            },
            Some(k) => k,
        };
        let n = value.unicode_len();
        let mut i: usize = last + 1;
        while i < n
            invariant
                n == value@.len(),
                last < i <= n,
                has_dot(value@),
                !has_empty_segment(value@),
                value@[last as int] == '.',
                after_last_dot(value@, last + 1),
                forall|j: int| last < j < i ==> is_ascii_digit(value@[j]),
            decreases n - i,
        {
            let c = value.get_char(i);
            if !('0' <= c && c <= '9') {
                proof {
                    assert(after_last_dot(value@, i as int));
                }
                return Err(InvalidErrorCode::MissingNumericSuffix);
            }
            i = i + 1;
        }
        proof {
            assert forall|j: int| 0 <= j < value@.len() && after_last_dot(value@, j)
                implies is_ascii_digit(value@[j]) by {
                if j <= last {
                    assert(value@[last as int] == '.');
                }
            }
        }
        let mut i: usize = 0;
        while i < last
            invariant
                n == value@.len(),
                last < n,
                value@[last as int] == '.',
                has_dot(value@),
                !has_empty_segment(value@),
                after_last_dot(value@, last + 1),
                forall|j: int|
                    0 <= j < value@.len() && after_last_dot(value@, j) ==> is_ascii_digit(value@[j]),
                i <= last,
                forall|j: int|
                    0 <= j < i && value@[j] != '.' ==> is_namespace_char(value@[j]),
            decreases last - i,
        {
            let c = value.get_char(i);
            if c != '.' && !(('A' <= c && c <= 'Z') || ('0' <= c && c <= '9') || c == '_') {
                proof {
                    assert(!after_last_dot(value@, i as int)) by {
                        assert(value@[last as int] == '.');
                    }
                }
                return Err(InvalidErrorCode::InvalidNamespace);
            }
            i = i + 1;
        }
        proof {
            assert forall|j: int| 0 <= j < value@.len() && value@[j] != '.' && !after_last_dot(
                value@,
                j,
            ) implies is_namespace_char(value@[j]) by {
                if j > last {
                    assert(after_last_dot(value@, j));
                }
            }
        }
        Ok(ErrorCode { value: value.to_owned() })
    }

    /// Returns the code text, which is always a well-formed code.
    pub fn as_str(&self) -> (r: &str)
        ensures
            r@ == self@,
            code_fault(self@) is None,
    {
        proof {
            use_type_invariant(self);
        }
        self.value.as_str()
    }

    /// Renders the code.
    pub fn to_string(&self) -> (r: String)
        ensures
            r@ == self@,
    {
        self.value.clone()
    }
}

/// Position of the first dot of a text, or its length when it has none.
fn find_first_dot(s: &str) -> (r: usize)
    ensures
        r as int == first_dot(s@),
        r <= s@.len(),
{
    let n = s.unicode_len();
    let mut i: usize = 0;
    while i < n
        invariant
            n == s@.len(),
            i <= n,
            forall|j: int| 0 <= j < i ==> s@[j] != '.',
        decreases n - i,
    {
        if s.get_char(i) == '.' {
            proof {
                assert(has_dot(s@));
                let k = choose|k: int|
                    0 <= k < s@.len() && s@[k] == '.' && forall|j: int| 0 <= j < k ==> s@[j] != '.';
                if k < i {
                    assert(s@[k] != '.');
                }
                if k > i {
                    assert(s@[i as int] != '.');
                }
            }
            return i;
        }
        i = i + 1;
    }
    i
}

impl ErrorCode {
    /// Returns the namespace: the code without its last segment.
    pub fn namespace(&self) -> (r: &str)
        ensures
            r@ == self@.subrange(0, last_dot(self@)),
    {
        proof {
            use_type_invariant(self);
        }
        let n = self.value.unicode_len();
        let mut i: usize = n;
        while i > 0 && self.value.as_str().get_char(i - 1) != '.'
            invariant
                n == self@.len(),
                i <= n,
                has_dot(self@),
                after_last_dot(self@, i as int),
            decreases i,
        {
            i = i - 1;
        }
        proof {
            if i == 0 {
                let w = choose|w: int| 0 <= w < self@.len() && self@[w] == '.';
                assert(self@[w] != '.');
            }
            let k = last_dot(self@);
            assert(self@[i - 1] == '.' && after_last_dot(self@, i as int));
            if k < i - 1 {
                assert(self@[i - 1] != '.');
            }
            if k > i - 1 {
                assert(self@[k] != '.');
            }
        }
        self.value.as_str().substring_char(0, i - 1)
    }

    /// Returns the first segment of the code.
    pub fn first_segment(&self) -> (r: &str)
        ensures
            r@ == first_segment(self@),
    {
        let k = find_first_dot(self.value.as_str());
        self.value.as_str().substring_char(0, k)
    }
}

/// An owner holds only upper-case letters, digits and underscores and is
/// not blank.
pub open spec fn owner_valid(s: Seq<char>) -> bool {
    !is_blank(s) && forall|i: int| 0 <= i < s.len() ==> is_namespace_char(#[trigger] s[i])
}

/// Error returned for an invalid owner namespace.
#[derive(Clone, Copy, Debug, PartialEq, Eq, Structural)]
pub struct InvalidErrorOwner;

impl InvalidErrorOwner {
    /// Human-readable description of the error.
    pub fn to_string(&self) -> (r: String)
        ensures
            r@ == "invalid error owner namespace"@,
    {
        "invalid error owner namespace".to_string()
    }
}

/// The namespace owning a family of error codes, such as `CORE`.
#[derive(Debug)]
pub struct ErrorOwner {
    value: String,
}

impl View for ErrorOwner {
    type V = Seq<char>;

    closed spec fn view(&self) -> Seq<char> {
        self.value@
    }
}

impl Clone for ErrorOwner {
    fn clone(&self) -> (r: Self)
        ensures
            r@ == self@,
    {
        ErrorOwner { value: self.value.clone() }
    }
}

impl PartialEq for ErrorOwner {
    fn eq(&self, other: &Self) -> (r: bool) {
        str_equal(self.value.as_str(), other.value.as_str())
    }
}

impl Eq for ErrorOwner {}

impl vstd::std_specs::cmp::PartialEqSpecImpl for ErrorOwner {
    open spec fn obeys_eq_spec() -> bool {
        true
    }

    open spec fn eq_spec(&self, other: &Self) -> bool {
        self@ == other@
    }
}

impl ErrorOwner {
    /// Creates an owner namespace.
    pub fn new(value: &str) -> (r: Result<ErrorOwner, InvalidErrorOwner>)
        ensures
            r is Ok <==> owner_valid(value@),
            r matches Ok(o) ==> o@ == value@,
    {
        if str_is_blank(value) {
            return Err(InvalidErrorOwner);
        }
        let n = value.unicode_len();
        let mut i: usize = 0;
        while i < n
            invariant
                n == value@.len(),
                i <= n,
                forall|j: int| 0 <= j < i ==> is_namespace_char(#[trigger] value@[j]),
            decreases n - i,
        {
            let c = value.get_char(i);
            if !(('A' <= c && c <= 'Z') || ('0' <= c && c <= '9') || c == '_') {
                return Err(InvalidErrorOwner);
            }
            i = i + 1;
        }
        Ok(ErrorOwner { value: value.to_owned() })
    }

    /// Returns the owner text.
    pub fn as_str(&self) -> (r: &str)
        ensures
            r@ == self@,
    {
        self.value.as_str()
    }
}

/// Broad classification of an error.
#[derive(Clone, Copy, Debug, PartialEq, Eq, Structural)]
pub enum ErrorClass {
    Transport,
    Contract,
    Validation,
    Authorization,
    Capability,
    Execution,
    Resource,
    Internal,
}

/// Severity of an error.
#[derive(Clone, Copy, Debug, PartialEq, Eq, Structural)]
pub enum Severity {
    Warning,
    Error,
    Critical,
}

/// Reasons a definition is refused.
#[derive(Clone, Copy, Debug, PartialEq, Eq, Structural)]
pub enum InvalidDefinition {
    /// The default message is blank.
    EmptyMessage,
    /// The owner is not the first segment of the code.
    OwnerNamespaceMismatch,
}

/// The human-readable description of a definition error.
pub open spec fn invalid_definition_text(e: InvalidDefinition) -> Seq<char> {
    match e {
        InvalidDefinition::EmptyMessage => "an error definition message must not be empty"@,
        InvalidDefinition::OwnerNamespaceMismatch => "the error owner must match the code namespace"@,
    }
}

impl InvalidDefinition {
    /// Human-readable description of the error.
    pub fn to_string(&self) -> (r: String)
        ensures
            r@ == invalid_definition_text(*self),
    {
        match self {
            InvalidDefinition::EmptyMessage => "an error definition message must not be empty".to_string(),
            InvalidDefinition::OwnerNamespaceMismatch => "the error owner must match the code namespace".to_string(),
        }
    }
}

/// Abstract value of an error definition.
pub struct ErrorDefinitionView {
    pub code: Seq<char>,
    pub owner: Seq<char>,
    pub version: Version,
    pub class: ErrorClass,
    pub severity: Severity,
    pub default_message: Seq<char>,
    pub retryability: Retryability,
    pub solution_reference: Option<Seq<char>>,
}

/// The static definition of one error.
#[derive(Debug, PartialEq, Eq)]
pub struct ErrorDefinition {
    pub code: ErrorCode,
    pub owner: ErrorOwner,
    pub version: Version,
    pub class: ErrorClass,
    pub severity: Severity,
    pub default_message: String,
    pub retryability: Retryability,
    pub solution_reference: Option<String>,
}

/// The abstract value of an optional text.
pub open spec fn opt_text(t: Option<String>) -> Option<Seq<char>> {
    match t {
        Some(s) => Some(s@),
        None => None,
    }
}

/// A copy of an optional text.
pub fn copy_opt_text(t: &Option<String>) -> (r: Option<String>)
    ensures
        opt_text(r) == opt_text(*t),
{
    match t {
        Some(s) => Some(s.clone()),
        None => None,
    }
}

/// Whether two optional texts are equal.
pub fn opt_text_equal(a: &Option<String>, b: &Option<String>) -> (r: bool)
    ensures
        r == (opt_text(*a) == opt_text(*b)),
{
    match (a, b) {
        (Some(x), Some(y)) => str_equal(x.as_str(), y.as_str()),
        (None, None) => true,
        _ => false,
    }
}

impl View for ErrorDefinition {
    type V = ErrorDefinitionView;

    open spec fn view(&self) -> ErrorDefinitionView {
        ErrorDefinitionView {
            code: self.code@,
            owner: self.owner@,
            version: self.version,
            class: self.class,
            severity: self.severity,
            default_message: self.default_message@,
            retryability: self.retryability,
            solution_reference: opt_text(self.solution_reference),
        }
    }
}

impl Clone for ErrorDefinition {
    fn clone(&self) -> (r: Self)
        ensures
            r@ == self@,
    {
        ErrorDefinition {
            code: self.code.clone(),
            owner: self.owner.clone(),
            version: self.version,
            class: self.class,
            severity: self.severity,
            default_message: self.default_message.clone(),
            retryability: self.retryability,
            solution_reference: copy_opt_text(&self.solution_reference),
        }
    }
}

impl ErrorDefinition {
    /// Creates a definition without a solution reference; its default
    /// message must not be blank and its owner must be the first segment of
    /// its code.
    pub fn new(
        code: ErrorCode,
        owner: ErrorOwner,
        version: Version,
        class: ErrorClass,
        severity: Severity,
        default_message: &str,
        retryability: Retryability,
    ) -> (r: Result<ErrorDefinition, InvalidDefinition>)
        ensures
            r is Ok <==> !is_blank(default_message@) && owner@ == first_segment(code@),
            r matches Ok(d) ==> d@ == (ErrorDefinitionView {
                code: code@,
                owner: owner@,
                version,
                class,
                severity,
                default_message: default_message@,
                retryability,
                solution_reference: None,
            }),
            r matches Err(e) ==> e == (if is_blank(default_message@) {
                InvalidDefinition::EmptyMessage
            } else {
                InvalidDefinition::OwnerNamespaceMismatch
            }),
    {
        if str_is_blank(default_message) {
            return Err(InvalidDefinition::EmptyMessage);
        }
        if !str_equal(code.first_segment(), owner.as_str()) {
            return Err(InvalidDefinition::OwnerNamespaceMismatch);
        }
        Ok(
            ErrorDefinition {
                code,
                owner,
                version,
                class,
                severity,
                default_message: default_message.to_owned(),
                retryability,
                solution_reference: None,
            },
        )
    }

    /// Returns the definition with a solution reference.
    pub fn with_solution_reference(self, reference: &str) -> (r: ErrorDefinition)
        ensures
            r@ == (ErrorDefinitionView { solution_reference: Some(reference@), ..self@ }),
    {
        ErrorDefinition { solution_reference: Some(reference.to_owned()), ..self }
    }

    /// Returns the default message.
    pub fn default_message(&self) -> (r: &str)
        ensures
            r@ == self@.default_message,
    {
        self.default_message.as_str()
    }
}

/// A well-formed code is never blank: it holds a dot.
pub proof fn lemma_code_not_blank(s: Seq<char>)
    requires
        code_fault(s) is None,
    ensures
        !is_blank(s),
{
    let i = choose|i: int| 0 <= i < s.len() && s[i] == '.';
    assert(!crate::text::is_space(s[i]));
}

} // verus!
