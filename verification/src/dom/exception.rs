//! `DOMException` data and the legacy code of each exception name.

use vstd::prelude::*;

use crate::error::{spec_error_name, IdbError};
use crate::text::str_eq;

verus! {

/// The legacy `code` of a `DOMException` name (0 for names without one).
pub open spec fn code_of(name: Seq<char>) -> u16 {
    if name == "IndexSizeError"@ {
        1
    } else if name == "HierarchyRequestError"@ {
        3
    } else if name == "WrongDocumentError"@ {
        4
    } else if name == "InvalidCharacterError"@ {
        5
    } else if name == "NoModificationAllowedError"@ {
        7
    } else if name == "NotFoundError"@ {
        8
    } else if name == "NotSupportedError"@ {
        9
    } else if name == "InUseAttributeError"@ {
        10
    } else if name == "InvalidStateError"@ {
        11
    } else if name == "SyntaxError"@ {
        12
    } else if name == "InvalidModificationError"@ {
        13
    } else if name == "NamespaceError"@ {
        14
    } else if name == "InvalidAccessError"@ {
        15
    } else if name == "TypeMismatchError"@ {
        17
    } else if name == "SecurityError"@ {
        18
    } else if name == "NetworkError"@ {
        19
    } else if name == "AbortError"@ {
        20
    } else if name == "URLMismatchError"@ {
        21
    } else if name == "QuotaExceededError"@ {
        22
    } else if name == "TimeoutError"@ {
        23
    } else if name == "InvalidNodeTypeError"@ {
        24
    } else if name == "DataCloneError"@ {
        25
    } else {
        0
    }
}

/// Legacy `code` of a `DOMException` name.
pub fn dom_exception_code(name: &str) -> (r: u16)
    ensures
        r == code_of(name@),
{
    if str_eq(name, "IndexSizeError") {
        1
    } else if str_eq(name, "HierarchyRequestError") {
        3
    } else if str_eq(name, "WrongDocumentError") {
        4
    } else if str_eq(name, "InvalidCharacterError") {
        5
    } else if str_eq(name, "NoModificationAllowedError") {
        7
    } else if str_eq(name, "NotFoundError") {
        8
    } else if str_eq(name, "NotSupportedError") {
        9
    } else if str_eq(name, "InUseAttributeError") {
        10
    } else if str_eq(name, "InvalidStateError") {
        11
    } else if str_eq(name, "SyntaxError") {
        12
    } else if str_eq(name, "InvalidModificationError") {
        13
    } else if str_eq(name, "NamespaceError") {
        14
    } else if str_eq(name, "InvalidAccessError") {
        15
    } else if str_eq(name, "TypeMismatchError") {
        17
    } else if str_eq(name, "SecurityError") {
        18
    } else if str_eq(name, "NetworkError") {
        19
    } else if str_eq(name, "AbortError") {
        20
    } else if str_eq(name, "URLMismatchError") {
        21
    } else if str_eq(name, "QuotaExceededError") {
        22
    } else if str_eq(name, "TimeoutError") {
        23
    } else if str_eq(name, "InvalidNodeTypeError") {
        24
    } else if str_eq(name, "DataCloneError") {
        25
    } else {
        0
    }
}

/// Native data of a `DOMException`.
#[derive(Debug)]
pub struct DomException {
    pub name: String,
    pub message: String,
    pub code: u16,
}

impl DomException {
    /// An exception named `name`, with the code of that name.
    pub fn new(name: String, message: String) -> (r: Self)
        ensures
            r.name@ == name@,
            r.message@ == message@,
            r.code == code_of(name@),
    {
        let code = dom_exception_code(name.as_str());
        DomException { name, message, code }
    }
}

/// The `DOMException` an IndexedDB error is thrown as: named after the
/// error, with the given message.
pub fn exception_for(error: &IdbError, message: String) -> (r: DomException)
    ensures
        r.name@ == spec_error_name(*error),
        r.message@ == message@,
        r.code == code_of(spec_error_name(*error)),
{
    DomException::new(crate::error::error_name(error).to_string(), message)
}

} // verus!
