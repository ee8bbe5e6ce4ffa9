//! Diagnostic events that cannot carry sensitive payloads: only an operation name, an
//! entity identifier and an error code, all chosen by the application.
use vstd::prelude::*;

verus! {

#[derive(Clone, Debug, PartialEq, Eq)]
pub struct DiagnosticEvent {
    operation: &'static str,
    entity_id: Option<String>,
    error_code: Option<&'static str>,
}

/// The one-line text of a diagnostic event.
pub open spec fn diagnostic_text(operation: Seq<char>, entity_id: Option<Seq<char>>, error_code: Option<Seq<char>>) -> Seq<char> {
    "operation="@ + operation + match entity_id {
        Some(e) => " entity_id="@ + e,
        None => seq![],
    } + match error_code {
        Some(c) => " error_code="@ + c,
        None => seq![],
    }
}

impl DiagnosticEvent {
    pub closed spec fn operation_of(&self) -> Seq<char> {
        self.operation@
    }

    pub closed spec fn entity_of(&self) -> Option<Seq<char>> {
        match self.entity_id {
            Some(e) => Some(e@),
            None => None,
        }
    }

    pub closed spec fn code_of(&self) -> Option<Seq<char>> {
        match self.error_code {
            Some(c) => Some(c@),
            None => None,
        }
    }

    pub fn success(operation: &'static str, entity_id: Option<String>) -> (e: Self)
        ensures
            e.operation_of() == operation@,
            e.entity_of() == crate::platform::text_opt(entity_id),
            e.code_of() is None,
    {
        DiagnosticEvent { operation, entity_id, error_code: None }
    }

    pub fn failure(operation: &'static str, entity_id: Option<String>, error_code: &'static str) -> (e: Self)
        ensures
            e.operation_of() == operation@,
            e.entity_of() == crate::platform::text_opt(entity_id),
            e.code_of() == Some(error_code@),
    {
        DiagnosticEvent { operation, entity_id, error_code: Some(error_code) }
    }

    /// `operation=<op>[ entity_id=<id>][ error_code=<code>]`, and nothing else.
    pub fn text(&self) -> (s: String)
        ensures
            s@ == diagnostic_text(self.operation_of(), self.entity_of(), self.code_of()),
    {
        let mut s = String::from_str("operation=");
        s.append(self.operation);
        match &self.entity_id {
            Some(e) => {
                s.append(" entity_id=");
                s.append(e.as_str());
            },
            None => {},
        }
        match self.error_code {
            Some(c) => {
                s.append(" error_code=");
                s.append(c);
            },
            None => {},
        }
        proof {
            assert(s@ =~= diagnostic_text(self.operation_of(), self.entity_of(), self.code_of()));
        }
        s
    }
}

/// An error as shown to the user: a stable code and a fixed message.
#[derive(Clone, Debug, PartialEq, Eq)]
pub struct PublicError {
    pub code: &'static str,
    pub message: &'static str,
    pub recoverable: bool,
}

} // verus!
