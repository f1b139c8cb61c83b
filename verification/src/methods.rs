use vstd::prelude::*;
use vstd::string::StringExecFns;

verus! {

/// An HTTP verb. A closed set of four tags, each with a canonical
/// uppercase textual rendering.
#[derive(Clone, Copy, PartialEq, Eq, Structural, Debug)]
pub enum Methods {
    GET,
    POST,
    PUT,
    DELETE,
}

impl Methods {
    /// The canonical rendering of the verb, as a sequence of characters.
    pub open spec fn spec_str(self) -> Seq<char> {
        match self {
            Methods::GET => "GET"@,
            Methods::POST => "POST"@,
            Methods::PUT => "PUT"@,
            Methods::DELETE => "DELETE"@,
        }
    }

    /// The canonical rendering as a borrowed string slice.
    pub fn as_str(&self) -> (r: &'static str)
        ensures
            r@ == self.spec_str(),
    {
        match self {
            Methods::GET => "GET",
            Methods::POST => "POST",
            Methods::PUT => "PUT",
            Methods::DELETE => "DELETE",
        }
    }

    /// The canonical rendering as an owned string.
    pub fn to_string(&self) -> (r: String)
        ensures
            r@ == self.spec_str(),
    {
        String::from_str(self.as_str())
    }

    /// The diagnostic rendering: the verb wrapped in `Methods(...)`.
    pub fn debug_string(&self) -> (r: String)
        ensures
            r@ == "Methods("@ + self.spec_str() + ")"@,
    {
        let mut r = String::from_str("Methods(");
        r.append(self.as_str());
        r.append(")");
        r
    }
}

} // verus!
