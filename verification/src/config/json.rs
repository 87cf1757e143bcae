use vstd::prelude::*;

verus! {

/// A JSON payload, held as its text.
///
/// The proxy never looks inside a payload: it stores it with a rule and sends
/// it as a response body. The text is what goes on the wire.
#[derive(Debug, Clone, PartialEq, Eq)]
pub struct Json(pub String);

impl View for Json {
    type V = Seq<char>;

    open spec fn view(&self) -> Seq<char> {
        self.0@
    }
}

impl Json {
    /// Wraps a payload's text.
    pub fn new(text: String) -> (json: Json)
        ensures
            json@ == text@,
    {
        Json(text)
    }

    /// The payload's text, as it is sent in a response body.
    pub fn text(&self) -> (text: String)
        ensures
            text@ == self@,
    {
        self.0.clone()
    }
}

} // verus!
