//! API keys that never show up in debug output.
use vstd::prelude::*;

verus! {

/// An API key whose debug text is redacted.
pub struct ApiKey(String);

impl View for ApiKey {
    type V = Seq<char>;

    closed spec fn view(&self) -> Seq<char> {
        self.0@
    }
}

impl ApiKey {
    /// Wraps `key`.
    pub fn new(key: String) -> (k: Self)
        ensures
            k@ == key@,
    {
        ApiKey(key)
    }

    /// The key itself.
    pub fn as_str(&self) -> (s: &str)
        ensures
            s@ == self@,
    {
        self.0.as_str()
    }

    /// The text that debug output shows in place of the key.
    pub fn debug_string(&self) -> (s: String)
        ensures
            s@ == "[REDACTED:api-key]"@,
    {
        "[REDACTED:api-key]".to_owned()
    }
}

impl Clone for ApiKey {
    fn clone(&self) -> (k: Self)
        ensures
            k@ == self@,
    {
        ApiKey(self.0.clone())
    }
}

} // verus!
