use vstd::prelude::*;

verus! {

/// A caller identity.  The host platform hands identities around as opaque
/// principals; all this library ever reads of one is its textual form, so a
/// principal is modelled here as exactly that text.
pub struct Principal {
    pub text: String,
}

impl View for Principal {
    type V = Seq<char>;

    open spec fn view(&self) -> Seq<char> {
        self.text@
    }
}

impl Principal {
    /// Wraps the textual form of an identity.
    pub fn new(text: String) -> (r: Principal)
        ensures
            r@ == text@,
    {
        Principal { text }
    }

    /// The textual form back.
    pub fn text(&self) -> (r: &String)
        ensures
            r@ == self@,
    {
        &self.text
    }
}

impl Clone for Principal {
    fn clone(&self) -> (r: Self)
        ensures
            r@ == self@,
    {
        Principal { text: self.text.clone() }
    }
}

impl PartialEq for Principal {
    fn eq(&self, other: &Self) -> (r: bool) {
        self.text == other.text
    }
}

impl vstd::std_specs::cmp::PartialEqSpecImpl for Principal {
    open spec fn obeys_eq_spec() -> bool {
        true
    }

    open spec fn eq_spec(&self, other: &Self) -> bool {
        self@ == other@
    }
}

impl Eq for Principal {}

} // verus!
