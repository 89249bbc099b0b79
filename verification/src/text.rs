//! Text helpers: lowercase forms and prefix matching.

use vstd::prelude::*;
use vstd::std_specs::iter::IteratorSpec;

verus! {

/// The lowercase form of a text, as the standard library computes it.
pub uninterp spec fn lowercase(text: Seq<char>) -> Seq<char>;

/// Calls `str::to_lowercase`. The result is the lowercase form of `text`; the
/// mapping itself is the standard library's and is not spelled out here.
#[verifier::external_body]
pub(crate) fn to_lowercase(text: &str) -> (lowered: String)
    ensures
        lowered@ == lowercase(text@),
{
    text.to_lowercase()
}

/// A text kept together with its lowercase form, so that the two can never
/// drift apart: the only way to change the text is to build a new value.
pub struct FoldedText {
    text: String,
    lowered: String,
}

impl View for FoldedText {
    type V = Seq<char>;

    closed spec fn view(&self) -> Seq<char> {
        self.text@
    }
}

impl FoldedText {
    #[verifier::type_invariant]
    spec fn lowered_is_current(&self) -> bool {
        self.lowered@ == lowercase(self.text@)
    }

    /// Wraps `text`, computing its lowercase form.
    pub fn new(text: String) -> (folded: FoldedText)
        ensures
            folded@ == text@,
    {
        let lowered = to_lowercase(text.as_str());
        FoldedText { text, lowered }
    }

    /// The text as it was given.
    pub fn as_str(&self) -> (text: &str)
        ensures
            text@ == self@,
    {
        self.text.as_str()
    }

    /// The lowercase form of the text.
    pub fn lowered(&self) -> (lowered: &str)
        ensures
            lowered@ == lowercase(self@),
    {
        proof {
            use_type_invariant(self);
        }
        self.lowered.as_str()
    }

    /// Whether the text is empty.
    pub fn is_empty(&self) -> (empty: bool)
        ensures
            empty == (self@.len() == 0),
    {
        self.text.as_str().is_empty()
    }
}

/// Whether `text` begins with `prefix`, compared character by character.
pub fn starts_with(text: &str, prefix: &str) -> (matched: bool)
    ensures
        matched == prefix@.is_prefix_of(text@),
{
    broadcast use vstd::string::group_string_axioms;

    let mut rest = text.chars();
    let mut wanted = prefix.chars();
    let ghost mut seen: int = 0;
    loop
        invariant
            0 <= seen <= prefix@.len(),
            seen <= text@.len(),
            wanted.remaining() == prefix@.skip(seen),
            rest.remaining() == text@.skip(seen),
            prefix@.take(seen) == text@.take(seen),
        decreases prefix@.len() - seen,
    {
        match wanted.next() {
            None => {
                return true;
            },
            Some(expected) => {
                match rest.next() {
                    None => {
                        return false;
                    },
                    Some(found) => {
                        if found != expected {
                            return false;
                        }
                        proof {
                            seen = seen + 1;
                        }
                    },
                }
            },
        }
    }
}

} // verus!
