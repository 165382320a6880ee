//! From the ASCII notations to the display form in IPA.

use vstd::prelude::*;

use crate::phone::{Phone, PhoneError};

verus! {

/// What `ipa_translate::branner_to_ipa` makes of a text.
pub uninterp spec fn branner_ipa(text: Seq<char>) -> Seq<char>;

/// What `ipa_translate::sil_to_ipa` makes of a text.
pub uninterp spec fn sil_ipa(text: Seq<char>) -> Seq<char>;

/// Calls `ipa_translate::branner_to_ipa`, which goes through a fixed table of
/// pairs and replaces in the text each Branner token by its IPA glyph. The
/// result depends on the text alone; the contract gives it a name.
#[verifier::external_body]
pub(crate) fn branner_to_ipa(text: &str) -> (ipa: String)
    ensures
        ipa@ == branner_ipa(text@),
{
    ipa_translate::branner_to_ipa(text)
}

/// Calls `ipa_translate::sil_to_ipa`, which goes through a fixed table of
/// pairs and replaces in the text each SIL token by its IPA glyph. The result
/// depends on the text alone; the contract gives it a name.
#[verifier::external_body]
pub(crate) fn sil_to_ipa(text: &str) -> (ipa: String)
    ensures
        ipa@ == sil_ipa(text@),
{
    ipa_translate::sil_to_ipa(text)
}

/// The zero-width space, which the display form never holds.
pub open spec fn zero_width_space() -> char {
    '\u{200b}'
}

/// A text without its zero-width spaces.
pub open spec fn without_zero_width_spaces(text: Seq<char>) -> Seq<char> {
    text.filter(|c: char| c != zero_width_space())
}

/// Removes every zero-width space from a text.
pub fn strip_zero_width_spaces(text: &str) -> (clean: String)
    ensures
        clean@ == without_zero_width_spaces(text@),
{
    let ghost keep = |c: char| c != zero_width_space();
    let mut clean = String::new();
    proof {
        reveal(Seq::filter);
        assert(text@.subrange(0, 0) =~= Seq::<char>::empty());
    }
    for c in it: text.chars()
        invariant
            it.seq() == text@,
            keep == |c: char| c != zero_width_space(),
            clean@ == text@.subrange(0, it.index()).filter(keep),
    {
        proof {
            reveal(Seq::filter);
            let next = text@.subrange(0, it.index() + 1);
            assert(next.drop_last() =~= text@.subrange(0, it.index()));
            assert(next.last() == c);
        }
        if c != '\u{200b}' {
            clean.push(c);
        }
    }
    assert(text@.subrange(0, text@.len() as int) =~= text@);
    clean
}

/// The display form of a text in Branner notation.
pub fn from_branner(input: String) -> (display: String)
    ensures
        display@ == without_zero_width_spaces(branner_ipa(input@)),
{
    let ipa = branner_to_ipa(input.as_str());
    strip_zero_width_spaces(ipa.as_str())
}

/// The display form of a text in SIL notation.
pub fn from_sil(input: String) -> (display: String)
    ensures
        display@ == without_zero_width_spaces(sil_ipa(input@)),
{
    let ipa = sil_to_ipa(input.as_str());
    strip_zero_width_spaces(ipa.as_str())
}

/// The display form of a phone: its rendering in Branner notation, turned
/// into IPA. A phone without rendering is refused.
pub fn display_phone(phone: Phone) -> (display: Result<String, PhoneError>)
    ensures
        match display {
            Ok(text) => phone.branner() matches Some(symbol) && text@
                == without_zero_width_spaces(branner_ipa(symbol)),
            Err(e) => e == PhoneError::Unsupported && phone.branner() is None,
        },
{
    match phone.to_branner() {
        Ok(symbol) => Ok(from_branner(symbol)),
        Err(e) => Err(e),
    }
}

} // verus!
