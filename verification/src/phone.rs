//! Phones, their attachments, and their rendering in Branner notation.

use vstd::prelude::*;
use vstd::string::StringExecFns;

verus! {

/// Place of articulation of a plosive.
#[derive(PartialEq, Eq, Structural, Copy, Clone, Debug)]
pub enum PlosivePlace {
    Bilabial,
    Labiodental,
    Dental,
    Alveolar,
}

/// Place of articulation of a fricative.
#[derive(PartialEq, Eq, Structural, Copy, Clone, Debug)]
pub enum FricativePlace {
    Bilabial,
    Labiodental,
    Dental,
    Alveolar,
    Postalveolar,
}

/// A manner attachment of an obstruent.
#[derive(PartialEq, Eq, Structural, Hash, Copy, Clone, Debug)]
pub enum ObstruentAttachment {
    Ejective,
    Preaspirated,
    Aspirated,
    Breathy,
    Creaky,
}

/// A set of attachments: one flag for each of the five.
#[derive(PartialEq, Eq, Structural, Copy, Clone, Debug)]
pub struct AttachmentSet {
    ejective: bool,
    preaspirated: bool,
    aspirated: bool,
    breathy: bool,
    creaky: bool,
}

impl View for AttachmentSet {
    type V = Set<ObstruentAttachment>;

    closed spec fn view(&self) -> Set<ObstruentAttachment> {
        Set::new(|a: ObstruentAttachment| self.flag(a))
    }
}

impl AttachmentSet {
    /// The flag that stands for `a`.
    closed spec fn flag(self, a: ObstruentAttachment) -> bool {
        match a {
            ObstruentAttachment::Ejective => self.ejective,
            ObstruentAttachment::Preaspirated => self.preaspirated,
            ObstruentAttachment::Aspirated => self.aspirated,
            ObstruentAttachment::Breathy => self.breathy,
            ObstruentAttachment::Creaky => self.creaky,
        }
    }

    /// The empty set.
    pub fn new() -> (set: AttachmentSet)
        ensures
            set@ == Set::<ObstruentAttachment>::empty(),
    {
        let set = AttachmentSet {
            ejective: false,
            preaspirated: false,
            aspirated: false,
            breathy: false,
            creaky: false,
        };
        assert(set@ =~= Set::<ObstruentAttachment>::empty());
        set
    }

    /// Whether `a` is in the set.
    pub fn contains(&self, a: &ObstruentAttachment) -> (found: bool)
        ensures
            found == self@.contains(*a),
    {
        match a {
            ObstruentAttachment::Ejective => self.ejective,
            ObstruentAttachment::Preaspirated => self.preaspirated,
            ObstruentAttachment::Aspirated => self.aspirated,
            ObstruentAttachment::Breathy => self.breathy,
            ObstruentAttachment::Creaky => self.creaky,
        }
    }

    /// Adds `a`; returns whether it was absent before.
    pub fn insert(&mut self, a: ObstruentAttachment) -> (fresh: bool)
        ensures
            final(self)@ == old(self)@.insert(a),
            fresh == !old(self)@.contains(a),
    {
        let fresh = !self.contains(&a);
        match a {
            ObstruentAttachment::Ejective => { self.ejective = true; }
            ObstruentAttachment::Preaspirated => { self.preaspirated = true; }
            ObstruentAttachment::Aspirated => { self.aspirated = true; }
            ObstruentAttachment::Breathy => { self.breathy = true; }
            ObstruentAttachment::Creaky => { self.creaky = true; }
        }
        assert(self@ =~= old(self)@.insert(a));
        fresh
    }

    /// Takes `a` out; returns whether it was present before.
    pub fn remove(&mut self, a: &ObstruentAttachment) -> (present: bool)
        ensures
            final(self)@ == old(self)@.remove(*a),
            present == old(self)@.contains(*a),
    {
        let present = self.contains(a);
        match a {
            ObstruentAttachment::Ejective => { self.ejective = false; }
            ObstruentAttachment::Preaspirated => { self.preaspirated = false; }
            ObstruentAttachment::Aspirated => { self.aspirated = false; }
            ObstruentAttachment::Breathy => { self.breathy = false; }
            ObstruentAttachment::Creaky => { self.creaky = false; }
        }
        assert(self@ =~= old(self)@.remove(*a));
        present
    }

    /// Whether the set holds nothing.
    pub fn is_empty(&self) -> (empty: bool)
        ensures
            empty == (self@ == Set::<ObstruentAttachment>::empty()),
    {
        let empty = !self.ejective && !self.preaspirated && !self.aspirated && !self.breathy
            && !self.creaky;
        proof {
            if empty {
                assert(self@ =~= Set::<ObstruentAttachment>::empty());
            } else {
                assert(self@.contains(ObstruentAttachment::Ejective) || self@.contains(
                    ObstruentAttachment::Preaspirated,
                ) || self@.contains(ObstruentAttachment::Aspirated) || self@.contains(
                    ObstruentAttachment::Breathy,
                ) || self@.contains(ObstruentAttachment::Creaky));
            }
        }
        empty
    }

    /// Two sets with the same members are the same value.
    pub proof fn law_equal_members_equal_sets(self, other: AttachmentSet)
        requires
            self@ == other@,
        ensures
            self == other,
    {
        assert(self.ejective == other.ejective) by {
            assert(self@.contains(ObstruentAttachment::Ejective) == self.ejective);
            assert(other@.contains(ObstruentAttachment::Ejective) == other.ejective);
        }
        assert(self.preaspirated == other.preaspirated) by {
            assert(self@.contains(ObstruentAttachment::Preaspirated) == self.preaspirated);
            assert(other@.contains(ObstruentAttachment::Preaspirated) == other.preaspirated);
        }
        assert(self.aspirated == other.aspirated) by {
            assert(self@.contains(ObstruentAttachment::Aspirated) == self.aspirated);
            assert(other@.contains(ObstruentAttachment::Aspirated) == other.aspirated);
        }
        assert(self.breathy == other.breathy) by {
            assert(self@.contains(ObstruentAttachment::Breathy) == self.breathy);
            assert(other@.contains(ObstruentAttachment::Breathy) == other.breathy);
        }
        assert(self.creaky == other.creaky) by {
            assert(self@.contains(ObstruentAttachment::Creaky) == self.creaky);
            assert(other@.contains(ObstruentAttachment::Creaky) == other.creaky);
        }
    }
}

impl Default for AttachmentSet {
    fn default() -> (set: AttachmentSet)
        ensures
            set@ == Set::<ObstruentAttachment>::empty(),
    {
        AttachmentSet::new()
    }
}

/// Why a phone has no rendering.
#[derive(PartialEq, Eq, Structural, Copy, Clone, Debug)]
pub enum PhoneError {
    /// The phone is of a kind whose symbol composition is not defined.
    Unsupported,
}

/// A single speech sound.
#[allow(inconsistent_fields)]
#[derive(PartialEq, Eq, Structural, Copy, Clone, Debug)]
pub enum Phone {
    Plosive { place: PlosivePlace, voiced: bool, attachments: AttachmentSet },
    Affricative {
        start_place: PlosivePlace,
        end_place: FricativePlace,
        voiced: bool,
        attachments: AttachmentSet,
    },
    Fricative { place: FricativePlace, voiced: bool, attachments: AttachmentSet },
    Vowel {},
    /// Null production
    Null,
}

/// The base symbol of a plosive. An ejective takes the voiceless form,
/// whatever its voicing.
pub open spec fn plosive_base(place: PlosivePlace, voiced: bool, ejective: bool) -> Seq<char> {
    let voiceless = ejective || !voiced;
    match place {
        PlosivePlace::Bilabial => if voiceless { "p"@ } else { "b"@ },
        PlosivePlace::Labiodental => if voiceless { "p["@ } else { "b["@ },
        PlosivePlace::Dental => if voiceless { "t["@ } else { "d["@ },
        PlosivePlace::Alveolar => if voiceless { "t"@ } else { "d"@ },
    }
}

/// The base symbol of a fricative. An ejective takes the voiceless form,
/// whatever its voicing.
pub open spec fn fricative_base(place: FricativePlace, voiced: bool, ejective: bool) -> Seq<char> {
    let voiceless = ejective || !voiced;
    match place {
        FricativePlace::Bilabial => if voiceless { "P\""@ } else { "B\""@ },
        FricativePlace::Labiodental => if voiceless { "f"@ } else { "v"@ },
        FricativePlace::Dental => if voiceless { "O-"@ } else { "d-"@ },
        FricativePlace::Alveolar => if voiceless { "s"@ } else { "z"@ },
        FricativePlace::Postalveolar => if voiceless { "S"@ } else { "3\""@ },
    }
}

/// A segment followed by the breathy marker and then the creaky marker, each
/// where the attachment is present.
pub open spec fn with_phonation(segment: Seq<char>, attachments: Set<ObstruentAttachment>) -> Seq<
    char,
> {
    let breathy = if attachments.contains(ObstruentAttachment::Breathy) {
        segment + "h\")"@
    } else {
        segment
    };
    if attachments.contains(ObstruentAttachment::Creaky) {
        breathy + "~"@
    } else {
        breathy
    }
}

/// A symbol followed by the ejective marker, where the attachment is present.
pub open spec fn with_ejective(symbol: Seq<char>, attachments: Set<ObstruentAttachment>) -> Seq<
    char,
> {
    if attachments.contains(ObstruentAttachment::Ejective) {
        symbol + "`"@
    } else {
        symbol
    }
}

/// A symbol wrapped for aspiration: the marker in front for a preaspirated
/// phone, else behind for an aspirated one. Preaspiration wins over aspiration.
pub open spec fn with_aspiration(symbol: Seq<char>, attachments: Set<ObstruentAttachment>) -> Seq<
    char,
> {
    if attachments.contains(ObstruentAttachment::Preaspirated) {
        "h^"@ + symbol
    } else if attachments.contains(ObstruentAttachment::Aspirated) {
        symbol + "h^"@
    } else {
        symbol
    }
}

/// The symbol of a plosive in Branner notation.
pub open spec fn plosive_symbol(
    place: PlosivePlace,
    voiced: bool,
    attachments: Set<ObstruentAttachment>,
) -> Seq<char> {
    let base = plosive_base(place, voiced, attachments.contains(ObstruentAttachment::Ejective));
    with_aspiration(with_ejective(with_phonation(base, attachments), attachments), attachments)
}

/// The symbol of an affricate in Branner notation: both parts carry the
/// phonation markers, the ejective marker and the aspiration wrap apply once
/// to the joined whole.
pub open spec fn affricate_symbol(
    start_place: PlosivePlace,
    end_place: FricativePlace,
    voiced: bool,
    attachments: Set<ObstruentAttachment>,
) -> Seq<char> {
    let ejective = attachments.contains(ObstruentAttachment::Ejective);
    let start = with_phonation(plosive_base(start_place, voiced, ejective), attachments);
    let end = with_phonation(fricative_base(end_place, voiced, ejective), attachments);
    with_aspiration(with_ejective(start + "))"@ + end, attachments), attachments)
}

impl Phone {
    /// The phone in Branner notation, or `None` for a kind that has none.
    pub open spec fn branner(self) -> Option<Seq<char>> {
        match self {
            Phone::Null => Some("\u{2205}"@),
            Phone::Plosive { place, voiced, attachments } => Some(
                plosive_symbol(place, voiced, attachments@),
            ),
            Phone::Affricative { start_place, end_place, voiced, attachments } => Some(
                affricate_symbol(start_place, end_place, voiced, attachments@),
            ),
            Phone::Fricative { .. } => None,
            Phone::Vowel {  } => None,
        }
    }

    /// Base symbol of a plosive.
    pub fn get_plosive_base(place: &PlosivePlace, voiced: bool, attachments: &AttachmentSet) -> (base:
        String)
        ensures
            base@ == plosive_base(
                *place,
                voiced,
                attachments@.contains(ObstruentAttachment::Ejective),
            ),
    {
        let voiceless = attachments.contains(&ObstruentAttachment::Ejective) || !voiced;
        String::from_str(
            match place {
                PlosivePlace::Bilabial => if voiceless { "p" } else { "b" },
                PlosivePlace::Labiodental => if voiceless { "p[" } else { "b[" },
                PlosivePlace::Dental => if voiceless { "t[" } else { "d[" },
                PlosivePlace::Alveolar => if voiceless { "t" } else { "d" },
            },
        )
    }

    /// Base symbol of a fricative.
    pub fn get_fricative_base(
        place: &FricativePlace,
        voiced: bool,
        attachments: &AttachmentSet,
    ) -> (base: String)
        ensures
            base@ == fricative_base(
                *place,
                voiced,
                attachments@.contains(ObstruentAttachment::Ejective),
            ),
    {
        let voiceless = attachments.contains(&ObstruentAttachment::Ejective) || !voiced;
        String::from_str(
            match place {
                FricativePlace::Bilabial => if voiceless { "P\"" } else { "B\"" },
                FricativePlace::Labiodental => if voiceless { "f" } else { "v" },
                FricativePlace::Dental => if voiceless { "O-" } else { "d-" },
                FricativePlace::Alveolar => if voiceless { "s" } else { "z" },
                FricativePlace::Postalveolar => if voiceless { "S" } else { "3\"" },
            },
        )
    }

    /// Appends the breathy and creaky markers that `attachments` asks for.
    fn phonation(segment: String, attachments: &AttachmentSet) -> (marked: String)
        ensures
            marked@ == with_phonation(segment@, attachments@),
    {
        let mut marked = segment;
        if attachments.contains(&ObstruentAttachment::Breathy) {
            marked.append("h\")");
        }
        if attachments.contains(&ObstruentAttachment::Creaky) {
            marked.append("~");
        }
        marked
    }

    /// Appends the ejective marker if `attachments` asks for it.
    fn ejective(symbol: String, attachments: &AttachmentSet) -> (marked: String)
        ensures
            marked@ == with_ejective(symbol@, attachments@),
    {
        let mut marked = symbol;
        if attachments.contains(&ObstruentAttachment::Ejective) {
            marked.append("`");
        }
        marked
    }

    /// Wraps a symbol for aspiration.
    pub fn aspiration(phone: &str, attachments: &AttachmentSet) -> (wrapped: String)
        ensures
            wrapped@ == with_aspiration(phone@, attachments@),
    {
        if attachments.contains(&ObstruentAttachment::Preaspirated) {
            String::from_str("h^").concat(phone)
        } else if attachments.contains(&ObstruentAttachment::Aspirated) {
            String::from_str(phone).concat("h^")
        } else {
            String::from_str(phone)
        }
    }

    /// Renders the phone in Branner notation. A fricative or a vowel has no
    /// rendering yet and is refused.
    pub fn to_branner(&self) -> (symbol: Result<String, PhoneError>)
        ensures
            match symbol {
                Ok(text) => self.branner() == Some(text@),
                Err(e) => e == PhoneError::Unsupported && self.branner() is None,
            },
    {
        match self {
            Phone::Null => Ok(String::from_str("\u{2205}")),
            Phone::Plosive { place, voiced, attachments } => {
                let base = Self::get_plosive_base(place, *voiced, attachments);
                let marked = Self::ejective(Self::phonation(base, attachments), attachments);
                Ok(Self::aspiration(marked.as_str(), attachments))
            },
            Phone::Affricative { start_place, end_place, voiced, attachments } => {
                let start = Self::phonation(
                    Self::get_plosive_base(start_place, *voiced, attachments),
                    attachments,
                );
                let end = Self::phonation(
                    Self::get_fricative_base(end_place, *voiced, attachments),
                    attachments,
                );
                let joined = start.concat("))").concat(end.as_str());
                let marked = Self::ejective(joined, attachments);
                Ok(Self::aspiration(marked.as_str(), attachments))
            },
            Phone::Fricative { .. } => Err(PhoneError::Unsupported),
            Phone::Vowel {  } => Err(PhoneError::Unsupported),
        }
    }

    /// Whether the phone has a rendering.
    pub fn is_renderable(&self) -> (yes: bool)
        ensures
            yes == self.branner() is Some,
    {
        match self {
            Phone::Fricative { .. } => false,
            Phone::Vowel {  } => false,
            _ => true,
        }
    }
}

} // verus!
