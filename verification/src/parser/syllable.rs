//! The notation for the structure of a syllable.

use vstd::prelude::*;
use vstd::string::StringExecFns;

use crate::parser::{
    known,
    literal_orthography,
    optional_phoneme_class,
    phoneme_class,
    read_char,
    spec_char,
    spec_literal_orthography,
    spec_optional_phoneme_class,
    spec_phoneme_class,
    text_between,
};
use crate::text::chars_of;

verus! {

/// One element of a syllable structure.
#[derive(Debug, PartialEq, Eq)]
pub enum SyllableData {
    PhonemeClass { class: char, optional: bool },
    Orthography(String),
    Alternatives(Vec<SyllableData>),
}

/// One element of a syllable structure, as mathematical values.
pub enum SyllableDataView {
    PhonemeClass { class: char, optional: bool },
    Orthography(Seq<char>),
    Alternatives(Seq<SyllableDataView>),
}

/// An element as mathematical values.
pub open spec fn data_view(data: SyllableData) -> SyllableDataView
    decreases data,
{
    match data {
        SyllableData::PhonemeClass { class, optional } => SyllableDataView::PhonemeClass {
            class,
            optional,
        },
        SyllableData::Orthography(ortho) => SyllableDataView::Orthography(ortho@),
        SyllableData::Alternatives(alts) => SyllableDataView::Alternatives(
            Seq::new(
                alts.len() as nat,
                |i: int|
                    if 0 <= i < alts.len() {
                        data_view(alts[i])
                    } else {
                        SyllableDataView::Orthography(Seq::empty())
                    },
            ),
        ),
    }
}

impl View for SyllableData {
    type V = SyllableDataView;

    open spec fn view(&self) -> SyllableDataView {
        data_view(*self)
    }
}

/// The elements of a list, each by its view.
pub open spec fn views(list: Seq<SyllableData>) -> Seq<SyllableDataView> {
    Seq::new(list.len(), |i: int| list[i]@)
}

/// The view of a list of alternatives is the list of their views.
pub proof fn lemma_alternatives_view(alts: Vec<SyllableData>)
    ensures
        SyllableData::Alternatives(alts)@ == SyllableDataView::Alternatives(views(alts@)),
{
    assert(SyllableData::Alternatives(alts)@->Alternatives_0 =~= views(alts@));
}

/// The views of a list with one more element are the views of the list with
/// the view of the element.
pub proof fn lemma_views_push(list: Seq<SyllableData>, data: SyllableData)
    ensures
        views(list.push(data)) == views(list).push(data@),
{
    assert(views(list.push(data)) =~= views(list).push(data@));
}

/// An element as it is written.
pub open spec fn written(data: SyllableDataView) -> Seq<char>
    decreases data, 0nat,
{
    match data {
        SyllableDataView::PhonemeClass { class, optional } => if optional {
            "("@ + seq![class] + ")"@
        } else {
            seq![class]
        },
        SyllableDataView::Orthography(ortho) => "{"@ + ortho + "}"@,
        SyllableDataView::Alternatives(alts) => "<"@ + written_list(alts, alts.len()) + ">"@,
    }
}

/// The first `n` alternatives of a list as they are written, with a comma
/// between one and the next.
pub open spec fn written_list(alts: Seq<SyllableDataView>, n: nat) -> Seq<char>
    decreases alts, n,
{
    if n == 0 || n > alts.len() {
        Seq::empty()
    } else if n == 1 {
        written(alts[0])
    } else {
        written_list(alts, (n - 1) as nat) + ","@ + written(alts[n - 1])
    }
}

/// The first `n` elements of a list as they are written, one behind the
/// other.
pub open spec fn written_all(elements: Seq<SyllableDataView>, n: nat) -> Seq<char>
    decreases n,
{
    if n == 0 || n > elements.len() {
        Seq::empty()
    } else {
        written_all(elements, (n - 1) as nat) + written(elements[n - 1])
    }
}

impl Clone for SyllableData {
    fn clone(&self) -> (copy: SyllableData)
        ensures
            copy@ == self@,
        decreases self,
    {
        match self {
            SyllableData::PhonemeClass { class, optional } => SyllableData::PhonemeClass {
                class: *class,
                optional: *optional,
            },
            SyllableData::Orthography(ortho) => SyllableData::Orthography(ortho.clone()),
            SyllableData::Alternatives(alts) => {
                let mut copies: Vec<SyllableData> = Vec::new();
                let mut i: usize = 0;
                while i < alts.len()
                    invariant
                        i <= alts.len(),
                        copies@.len() == i,
                        self == SyllableData::Alternatives(*alts),
                        forall|j: int| 0 <= j < i ==> (#[trigger] copies@[j])@ == alts@[j]@,
                    decreases alts.len() - i,
                {
                    proof {
                        assert(decreases_to!(*self => self->Alternatives_0));
                        assert(self->Alternatives_0 == *alts);
                        assert(decreases_to!(alts => alts@));
                        assert(decreases_to!(alts@ => alts@[i as int]));
                    }
                    copies.push(alts[i].clone());
                    i += 1;
                }
                proof {
                    lemma_alternatives_view(copies);
                    lemma_alternatives_view(*alts);
                    assert(views(copies@) =~= views(alts@));
                }
                SyllableData::Alternatives(copies)
            },
        }
    }
}

impl SyllableData {
    /// Writes the element out in the notation.
    pub fn render(&self) -> (text: String)
        ensures
            text@ == written(self@),
        decreases self,
    {
        match self {
            SyllableData::PhonemeClass { class, optional } => {
                let mut text = String::new();
                if *optional {
                    text.push('(');
                    text.push(*class);
                    text.push(')');
                    proof {
                        reveal_strlit("(");
                        reveal_strlit(")");
                        assert(text@ =~= "("@ + seq![*class] + ")"@);
                    }
                } else {
                    text.push(*class);
                    assert(text@ =~= seq![*class]);
                }
                text
            },
            SyllableData::Orthography(ortho) => {
                String::from_str("{").concat(ortho.as_str()).concat("}")
            },
            SyllableData::Alternatives(alts) => {
                let mut text = String::from_str("<");
                let ghost list = views(alts@);
                proof {
                    lemma_alternatives_view(*alts);
                }
                let mut i: usize = 0;
                while i < alts.len()
                    invariant
                        i <= alts.len(),
                        self == SyllableData::Alternatives(*alts),
                        list == views(alts@),
                        text@ == "<"@ + written_list(list, i as nat),
                    decreases alts.len() - i,
                {
                    if i > 0 {
                        text.append(",");
                    }
                    proof {
                        assert(decreases_to!(*self => self->Alternatives_0));
                        assert(self->Alternatives_0 == *alts);
                        assert(decreases_to!(alts => alts@));
                        assert(decreases_to!(alts@ => alts@[i as int]));
                    }
                    let part = alts[i].render();
                    text.append(part.as_str());
                    proof {
                        assert(list[i as int] == alts@[i as int]@);
                        if i == 0 {
                            assert(written_list(list, 0) =~= Seq::<char>::empty());
                            assert(text@ =~= "<"@ + written_list(list, 1));
                        } else {
                            assert(text@ =~= "<"@ + written_list(list, (i + 1) as nat));
                        }
                    }
                    i += 1;
                }
                text.append(">");
                text
            },
        }
    }
}

/// The structure of a syllable: its elements in order.
#[derive(Debug)]
pub struct Syllable(pub Vec<SyllableData>);

impl View for Syllable {
    type V = Seq<SyllableDataView>;

    open spec fn view(&self) -> Seq<SyllableDataView> {
        views(self.0@)
    }
}

/// Why a text is no syllable structure.
#[derive(Debug, PartialEq, Eq)]
pub enum Error {
    /// The text begins with a syllable structure and goes on behind it: what
    /// follows the structure.
    IncompleteParse(String),
    /// The text does not begin with an element: the text.
    Nom(String),
}

impl Error {
    /// The error in words.
    pub fn message(&self) -> (text: String)
        ensures
            text@ == match self {
                Error::IncompleteParse(rest) => "syllable structure was incompletely parsed: `"@
                    + rest@ + "` was not parsed"@,
                Error::Nom(input) => "error Char at: "@ + input@,
            },
    {
        match self {
            Error::IncompleteParse(rest) => String::from_str(
                "syllable structure was incompletely parsed: `",
            ).concat(rest.as_str()).concat("` was not parsed"),
            Error::Nom(input) => String::from_str("error Char at: ").concat(input.as_str()),
        }
    }
}

/// Reads a terminal: the first that applies of a phoneme class, an optional
/// phoneme class and a literal orthography.
pub open spec fn spec_terminal(s: Seq<char>, at: int) -> Option<(SyllableDataView, int)> {
    if let Some((class, next)) = spec_phoneme_class(s, at) {
        Some((SyllableDataView::PhonemeClass { class, optional: false }, next))
    } else if let Some((class, next)) = spec_optional_phoneme_class(s, at) {
        Some((SyllableDataView::PhonemeClass { class, optional: true }, next))
    } else if let Some((ortho, next)) = spec_literal_orthography(s, at) {
        Some((SyllableDataView::Orthography(ortho), next))
    } else {
        None
    }
}

/// Reads what follows the first terminal of a list: as long as a comma and
/// a terminal follow, the terminal.
pub open spec fn spec_more(s: Seq<char>, at: int) -> (Seq<SyllableDataView>, int)
    decreases s.len() - at,
{
    match spec_char(s, at, ',') {
        Some(comma) => match spec_terminal(s, comma) {
            Some((data, next)) => if next > at {
                let (rest, end) = spec_more(s, next);
                (seq![data] + rest, end)
            } else {
                (Seq::empty(), at)
            },
            None => (Seq::empty(), at),
        },
        None => (Seq::empty(), at),
    }
}

/// Reads alternatives: in angle brackets one terminal or more, with commas
/// between them.
pub open spec fn spec_alternatives(s: Seq<char>, at: int) -> Option<(SyllableDataView, int)> {
    match spec_char(s, at, '<') {
        Some(inside) => match spec_terminal(s, inside) {
            Some((first, next)) => {
                let (rest, behind) = spec_more(s, next);
                match spec_char(s, behind, '>') {
                    Some(end) => Some((SyllableDataView::Alternatives(seq![first] + rest), end)),
                    None => None,
                }
            },
            None => None,
        },
        None => None,
    }
}

/// Reads one element: a terminal, else alternatives.
pub open spec fn spec_element(s: Seq<char>, at: int) -> Option<(SyllableDataView, int)> {
    match spec_terminal(s, at) {
        Some(read) => Some(read),
        None => spec_alternatives(s, at),
    }
}

/// Reads elements as long as there are any.
pub open spec fn spec_elements(s: Seq<char>, at: int) -> (Seq<SyllableDataView>, int)
    decreases s.len() - at,
{
    match spec_element(s, at) {
        Some((data, next)) => if next > at {
            let (rest, end) = spec_elements(s, next);
            (seq![data] + rest, end)
        } else {
            (Seq::empty(), at)
        },
        None => (Seq::empty(), at),
    }
}

/// Reads a syllable structure from the start of a text: one element or more.
pub open spec fn spec_syllable(s: Seq<char>) -> Option<(Seq<SyllableDataView>, int)> {
    let (elements, end) = spec_elements(s, 0);
    if elements.len() > 0 {
        Some((elements, end))
    } else {
        None
    }
}

/// What reading a whole text as a syllable structure gives: the structure,
/// or the reason why the text is none.
pub enum Reading {
    Read(Seq<SyllableDataView>),
    Incomplete(Seq<char>),
    NoElement(Seq<char>),
}

/// Reads a whole text as a syllable structure.
pub open spec fn spec_parse(s: Seq<char>) -> Reading {
    match spec_syllable(s) {
        Some((elements, end)) => if end == s.len() {
            Reading::Read(elements)
        } else {
            Reading::Incomplete(s.skip(end))
        },
        None => Reading::NoElement(s),
    }
}

/// Reads a terminal.
pub fn terminal(input: &Vec<char>, at: usize) -> (read: Option<(SyllableData, usize)>)
    ensures
        match read {
            Some((data, next)) => spec_terminal(input@, at as int) == Some((data@, next as int)),
            None => spec_terminal(input@, at as int) is None,
        },
        read matches Some((_, next)) ==> at < next <= input.len(),
{
    if let Some((class, next)) = phoneme_class(input, at) {
        return Some((SyllableData::PhonemeClass { class: known(class), optional: false }, next));
    }
    if let Some((class, next)) = optional_phoneme_class(input, at) {
        return Some((SyllableData::PhonemeClass { class: known(class), optional: true }, next));
    }
    if let Some((ortho, next)) = literal_orthography(input, at) {
        return Some((SyllableData::Orthography(ortho), next));
    }
    None
}

/// Reads what follows the first terminal of a list, and adds it to `list`.
fn more(input: &Vec<char>, at: usize, list: &mut Vec<SyllableData>) -> (end: usize)
    requires
        at <= input.len(),
    ensures
        at <= end <= input.len(),
        views(final(list)@) == views(old(list)@) + spec_more(input@, at as int).0,
        end == spec_more(input@, at as int).1,
    decreases input.len() - at,
{
    match read_char(input, at, ',') {
        Some(comma) => match terminal(input, comma) {
            Some((data, next)) => {
                proof {
                    lemma_views_push(list@, data);
                }
                list.push(data);
                let end = more(input, next, list);
                assert(views(list@) =~= views(old(list)@) + spec_more(input@, at as int).0);
                end
            },
            None => {
                assert(views(list@) =~= views(old(list)@) + spec_more(input@, at as int).0);
                at
            },
        },
        None => {
            assert(views(list@) =~= views(old(list)@) + spec_more(input@, at as int).0);
            at
        },
    }
}

/// Reads alternatives.
pub fn alternatives(input: &Vec<char>, at: usize) -> (read: Option<(SyllableData, usize)>)
    ensures
        match read {
            Some((data, next)) => spec_alternatives(input@, at as int) == Some(
                (data@, next as int),
            ),
            None => spec_alternatives(input@, at as int) is None,
        },
        read matches Some((_, next)) ==> at < next <= input.len(),
{
    match read_char(input, at, '<') {
        Some(inside) => match terminal(input, inside) {
            Some((first, next)) => {
                let mut list: Vec<SyllableData> = Vec::new();
                proof {
                    lemma_views_push(list@, first);
                }
                list.push(first);
                let behind = more(input, next, &mut list);
                match read_char(input, behind, '>') {
                    Some(end) => {
                        proof {
                            lemma_alternatives_view(list);
                            assert(views(list@) =~= seq![first@] + spec_more(
                                input@,
                                next as int,
                            ).0);
                        }
                        Some((SyllableData::Alternatives(list), end))
                    },
                    None => None,
                }
            },
            None => None,
        },
        None => None,
    }
}

/// Reads one element: a terminal, else alternatives.
pub fn element(input: &Vec<char>, at: usize) -> (read: Option<(SyllableData, usize)>)
    ensures
        match read {
            Some((data, next)) => spec_element(input@, at as int) == Some((data@, next as int)),
            None => spec_element(input@, at as int) is None,
        },
        read matches Some((_, next)) ==> at < next <= input.len(),
{
    match terminal(input, at) {
        Some(read) => Some(read),
        None => alternatives(input, at),
    }
}

/// Reads elements as long as there are any, and adds them to `list`.
fn elements(input: &Vec<char>, at: usize, list: &mut Vec<SyllableData>) -> (end: usize)
    requires
        at <= input.len(),
    ensures
        at <= end <= input.len(),
        views(final(list)@) == views(old(list)@) + spec_elements(input@, at as int).0,
        end == spec_elements(input@, at as int).1,
    decreases input.len() - at,
{
    match element(input, at) {
        Some((data, next)) => {
            proof {
                lemma_views_push(list@, data);
            }
            list.push(data);
            let end = elements(input, next, list);
            assert(views(list@) =~= views(old(list)@) + spec_elements(input@, at as int).0);
            end
        },
        None => {
            assert(views(list@) =~= views(old(list)@) + spec_elements(input@, at as int).0);
            at
        },
    }
}

/// Reads a syllable structure from the start of a text: the structure and
/// where it ends.
pub fn syllable(input: &Vec<char>) -> (read: Option<(Syllable, usize)>)
    ensures
        match read {
            Some((syll, end)) => spec_syllable(input@) == Some((syll@, end as int)) && end
                <= input.len(),
            None => spec_syllable(input@) is None,
        },
{
    let mut list: Vec<SyllableData> = Vec::new();
    assert(views(list@) =~= Seq::<SyllableDataView>::empty());
    let end = elements(input, 0, &mut list);
    assert(views(list@) =~= spec_elements(input@, 0).0);
    if list.len() > 0 {
        Some((Syllable(list), end))
    } else {
        None
    }
}

impl Syllable {
    /// Reads a text as a syllable structure. The whole text must be one.
    pub fn parse(input: &str) -> (outcome: Result<Syllable, Error>)
        ensures
            match outcome {
                Ok(syll) => spec_parse(input@) == Reading::Read(syll@),
                Err(Error::IncompleteParse(rest)) => spec_parse(input@) == Reading::Incomplete(
                    rest@,
                ),
                Err(Error::Nom(text)) => spec_parse(input@) == Reading::NoElement(text@),
            },
    {
        let chars = chars_of(input);
        match syllable(&chars) {
            Some((syll, end)) => {
                if end == chars.len() {
                    Ok(syll)
                } else {
                    let rest = text_between(&chars, end, chars.len());
                    assert(chars@.subrange(end as int, chars@.len() as int) =~= chars@.skip(
                        end as int,
                    ));
                    Err(Error::IncompleteParse(rest))
                }
            },
            None => Err(Error::Nom(String::from_str(input))),
        }
    }

    /// A syllable structure made of the elements of a list.
    pub fn from_vec(elements: Vec<SyllableData>) -> (syll: Syllable)
        ensures
            syll@ == views(elements@),
    {
        Syllable(elements)
    }

    /// The elements, in order.
    pub fn data(&self) -> (elements: &Vec<SyllableData>)
        ensures
            elements@ == self.0@,
    {
        &self.0
    }

    /// Writes the structure out in the notation.
    pub fn render(&self) -> (text: String)
        ensures
            text@ == written_all(self@, self@.len()),
    {
        let mut text = String::new();
        let mut i: usize = 0;
        while i < self.0.len()
            invariant
                i <= self.0.len(),
                text@ == written_all(self@, i as nat),
            decreases self.0.len() - i,
        {
            let part = self.0[i].render();
            assert(self@[i as int] == self.0@[i as int]@);
            text.append(part.as_str());
            i += 1;
        }
        text
    }
}

/// Where an element is read, it is a phoneme class: a phoneme class may be
/// any character with which one of the other elements begins, and comes
/// first.
pub proof fn law_element_is_phoneme_class(s: Seq<char>, at: int)
    ensures
        spec_element(s, at) == match spec_phoneme_class(s, at) {
            Some((class, next)) => Some(
                (SyllableDataView::PhonemeClass { class, optional: false }, next),
            ),
            None => None,
        },
{
}

/// What is written of the first elements of a list depends on these alone.
pub proof fn lemma_written_all_prefix(a: Seq<SyllableDataView>, b: Seq<SyllableDataView>, n: nat)
    requires
        n <= a.len(),
        n <= b.len(),
        forall|i: int| 0 <= i < n ==> a[i] == b[i],
    ensures
        written_all(a, n) == written_all(b, n),
    decreases n,
{
    if n > 0 {
        lemma_written_all_prefix(a, b, (n - 1) as nat);
    }
}

/// Two lists written one behind the other are written as their
/// concatenation is.
pub proof fn lemma_written_all_add(a: Seq<SyllableDataView>, b: Seq<SyllableDataView>, n: nat)
    requires
        n <= b.len(),
    ensures
        written_all(a + b, a.len() + n) == written_all(a, a.len()) + written_all(b, n),
    decreases n,
{
    if n == 0 {
        lemma_written_all_prefix(a + b, a, a.len());
        assert(written_all(a, a.len()) + Seq::<char>::empty() =~= written_all(a, a.len()));
    } else {
        lemma_written_all_add(a, b, (n - 1) as nat);
        assert((a + b)[a.len() + n - 1] == b[n - 1]);
        assert(written_all(a + b, a.len() + n) =~= written_all(a, a.len()) + written_all(b, n));
    }
}

/// The elements that are read from a position on are written as the text
/// between that position and the one where reading ends.
pub proof fn lemma_elements_written(s: Seq<char>, at: int)
    requires
        0 <= at <= s.len(),
    ensures
        at <= spec_elements(s, at).1 <= s.len(),
        written_all(spec_elements(s, at).0, spec_elements(s, at).0.len()) == s.subrange(
            at,
            spec_elements(s, at).1,
        ),
    decreases s.len() - at,
{
    law_element_is_phoneme_class(s, at);
    let (list, end) = spec_elements(s, at);
    match spec_element(s, at) {
        Some((data, next)) => {
            lemma_elements_written(s, next);
            let (rest, _) = spec_elements(s, next);
            let one = seq![data];
            assert(written_all(one, 1) =~= seq![s[at]]) by {
                assert(written_all(one, 0) =~= Seq::<char>::empty());
                assert(one[0] == data);
            }
            lemma_written_all_add(one, rest, rest.len());
            assert(list == one + rest);
            assert(seq![s[at]] + s.subrange(next, end) =~= s.subrange(at, end));
        },
        None => {
            assert(s.subrange(at, at) =~= Seq::<char>::empty());
        },
    }
}

/// A syllable structure that was read from a text is written as that text.
pub proof fn law_written_as_read(s: Seq<char>)
    requires
        spec_parse(s) is Read,
    ensures
        written_all(spec_parse(s)->Read_0, spec_parse(s)->Read_0.len()) == s,
{
    lemma_elements_written(s, 0);
    assert(s.subrange(0, s.len() as int) =~= s);
}

} // verus!
