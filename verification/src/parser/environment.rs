//! The notation for the environment of a sound change.

use vstd::prelude::*;
use vstd::string::StringExecFns;

use crate::parser::{
    known,
    lemma_run_continues,
    literal_orthography,
    optional_phoneme_class,
    phoneme_class,
    read_char,
    run_end,
    spec_char,
    spec_literal_orthography,
    spec_optional_phoneme_class,
    spec_phoneme_class,
    text_between,
};
use crate::text::chars_of;

verus! {

/// One element of an environment.
#[derive(Debug, PartialEq, Eq)]
pub enum EnvironmentData {
    PhonemeClass { class: char, optional: bool },
    Property { name: String, present: bool },
    Orthography(String),
    Referent,
    Boundary,
    Alternatives(Vec<EnvironmentData>),
}

/// One element of an environment, as mathematical values.
pub enum EnvironmentDataView {
    PhonemeClass { class: char, optional: bool },
    Property { name: Seq<char>, present: bool },
    Orthography(Seq<char>),
    Referent,
    Boundary,
    Alternatives(Seq<EnvironmentDataView>),
}

/// An element as mathematical values.
pub open spec fn data_view(data: EnvironmentData) -> EnvironmentDataView
    decreases data,
{
    match data {
        EnvironmentData::PhonemeClass { class, optional } => EnvironmentDataView::PhonemeClass {
            class,
            optional,
        },
        EnvironmentData::Property { name, present } => EnvironmentDataView::Property {
            name: name@,
            present,
        },
        EnvironmentData::Orthography(ortho) => EnvironmentDataView::Orthography(ortho@),
        EnvironmentData::Referent => EnvironmentDataView::Referent,
        EnvironmentData::Boundary => EnvironmentDataView::Boundary,
        EnvironmentData::Alternatives(alts) => EnvironmentDataView::Alternatives(
            Seq::new(
                alts.len() as nat,
                |i: int|
                    if 0 <= i < alts.len() {
                        data_view(alts[i])
                    } else {
                        EnvironmentDataView::Referent
                    },
            ),
        ),
    }
}

impl View for EnvironmentData {
    type V = EnvironmentDataView;

    open spec fn view(&self) -> EnvironmentDataView {
        data_view(*self)
    }
}

/// The elements of a list, each by its view.
pub open spec fn views(list: Seq<EnvironmentData>) -> Seq<EnvironmentDataView> {
    Seq::new(list.len(), |i: int| list[i]@)
}

/// The view of a list of alternatives is the list of their views.
pub proof fn lemma_alternatives_view(alts: Vec<EnvironmentData>)
    ensures
        EnvironmentData::Alternatives(alts)@ == EnvironmentDataView::Alternatives(views(alts@)),
{
    assert(EnvironmentData::Alternatives(alts)@->Alternatives_0 =~= views(alts@));
}

/// An element as it is written.
pub open spec fn written(data: EnvironmentDataView) -> Seq<char>
    decreases data, 0nat,
{
    match data {
        EnvironmentDataView::PhonemeClass { class, optional } => if optional {
            "("@ + seq![class] + ")"@
        } else {
            seq![class]
        },
        EnvironmentDataView::Property { name, present } => if present {
            "[+"@ + name + "]"@
        } else {
            "[-"@ + name + "]"@
        },
        EnvironmentDataView::Orthography(ortho) => "{"@ + ortho + "}"@,
        EnvironmentDataView::Referent => "_"@,
        EnvironmentDataView::Boundary => "#"@,
        EnvironmentDataView::Alternatives(alts) => "<"@ + written_list(alts, alts.len()) + ">"@,
    }
}

/// The first `n` alternatives of a list as they are written, with a comma
/// between one and the next.
pub open spec fn written_list(alts: Seq<EnvironmentDataView>, n: nat) -> Seq<char>
    decreases alts, n,
{
    if n == 0 || n > alts.len() {
        Seq::empty()
    } else if n == 1 {
        written(alts[0])
    } else {
        written_list(alts, (n - 1) as nat) + ","@ + written(alts[n - 1])
    }
}

/// The first `n` elements of a list as they are written, one behind the
/// other.
pub open spec fn written_all(elements: Seq<EnvironmentDataView>, n: nat) -> Seq<char>
    decreases n,
{
    if n == 0 || n > elements.len() {
        Seq::empty()
    } else {
        written_all(elements, (n - 1) as nat) + written(elements[n - 1])
    }
}

impl Clone for EnvironmentData {
    fn clone(&self) -> (copy: EnvironmentData)
        ensures
            copy@ == self@,
        decreases self,
    {
        match self {
            EnvironmentData::PhonemeClass { class, optional } => EnvironmentData::PhonemeClass {
                class: *class,
                optional: *optional,
            },
            EnvironmentData::Property { name, present } => EnvironmentData::Property {
                name: name.clone(),
                present: *present,
            },
            EnvironmentData::Orthography(ortho) => EnvironmentData::Orthography(ortho.clone()),
            EnvironmentData::Referent => EnvironmentData::Referent,
            EnvironmentData::Boundary => EnvironmentData::Boundary,
            EnvironmentData::Alternatives(alts) => {
                let mut copies: Vec<EnvironmentData> = Vec::new();
                let mut i: usize = 0;
                while i < alts.len()
                    invariant
                        i <= alts.len(),
                        copies@.len() == i,
                        self == EnvironmentData::Alternatives(*alts),
                        forall|j: int| 0 <= j < i ==> (#[trigger] copies@[j])@ == alts@[j]@,
                    decreases alts.len() - i,
                {
                    proof {
                        assert(decreases_to!(*self => self->Alternatives_0));
                        assert(self->Alternatives_0 == *alts);
                        assert(decreases_to!(alts => alts@));
                        assert(decreases_to!(alts@ => alts@[i as int]));
                    }
                    copies.push(alts[i].clone());
                    i += 1;
                }
                proof {
                    lemma_alternatives_view(copies);
                    lemma_alternatives_view(*alts);
                    assert(views(copies@) =~= views(alts@));
                }
                EnvironmentData::Alternatives(copies)
            },
        }
    }
}

impl EnvironmentData {
    /// Writes the element out in the notation.
    pub fn render(&self) -> (text: String)
        ensures
            text@ == written(self@),
        decreases self,
    {
        match self {
            EnvironmentData::PhonemeClass { class, optional } => {
                let mut text = String::new();
                if *optional {
                    text.push('(');
                    text.push(*class);
                    text.push(')');
                    proof {
                        reveal_strlit("(");
                        reveal_strlit(")");
                        assert(text@ =~= "("@ + seq![*class] + ")"@);
                    }
                } else {
                    text.push(*class);
                    assert(text@ =~= seq![*class]);
                }
                text
            },
            EnvironmentData::Property { name, present } => {
                if *present {
                    String::from_str("[+").concat(name.as_str()).concat("]")
                } else {
                    String::from_str("[-").concat(name.as_str()).concat("]")
                }
            },
            EnvironmentData::Orthography(ortho) => {
                String::from_str("{").concat(ortho.as_str()).concat("}")
            },
            EnvironmentData::Referent => String::from_str("_"),
            EnvironmentData::Boundary => String::from_str("#"),
            EnvironmentData::Alternatives(alts) => {
                let mut text = String::from_str("<");
                let ghost list = views(alts@);
                proof {
                    lemma_alternatives_view(*alts);
                }
                let mut i: usize = 0;
                while i < alts.len()
                    invariant
                        i <= alts.len(),
                        self == EnvironmentData::Alternatives(*alts),
                        list == views(alts@),
                        text@ == "<"@ + written_list(list, i as nat),
                    decreases alts.len() - i,
                {
                    if i > 0 {
                        text.append(",");
                    }
                    proof {
                        assert(decreases_to!(*self => self->Alternatives_0));
                        assert(self->Alternatives_0 == *alts);
                        assert(decreases_to!(alts => alts@));
                        assert(decreases_to!(alts@ => alts@[i as int]));
                    }
                    let part = alts[i].render();
                    text.append(part.as_str());
                    proof {
                        assert(list[i as int] == alts@[i as int]@);
                        if i == 0 {
                            assert(written_list(list, 0) =~= Seq::<char>::empty());
                            assert(text@ =~= "<"@ + written_list(list, 1));
                        } else {
                            assert(text@ =~= "<"@ + written_list(list, (i + 1) as nat));
                        }
                    }
                    i += 1;
                }
                text.append(">");
                text
            },
        }
    }
}

/// An environment: what stands before the referent, the referent, and what
/// stands behind it.
#[derive(Debug)]
pub struct Environment(pub Vec<EnvironmentData>);

impl View for Environment {
    type V = Seq<EnvironmentDataView>;

    open spec fn view(&self) -> Seq<EnvironmentDataView> {
        views(self.0@)
    }
}

/// Why a text is no environment.
#[derive(Debug, PartialEq, Eq)]
pub enum Error {
    /// The text holds an environment and goes on behind it: the whole text.
    IncompleteParse(String),
    /// The referent is missing: what stands where it was expected.
    Nom(String),
}

impl Error {
    /// The error in words.
    pub fn message(&self) -> (text: String)
        ensures
            text@ == match self {
                Error::IncompleteParse(input) => "environment was incompletely parsed: `"@
                    + input@ + "` was not parsed"@,
                Error::Nom(rest) => "error Char at: "@ + rest@,
            },
    {
        match self {
            Error::IncompleteParse(input) => String::from_str(
                "environment was incompletely parsed: `",
            ).concat(input.as_str()).concat("` was not parsed"),
            Error::Nom(rest) => String::from_str("error Char at: ").concat(rest.as_str()),
        }
    }
}

/// The characters of which the name of a property is made: ASCII letters,
/// digits and the underscore.
pub open spec fn in_property_name() -> spec_fn(char) -> bool {
    |c: char| ('a' <= c && c <= 'z') || ('A' <= c && c <= 'Z') || ('0' <= c && c <= '9') || c == '_'
}

/// Reads a property: in square brackets a sign, `+` for present and `-` for
/// absent, and a name of one character or more.
pub open spec fn spec_property(s: Seq<char>, at: int) -> Option<((bool, Seq<char>), int)> {
    match spec_char(s, at, '[') {
        Some(sign) => if sign < s.len() && (s[sign] == '+' || s[sign] == '-') {
            let behind = run_end(s, sign + 1, in_property_name());
            if behind > sign + 1 {
                match spec_char(s, behind, ']') {
                    Some(end) => Some(((s[sign] == '+', s.subrange(sign + 1, behind)), end)),
                    None => None,
                }
            } else {
                None
            }
        } else {
            None
        },
        None => None,
    }
}

/// Reads a terminal: the first that applies of a phoneme class, an optional
/// phoneme class, a literal orthography and a property.
pub open spec fn spec_terminal(s: Seq<char>, at: int) -> Option<(EnvironmentDataView, int)> {
    if let Some((class, next)) = spec_phoneme_class(s, at) {
        Some((EnvironmentDataView::PhonemeClass { class, optional: false }, next))
    } else if let Some((class, next)) = spec_optional_phoneme_class(s, at) {
        Some((EnvironmentDataView::PhonemeClass { class, optional: true }, next))
    } else if let Some((ortho, next)) = spec_literal_orthography(s, at) {
        Some((EnvironmentDataView::Orthography(ortho), next))
    } else if let Some(((present, name), next)) = spec_property(s, at) {
        Some((EnvironmentDataView::Property { name, present }, next))
    } else {
        None
    }
}

/// Reads what follows the first terminal of a list: as long as a comma and
/// a terminal follow, the terminal.
pub open spec fn spec_more(s: Seq<char>, at: int) -> (Seq<EnvironmentDataView>, int)
    decreases s.len() - at,
{
    match spec_char(s, at, ',') {
        Some(comma) => match spec_terminal(s, comma) {
            Some((data, next)) => if next > at {
                let (rest, end) = spec_more(s, next);
                (seq![data] + rest, end)
            } else {
                (Seq::empty(), at)
            },
            None => (Seq::empty(), at),
        },
        None => (Seq::empty(), at),
    }
}

/// Reads alternatives: in angle brackets one terminal or more, with commas
/// between them.
pub open spec fn spec_alternatives(s: Seq<char>, at: int) -> Option<(EnvironmentDataView, int)> {
    match spec_char(s, at, '<') {
        Some(inside) => match spec_terminal(s, inside) {
            Some((first, next)) => {
                let (rest, behind) = spec_more(s, next);
                match spec_char(s, behind, '>') {
                    Some(end) => Some((EnvironmentDataView::Alternatives(seq![first] + rest), end)),
                    None => None,
                }
            },
            None => None,
        },
        None => None,
    }
}

/// Reads one element: a terminal, else alternatives.
pub open spec fn spec_element(s: Seq<char>, at: int) -> Option<(EnvironmentDataView, int)> {
    match spec_terminal(s, at) {
        Some(read) => Some(read),
        None => spec_alternatives(s, at),
    }
}

/// Reads elements as long as there are any.
pub open spec fn spec_elements(s: Seq<char>, at: int) -> (Seq<EnvironmentDataView>, int)
    decreases s.len() - at,
{
    match spec_element(s, at) {
        Some((data, next)) => if next > at {
            let (rest, end) = spec_elements(s, next);
            (seq![data] + rest, end)
        } else {
            (Seq::empty(), at)
        },
        None => (Seq::empty(), at),
    }
}

/// Reads a word boundary if there is one.
pub open spec fn spec_boundary(s: Seq<char>, at: int) -> (Seq<EnvironmentDataView>, int) {
    match spec_char(s, at, '#') {
        Some(next) => (seq![EnvironmentDataView::Boundary], next),
        None => (Seq::empty(), at),
    }
}

/// Where the referent of an environment is expected: behind the word
/// boundary, if there is one, and the elements that follow it.
pub open spec fn referent_position(s: Seq<char>) -> int {
    spec_elements(s, spec_boundary(s, 0).1).1
}

/// Reads an environment: a word boundary or none, elements, the referent,
/// elements, and a word boundary or none.
pub open spec fn spec_environment(s: Seq<char>) -> Option<(Seq<EnvironmentDataView>, int)> {
    let (prebound, a) = spec_boundary(s, 0);
    let (pre, b) = spec_elements(s, a);
    match spec_char(s, b, '_') {
        Some(c) => {
            let (post, d) = spec_elements(s, c);
            let (postbound, e) = spec_boundary(s, d);
            Some((prebound + pre + seq![EnvironmentDataView::Referent] + post + postbound, e))
        },
        None => None,
    }
}

/// What reading a whole text as an environment gives: the environment, or
/// the reason why the text is none.
pub enum Reading {
    Read(Seq<EnvironmentDataView>),
    Incomplete,
    NoReferent(Seq<char>),
}

/// Reads a whole text as an environment.
pub open spec fn spec_parse(s: Seq<char>) -> Reading {
    match spec_environment(s) {
        Some((elements, end)) => if end == s.len() {
            Reading::Read(elements)
        } else {
            Reading::Incomplete
        },
        None => Reading::NoReferent(s.skip(referent_position(s))),
    }
}

/// Reads the referent.
pub fn environment_referent(input: &Vec<char>, at: usize) -> (read: Option<usize>)
    ensures
        match read {
            Some(next) => spec_char(input@, at as int, '_') == Some(next as int),
            None => spec_char(input@, at as int, '_') is None,
        },
{
    read_char(input, at, '_')
}

/// Reads a word boundary.
pub fn word_boundary(input: &Vec<char>, at: usize) -> (read: Option<usize>)
    ensures
        match read {
            Some(next) => spec_char(input@, at as int, '#') == Some(next as int),
            None => spec_char(input@, at as int, '#') is None,
        },
{
    read_char(input, at, '#')
}

/// Whether a character may stand in the name of a property.
fn names_property(c: char) -> (yes: bool)
    ensures
        yes == in_property_name()(c),
{
    ('a' <= c && c <= 'z') || ('A' <= c && c <= 'Z') || ('0' <= c && c <= '9') || c == '_'
}

/// Reads a property: whether it is present, and its name.
pub fn property(input: &Vec<char>, at: usize) -> (read: Option<((bool, String), usize)>)
    ensures
        match read {
            Some(((present, name), next)) => spec_property(input@, at as int) == Some(
                ((present, name@), next as int),
            ),
            None => spec_property(input@, at as int) is None,
        },
{
    match read_char(input, at, '[') {
        Some(sign) => {
            if sign < input.len() && (input[sign] == '+' || input[sign] == '-') {
                let start = sign + 1;
                let mut behind: usize = start;
                while behind < input.len() && names_property(input[behind])
                    invariant
                        start <= behind <= input.len(),
                        forall|i: int|
                            start <= i < behind ==> in_property_name()(#[trigger] input@[i]),
                    decreases input.len() - behind,
                {
                    behind += 1;
                }
                proof {
                    lemma_run_continues(input@, start as int, behind as int, in_property_name());
                }
                if behind > start {
                    match read_char(input, behind, ']') {
                        Some(end) => Some(
                            ((input[sign] == '+', text_between(input, start, behind)), end),
                        ),
                        None => None,
                    }
                } else {
                    None
                }
            } else {
                None
            }
        },
        None => None,
    }
}

/// Reads a terminal.
pub fn terminal(input: &Vec<char>, at: usize) -> (read: Option<(EnvironmentData, usize)>)
    ensures
        match read {
            Some((data, next)) => spec_terminal(input@, at as int) == Some((data@, next as int)),
            None => spec_terminal(input@, at as int) is None,
        },
        read matches Some((_, next)) ==> at < next <= input.len(),
{
    if let Some((class, next)) = phoneme_class(input, at) {
        return Some((EnvironmentData::PhonemeClass { class: known(class), optional: false }, next));
    }
    if let Some((class, next)) = optional_phoneme_class(input, at) {
        return Some((EnvironmentData::PhonemeClass { class: known(class), optional: true }, next));
    }
    if let Some((ortho, next)) = literal_orthography(input, at) {
        return Some((EnvironmentData::Orthography(ortho), next));
    }
    if let Some(((present, name), next)) = property(input, at) {
        return Some((EnvironmentData::Property { name, present }, next));
    }
    None
}

/// The views of a list with one more element are the views of the list with
/// the view of the element.
pub proof fn lemma_views_push(list: Seq<EnvironmentData>, data: EnvironmentData)
    ensures
        views(list.push(data)) == views(list).push(data@),
{
    assert(views(list.push(data)) =~= views(list).push(data@));
}

/// Reads what follows the first terminal of a list, and adds it to `list`.
fn more(input: &Vec<char>, at: usize, list: &mut Vec<EnvironmentData>) -> (end: usize)
    requires
        at <= input.len(),
    ensures
        at <= end <= input.len(),
        views(final(list)@) == views(old(list)@) + spec_more(input@, at as int).0,
        end == spec_more(input@, at as int).1,
    decreases input.len() - at,
{
    match read_char(input, at, ',') {
        Some(comma) => match terminal(input, comma) {
            Some((data, next)) => {
                proof {
                    lemma_views_push(list@, data);
                }
                list.push(data);
                let end = more(input, next, list);
                assert(views(list@) =~= views(old(list)@) + spec_more(input@, at as int).0);
                end
            },
            None => {
                assert(views(list@) =~= views(old(list)@) + spec_more(input@, at as int).0);
                at
            },
        },
        None => {
            assert(views(list@) =~= views(old(list)@) + spec_more(input@, at as int).0);
            at
        },
    }
}

/// Reads alternatives.
pub fn alternatives(input: &Vec<char>, at: usize) -> (read: Option<(EnvironmentData, usize)>)
    ensures
        match read {
            Some((data, next)) => spec_alternatives(input@, at as int) == Some(
                (data@, next as int),
            ),
            None => spec_alternatives(input@, at as int) is None,
        },
        read matches Some((_, next)) ==> at < next <= input.len(),
{
    match read_char(input, at, '<') {
        Some(inside) => match terminal(input, inside) {
            Some((first, next)) => {
                let mut list: Vec<EnvironmentData> = Vec::new();
                proof {
                    lemma_views_push(list@, first);
                }
                list.push(first);
                let behind = more(input, next, &mut list);
                match read_char(input, behind, '>') {
                    Some(end) => {
                        proof {
                            lemma_alternatives_view(list);
                            assert(views(list@) =~= seq![first@] + spec_more(
                                input@,
                                next as int,
                            ).0);
                        }
                        Some((EnvironmentData::Alternatives(list), end))
                    },
                    None => None,
                }
            },
            None => None,
        },
        None => None,
    }
}

/// Reads one element: a terminal, else alternatives.
pub fn element(input: &Vec<char>, at: usize) -> (read: Option<(EnvironmentData, usize)>)
    ensures
        match read {
            Some((data, next)) => spec_element(input@, at as int) == Some((data@, next as int)),
            None => spec_element(input@, at as int) is None,
        },
        read matches Some((_, next)) ==> at < next <= input.len(),
{
    match terminal(input, at) {
        Some(read) => Some(read),
        None => alternatives(input, at),
    }
}

/// Reads elements as long as there are any, and adds them to `list`.
fn elements(input: &Vec<char>, at: usize, list: &mut Vec<EnvironmentData>) -> (end: usize)
    requires
        at <= input.len(),
    ensures
        at <= end <= input.len(),
        views(final(list)@) == views(old(list)@) + spec_elements(input@, at as int).0,
        end == spec_elements(input@, at as int).1,
    decreases input.len() - at,
{
    match element(input, at) {
        Some((data, next)) => {
            proof {
                lemma_views_push(list@, data);
            }
            list.push(data);
            let end = elements(input, next, list);
            assert(views(list@) =~= views(old(list)@) + spec_elements(input@, at as int).0);
            end
        },
        None => {
            assert(views(list@) =~= views(old(list)@) + spec_elements(input@, at as int).0);
            at
        },
    }
}

/// Reads a word boundary if there is one, and adds it to `list`.
fn boundary(input: &Vec<char>, at: usize, list: &mut Vec<EnvironmentData>) -> (end: usize)
    requires
        at <= input.len(),
    ensures
        at <= end <= input.len(),
        views(final(list)@) == views(old(list)@) + spec_boundary(input@, at as int).0,
        end == spec_boundary(input@, at as int).1,
{
    match word_boundary(input, at) {
        Some(next) => {
            proof {
                lemma_views_push(list@, EnvironmentData::Boundary);
            }
            list.push(EnvironmentData::Boundary);
            assert(views(list@) =~= views(old(list)@) + spec_boundary(input@, at as int).0);
            next
        },
        None => {
            assert(views(list@) =~= views(old(list)@) + spec_boundary(input@, at as int).0);
            at
        },
    }
}

/// Reads an environment from the start of a text: the environment and where
/// it ends, or where the referent is missing.
pub fn environment(input: &Vec<char>) -> (read: Result<(Environment, usize), usize>)
    ensures
        match read {
            Ok((env, end)) => spec_environment(input@) == Some((env@, end as int)) && end
                <= input.len(),
            Err(at) => spec_environment(input@) is None && at == referent_position(input@) && at
                <= input.len(),
        },
{
    let mut list: Vec<EnvironmentData> = Vec::new();
    assert(views(list@) =~= Seq::<EnvironmentDataView>::empty());
    let a = boundary(input, 0, &mut list);
    let b = elements(input, a, &mut list);
    match environment_referent(input, b) {
        Some(c) => {
            proof {
                lemma_views_push(list@, EnvironmentData::Referent);
            }
            list.push(EnvironmentData::Referent);
            let d = elements(input, c, &mut list);
            let e = boundary(input, d, &mut list);
            proof {
                let (prebound, _) = spec_boundary(input@, 0);
                let (pre, _) = spec_elements(input@, a as int);
                let (post, _) = spec_elements(input@, c as int);
                let (postbound, _) = spec_boundary(input@, d as int);
                assert(views(list@) =~= prebound + pre + seq![EnvironmentDataView::Referent] + post
                    + postbound);
            }
            Ok((Environment(list), e))
        },
        None => Err(b),
    }
}

impl Environment {
    /// Reads a text as an environment. The whole text must be one.
    pub fn parse(input: &str) -> (outcome: Result<Environment, Error>)
        ensures
            match outcome {
                Ok(env) => spec_parse(input@) == Reading::Read(env@),
                Err(Error::IncompleteParse(text)) => spec_parse(input@) == Reading::Incomplete
                    && text@ == input@,
                Err(Error::Nom(rest)) => spec_parse(input@) == Reading::NoReferent(rest@),
            },
    {
        let chars = chars_of(input);
        match environment(&chars) {
            Ok((env, end)) => {
                if end == chars.len() {
                    Ok(env)
                } else {
                    Err(Error::IncompleteParse(String::from_str(input)))
                }
            },
            Err(at) => {
                let rest = text_between(&chars, at, chars.len());
                assert(chars@.subrange(at as int, chars@.len() as int) =~= chars@.skip(at as int));
                Err(Error::Nom(rest))
            },
        }
    }
}

/// Where the first referent of a list stands, from position `from` on; the
/// length of the list if there is none.
pub open spec fn referent_index(elements: Seq<EnvironmentDataView>, from: int) -> int
    decreases elements.len() - from,
{
    if 0 <= from < elements.len() && !(elements[from] is Referent) {
        referent_index(elements, from + 1)
    } else {
        from
    }
}

/// What stands before the first referent of a list.
pub open spec fn before_referent(elements: Seq<EnvironmentDataView>) -> Seq<EnvironmentDataView> {
    elements.subrange(0, referent_index(elements, 0))
}

/// What stands behind the first referent of a list.
pub open spec fn behind_referent(elements: Seq<EnvironmentDataView>) -> Seq<EnvironmentDataView> {
    if referent_index(elements, 0) < elements.len() {
        elements.subrange(referent_index(elements, 0) + 1, elements.len() as int)
    } else {
        Seq::empty()
    }
}

/// The first referent stands inside the list or at its end, and nothing
/// before it is a referent.
pub proof fn law_first_referent(elements: Seq<EnvironmentDataView>, from: int)
    requires
        0 <= from <= elements.len(),
    ensures
        from <= referent_index(elements, from) <= elements.len(),
        forall|i: int|
            from <= i < referent_index(elements, from) ==> !(#[trigger] elements[i] is Referent),
        referent_index(elements, from) < elements.len() ==> elements[referent_index(elements, from)] is Referent,
    decreases elements.len() - from,
{
    if from < elements.len() && !(elements[from] is Referent) {
        law_first_referent(elements, from + 1);
    }
}

/// A list without referent up to `upto` has its first referent where the
/// list from `upto` on has it.
proof fn lemma_referent_later(elements: Seq<EnvironmentDataView>, from: int, upto: int)
    requires
        0 <= from <= upto <= elements.len(),
        forall|i: int| from <= i < upto ==> !(#[trigger] elements[i] is Referent),
    ensures
        referent_index(elements, from) == referent_index(elements, upto),
    decreases upto - from,
{
    if from < upto {
        assert(!(elements[from] is Referent));
        lemma_referent_later(elements, from + 1, upto);
    }
}

impl Environment {
    /// An environment made of the elements of a list.
    pub fn from_vec(elements: Vec<EnvironmentData>) -> (env: Environment)
        ensures
            env@ == views(elements@),
    {
        Environment(elements)
    }

    /// Copies of the elements from position `from` up to position `to`.
    fn copy_range(&self, from: usize, to: usize) -> (part: Vec<EnvironmentData>)
        requires
            from <= to <= self.0.len(),
        ensures
            views(part@) == self@.subrange(from as int, to as int),
    {
        let mut part: Vec<EnvironmentData> = Vec::new();
        let mut i: usize = from;
        while i < to
            invariant
                from <= i <= to <= self.0.len(),
                part@.len() == i - from,
                forall|j: int| 0 <= j < part@.len() ==> (#[trigger] part@[j])@ == self.0@[from + j]@,
            decreases to - i,
        {
            part.push(self.0[i].clone());
            i += 1;
        }
        assert(views(part@) =~= self@.subrange(from as int, to as int));
        part
    }

    /// Where the first referent stands; the number of elements if there is
    /// none.
    fn find_referent(&self) -> (at: usize)
        ensures
            at == referent_index(self@, 0),
            at <= self.0.len(),
    {
        let mut at: usize = 0;
        while at < self.0.len()
            invariant
                at <= self.0.len(),
                forall|i: int| 0 <= i < at ==> !(#[trigger] self@[i] is Referent),
            decreases self.0.len() - at,
        {
            assert(self@[at as int] == self.0@[at as int]@);
            match &self.0[at] {
                EnvironmentData::Referent => {
                    proof {
                        lemma_referent_later(self@, 0, at as int);
                    }
                    return at;
                },
                _ => {},
            }
            at += 1;
        }
        proof {
            lemma_referent_later(self@, 0, at as int);
        }
        at
    }

    /// What stands before the referent.
    pub fn pre_referent(&self) -> (part: Vec<EnvironmentData>)
        ensures
            views(part@) == before_referent(self@),
    {
        let at = self.find_referent();
        self.copy_range(0, at)
    }

    /// What stands behind the referent.
    pub fn post_referent(&self) -> (part: Vec<EnvironmentData>)
        ensures
            views(part@) == behind_referent(self@),
    {
        let at = self.find_referent();
        if at < self.0.len() {
            self.copy_range(at + 1, self.0.len())
        } else {
            let part: Vec<EnvironmentData> = Vec::new();
            assert(views(part@) =~= Seq::<EnvironmentDataView>::empty());
            part
        }
    }

    /// Writes the environment out in the notation.
    pub fn render(&self) -> (text: String)
        ensures
            text@ == written_all(self@, self@.len()),
    {
        let mut text = String::new();
        let mut i: usize = 0;
        while i < self.0.len()
            invariant
                i <= self.0.len(),
                text@ == written_all(self@, i as nat),
            decreases self.0.len() - i,
        {
            let part = self.0[i].render();
            assert(self@[i as int] == self.0@[i as int]@);
            text.append(part.as_str());
            i += 1;
        }
        text
    }
}

/// Where an element is read, it is a phoneme class: a phoneme class may be
/// any character with which one of the other elements begins, and comes
/// first.
pub proof fn law_element_is_phoneme_class(s: Seq<char>, at: int)
    ensures
        spec_element(s, at) == match spec_phoneme_class(s, at) {
            Some((class, next)) => Some(
                (EnvironmentDataView::PhonemeClass { class, optional: false }, next),
            ),
            None => None,
        },
{
}

/// Two lists written one behind the other are written as their
/// concatenation is.
pub proof fn lemma_written_all_add(a: Seq<EnvironmentDataView>, b: Seq<EnvironmentDataView>, n: nat)
    requires
        n <= b.len(),
    ensures
        written_all(a + b, a.len() + n) == written_all(a, a.len()) + written_all(b, n),
    decreases n,
{
    if n == 0 {
        lemma_written_all_prefix(a + b, a, a.len());
        assert(written_all(a, a.len()) + Seq::<char>::empty() =~= written_all(a, a.len()));
    } else {
        lemma_written_all_add(a, b, (n - 1) as nat);
        assert((a + b)[a.len() + n - 1] == b[n - 1]);
        assert(written_all(a + b, a.len() + n) =~= written_all(a, a.len()) + written_all(b, n));
    }
}

/// What is written of the first elements of a list depends on these alone.
pub proof fn lemma_written_all_prefix(
    a: Seq<EnvironmentDataView>,
    b: Seq<EnvironmentDataView>,
    n: nat,
)
    requires
        n <= a.len(),
        n <= b.len(),
        forall|i: int| 0 <= i < n ==> a[i] == b[i],
    ensures
        written_all(a, n) == written_all(b, n),
    decreases n,
{
    if n > 0 {
        lemma_written_all_prefix(a, b, (n - 1) as nat);
    }
}

/// The elements that are read from a position on are written as the text
/// between that position and the one where reading ends.
pub proof fn lemma_elements_written(s: Seq<char>, at: int)
    requires
        0 <= at <= s.len(),
    ensures
        at <= spec_elements(s, at).1 <= s.len(),
        written_all(spec_elements(s, at).0, spec_elements(s, at).0.len()) == s.subrange(
            at,
            spec_elements(s, at).1,
        ),
    decreases s.len() - at,
{
    law_element_is_phoneme_class(s, at);
    let (list, end) = spec_elements(s, at);
    match spec_element(s, at) {
        Some((data, next)) => {
            lemma_elements_written(s, next);
            let (rest, _) = spec_elements(s, next);
            let one = seq![data];
            assert(written_all(one, 1) =~= seq![s[at]]) by {
                assert(written_all(one, 0) =~= Seq::<char>::empty());
                assert(one[0] == data);
            }
            lemma_written_all_add(one, rest, rest.len());
            assert(list == one + rest);
            assert(seq![s[at]] + s.subrange(next, end) =~= s.subrange(at, end));
        },
        None => {
            assert(s.subrange(at, at) =~= Seq::<char>::empty());
        },
    }
}

/// A word boundary that was read, or none, is written as the text between
/// the position and the one where reading ends.
pub proof fn lemma_boundary_written(s: Seq<char>, at: int)
    requires
        0 <= at <= s.len(),
    ensures
        at <= spec_boundary(s, at).1 <= s.len(),
        written_all(spec_boundary(s, at).0, spec_boundary(s, at).0.len()) == s.subrange(
            at,
            spec_boundary(s, at).1,
        ),
{
    reveal_strlit("#");
    let (list, end) = spec_boundary(s, at);
    if list.len() > 0 {
        assert(written_all(list, 0) =~= Seq::<char>::empty());
        assert(written_all(list, 1) =~= "#"@);
        assert("#"@ =~= s.subrange(at, end));
    } else {
        assert(s.subrange(at, at) =~= Seq::<char>::empty());
    }
}

/// An environment that was read from a text is written as that text.
pub proof fn law_written_as_read(s: Seq<char>)
    requires
        spec_parse(s) is Read,
    ensures
        written_all(spec_parse(s)->Read_0, spec_parse(s)->Read_0.len()) == s,
{
    reveal_strlit("_");
    let (prebound, a) = spec_boundary(s, 0);
    lemma_boundary_written(s, 0);
    let (pre, b) = spec_elements(s, a);
    lemma_elements_written(s, a);
    let c = spec_char(s, b, '_')->Some_0;
    let (post, d) = spec_elements(s, c);
    lemma_elements_written(s, c);
    let (postbound, e) = spec_boundary(s, d);
    lemma_boundary_written(s, d);
    let referent = seq![EnvironmentDataView::Referent];
    assert(written_all(referent, 1) =~= "_"@) by {
        assert(written_all(referent, 0) =~= Seq::<char>::empty());
    }
    assert("_"@ =~= s.subrange(b, c));
    lemma_written_all_add(prebound, pre, pre.len());
    lemma_written_all_add(prebound + pre, referent, 1);
    lemma_written_all_add(prebound + pre + referent, post, post.len());
    lemma_written_all_add(prebound + pre + referent + post, postbound, postbound.len());
    assert(s.subrange(0, a) + s.subrange(a, b) + s.subrange(b, c) + s.subrange(c, d)
        + s.subrange(d, e) =~= s);
}

} // verus!
