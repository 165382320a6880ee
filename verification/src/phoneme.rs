//! Phonemes: a primary phone with its allophones.

use vstd::prelude::*;

use crate::phone::Phone;

verus! {

/// A named sound unit: one primary phone and its alternate realisations.
#[derive(Debug, PartialEq)]
pub struct Phoneme {
    pub ortho: String,
    pub primary: Phone,
    pub allo: Vec<Phone>,
}

/// What a phoneme holds, as mathematical values.
pub struct PhonemeView {
    pub ortho: Seq<char>,
    pub primary: Phone,
    pub allo: Seq<Phone>,
}

impl View for Phoneme {
    type V = PhonemeView;

    open spec fn view(&self) -> PhonemeView {
        PhonemeView { ortho: self.ortho@, primary: self.primary, allo: self.allo@ }
    }
}

/// The allophones that validation keeps: each phone of `allo` that differs
/// from `primary`, at its first occurrence, in the order of `allo`.
pub open spec fn kept_allophones(allo: Seq<Phone>, primary: Phone) -> Seq<Phone>
    decreases allo.len(),
{
    if allo.len() == 0 {
        Seq::empty()
    } else {
        let before = kept_allophones(allo.drop_last(), primary);
        let phone = allo.last();
        if phone == primary || before.contains(phone) {
            before
        } else {
            before.push(phone)
        }
    }
}

/// What validation keeps has no duplicate, lacks the primary phone, and holds
/// exactly the other phones of the list.
pub proof fn lemma_kept_allophones(allo: Seq<Phone>, primary: Phone)
    ensures
        kept_allophones(allo, primary).no_duplicates(),
        !kept_allophones(allo, primary).contains(primary),
        kept_allophones(allo, primary).len() <= allo.len(),
        forall|p: Phone| #[trigger]
            kept_allophones(allo, primary).contains(p) <==> (allo.contains(p) && p != primary),
    decreases allo.len(),
{
    let kept = kept_allophones(allo, primary);
    if allo.len() > 0 {
        let front = allo.drop_last();
        let before = kept_allophones(front, primary);
        let phone = allo.last();
        lemma_kept_allophones(front, primary);
        assert forall|p: Phone| #[trigger] kept.contains(p) <==> (allo.contains(p) && p != primary) by {
            if allo.contains(p) {
                let i = choose|i: int| 0 <= i < allo.len() && allo[i] == p;
                if i < allo.len() - 1 {
                    assert(front[i] == p);
                    assert(front.contains(p));
                }
            }
            if front.contains(p) {
                let i = choose|i: int| 0 <= i < front.len() && front[i] == p;
                assert(allo[i] == p);
            }
            assert(allo[allo.len() - 1] == phone);
            if kept.contains(p) && !before.contains(p) {
                let i = choose|i: int| 0 <= i < kept.len() && kept[i] == p;
                assert(kept == before.push(phone));
                if i < before.len() {
                    assert(before[i] == p);
                }
            }
            if before.contains(p) {
                let i = choose|i: int| 0 <= i < before.len() && before[i] == p;
                assert(kept[i] == p);
            }
            if kept == before.push(phone) {
                assert(kept[before.len() as int] == phone);
            }
        }
    }
}

/// A list that has no duplicate and lacks the primary phone is kept whole.
pub proof fn lemma_kept_allophones_of_valid(allo: Seq<Phone>, primary: Phone)
    requires
        allo.no_duplicates(),
        !allo.contains(primary),
    ensures
        kept_allophones(allo, primary) == allo,
    decreases allo.len(),
{
    if allo.len() > 0 {
        let front = allo.drop_last();
        let phone = allo.last();
        assert forall|i: int| 0 <= i < front.len() implies front[i] != primary by {
            assert(allo[i] == front[i]);
        }
        lemma_kept_allophones_of_valid(front, primary);
        assert(!front.contains(phone)) by {
            if front.contains(phone) {
                let i = choose|i: int| 0 <= i < front.len() && front[i] == phone;
                assert(allo[i] == allo[allo.len() - 1]);
            }
        }
        assert(allo[allo.len() - 1] != primary);
        assert(front.push(phone) =~= allo);
    } else {
        assert(allo =~= Seq::<Phone>::empty());
    }
}

/// Validation changes nothing in what it has validated.
pub proof fn law_validation_is_idempotent(phoneme: PhonemeView)
    ensures
        phoneme.validated().is_valid(),
        phoneme.validated().validated() == phoneme.validated(),
{
    lemma_kept_allophones(phoneme.allo, phoneme.primary);
    lemma_kept_allophones_of_valid(kept_allophones(phoneme.allo, phoneme.primary), phoneme.primary);
}

/// Validation keeps the phones in the order in which they stood: what it
/// keeps can be had from the list by leaving phones out.
pub proof fn law_validation_keeps_order(allo: Seq<Phone>, primary: Phone)
    ensures
        exists|at: Seq<int>| is_selection(kept_allophones(allo, primary), allo, at),
    decreases allo.len(),
{
    let kept = kept_allophones(allo, primary);
    if allo.len() == 0 {
        assert(is_selection(kept, allo, Seq::<int>::empty()));
    } else {
        let front = allo.drop_last();
        let before = kept_allophones(front, primary);
        law_validation_keeps_order(front, primary);
        let at = choose|at: Seq<int>| is_selection(before, front, at);
        if kept == before {
            assert(is_selection(kept, allo, at)) by {
                assert forall|i: int| 0 <= i < kept.len() implies 0 <= #[trigger] at[i] < allo.len()
                    && allo[at[i]] == kept[i] by {
                    assert(front[at[i]] == allo[at[i]]);
                }
            }
        } else {
            let longer = at.push(allo.len() - 1);
            assert(kept == before.push(allo.last()));
            assert(is_selection(kept, allo, longer)) by {
                assert forall|i: int| 0 <= i < kept.len() implies 0 <= #[trigger] longer[i]
                    < allo.len() && allo[longer[i]] == kept[i] by {
                    if i < before.len() {
                        assert(longer[i] == at[i]);
                        assert(front[at[i]] == allo[at[i]]);
                    }
                }
                assert forall|i: int, j: int| 0 <= i < j < kept.len() implies #[trigger] longer[i]
                    < #[trigger] longer[j] by {
                    if j < before.len() {
                        assert(longer[i] == at[i] && longer[j] == at[j]);
                    } else {
                        assert(longer[i] == at[i]);
                        assert(0 <= at[i] < front.len());
                    }
                }
            }
        }
    }
}

/// Whether `part` is made of the items of `whole` at the positions `at`,
/// which rise.
pub open spec fn is_selection(part: Seq<Phone>, whole: Seq<Phone>, at: Seq<int>) -> bool {
    &&& at.len() == part.len()
    &&& forall|i: int|
        0 <= i < part.len() ==> 0 <= #[trigger] at[i] < whole.len() && whole[at[i]] == part[i]
    &&& forall|i: int, j: int| 0 <= i < j < part.len() ==> #[trigger] at[i] < #[trigger] at[j]
}

impl PhonemeView {
    /// The allophones hold neither the primary phone nor any phone twice.
    pub open spec fn is_valid(self) -> bool {
        self.allo.no_duplicates() && !self.allo.contains(self.primary)
    }

    /// The phoneme after validation.
    pub open spec fn validated(self) -> PhonemeView {
        PhonemeView {
            ortho: self.ortho,
            primary: self.primary,
            allo: kept_allophones(self.allo, self.primary),
        }
    }
}

impl Default for Phoneme {
    /// A phoneme without spelling or allophones, whose primary phone is null.
    fn default() -> (phoneme: Phoneme)
        ensures
            phoneme@ == (PhonemeView {
                ortho: Seq::<char>::empty(),
                primary: Phone::Null,
                allo: Seq::<Phone>::empty(),
            }),
    {
        Phoneme { ortho: String::new(), primary: Phone::Null, allo: Vec::new() }
    }
}

impl Clone for Phoneme {
    fn clone(&self) -> (copy: Phoneme)
        ensures
            copy@ == self@,
    {
        let mut allo: Vec<Phone> = Vec::new();
        let mut i: usize = 0;
        while i < self.allo.len()
            invariant
                i <= self.allo.len(),
                allo@ == self.allo@.subrange(0, i as int),
            decreases self.allo.len() - i,
        {
            allo.push(self.allo[i]);
            assert(allo@ =~= self.allo@.subrange(0, i as int + 1));
            i += 1;
        }
        assert(allo@ =~= self.allo@);
        Phoneme { ortho: self.ortho.clone(), primary: self.primary, allo }
    }
}

impl Phoneme {
    /// The allophones hold neither the primary phone nor any phone twice.
    pub open spec fn is_valid(self) -> bool {
        self@.is_valid()
    }

    /// Validates the phoneme: drops from the allophones the primary phone and
    /// every repetition, keeping the rest in order.
    pub fn validated(self) -> (clean: Phoneme)
        ensures
            clean@ == self@.validated(),
            clean.is_valid(),
            self.is_valid() ==> clean@ == self@,
    {
        let mut allophones: Vec<Phone> = Vec::new();
        let mut i: usize = 0;
        while i < self.allo.len()
            invariant
                i <= self.allo.len(),
                allophones@ == kept_allophones(self.allo@.subrange(0, i as int), self.primary),
            decreases self.allo.len() - i,
        {
            let phone = self.allo[i];
            let ghost seen = self.allo@.subrange(0, i as int);
            let ghost next = self.allo@.subrange(0, i as int + 1);
            assert(next.drop_last() =~= seen);
            assert(next.last() == phone);
            let known = Self::holds(&allophones, &phone);
            if !known && phone != self.primary {
                allophones.push(phone);
            }
            i += 1;
        }
        assert(self.allo@.subrange(0, self.allo.len() as int) =~= self.allo@);
        proof {
            lemma_kept_allophones(self.allo@, self.primary);
            if self.is_valid() {
                lemma_kept_allophones_of_valid(self.allo@, self.primary);
            }
        }
        Phoneme { ortho: self.ortho, primary: self.primary, allo: allophones }
    }

    /// Whether `phones` holds `phone`.
    fn holds(phones: &Vec<Phone>, phone: &Phone) -> (found: bool)
        ensures
            found == phones@.contains(*phone),
    {
        let mut i: usize = 0;
        while i < phones.len()
            invariant
                i <= phones.len(),
                forall|j: int| 0 <= j < i ==> phones@[j] != *phone,
            decreases phones.len() - i,
        {
            if phones[i] == *phone {
                return true;
            }
            i += 1;
        }
        false
    }
}

} // verus!
