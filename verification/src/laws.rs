//! What holds of the operations taken together.

use vstd::prelude::*;

use crate::base::LanguageType;
use crate::enumerate::enumerates;
use crate::epoch::{contribution, epoch_phonemes, handed_down, is_epoch};
use crate::interact::{own_phonemes, seen, with_phonemes};
use crate::language::{name_views, phoneme_views, Language};
use crate::language_group::{
    inherited,
    language_names,
    protolanguage_names,
    provides,
    resolve,
    visible,
    LanguageGroup,
};
use crate::merge::{is_merge, present_ancestors, resolves_in};
use crate::names::{all_distinct, first_index, lemma_first_index, lemma_first_index_is};
use crate::phone::{
    fricative_base,
    plosive_base,
    with_aspiration,
    with_ejective,
    with_phonation,
    Phone,
};
use crate::phoneme::{Phoneme, PhonemeView};
use crate::protolanguage::Protolanguage;
use crate::validate::{all_valid, name_fault};

verus! {

/// The ancestors hand a phoneme down under `id` exactly when one of them
/// provides it.
pub proof fn law_inherited_iff_provided(
    pool: Seq<Protolanguage>,
    ancestors: Seq<Seq<char>>,
    id: u128,
)
    ensures
        inherited(pool, ancestors, id) is Some <==> exists|k: int|
            0 <= k < ancestors.len() && provides(pool, #[trigger] ancestors[k], id),
    decreases ancestors.len(),
{
    if ancestors.len() > 0 {
        let rest = ancestors.drop_first();
        law_inherited_iff_provided(pool, rest, id);
        if provides(pool, ancestors.first(), id) {
            assert(provides(pool, ancestors[0], id));
        } else {
            if inherited(pool, rest, id) is Some {
                let k = choose|k: int| 0 <= k < rest.len() && provides(pool, #[trigger] rest[k], id);
                assert(ancestors[k + 1] == rest[k]);
            }
            if exists|k: int| 0 <= k < ancestors.len() && provides(pool, #[trigger] ancestors[k], id) {
                let k = choose|k: int|
                    0 <= k < ancestors.len() && provides(pool, #[trigger] ancestors[k], id);
                assert(k > 0);
                assert(rest[k - 1] == ancestors[k]);
            }
        }
    }
}

/// An entity sees nothing under `id` exactly when the identifier is neither
/// its own nor provided by any of its ancestors: the inputs on which setting
/// a phoneme fails and changes nothing.
pub proof fn law_unseen_iff_nowhere(
    own: Map<u128, Phoneme>,
    pool: Seq<Protolanguage>,
    ancestors: Seq<Seq<char>>,
    id: u128,
)
    ensures
        visible(own, pool, ancestors, id) is None <==> !own.contains_key(id) && forall|k: int|
            0 <= k < ancestors.len() ==> !provides(pool, #[trigger] ancestors[k], id),
{
    law_inherited_iff_provided(pool, ancestors, id);
}

/// An entity without an entry of its own under `id`, whose only ancestor
/// provides one, sees the ancestor's.
pub proof fn law_get_inherits(
    own: Map<u128, Phoneme>,
    pool: Seq<Protolanguage>,
    ancestor: Seq<char>,
    id: u128,
)
    requires
        !own.contains_key(id),
        provides(pool, ancestor, id),
    ensures
        visible(own, pool, seq![ancestor], id) == Some(
            resolve(pool, ancestor)->Some_0.phonemes@[id],
        ),
{
    assert(seq![ancestor].first() == ancestor);
}

/// Once an entity has an entry of its own under `id`, that is what it sees,
/// whatever its ancestors provide.
pub proof fn law_own_entry_overrides(
    own: Map<u128, Phoneme>,
    pool: Seq<Protolanguage>,
    ancestors: Seq<Seq<char>>,
    id: u128,
    value: Phoneme,
)
    ensures
        visible(own.insert(id, value), pool, ancestors, id) == Some(value),
{
}

/// Removing an entity's own entry under `id` brings back what the ancestors
/// hand down, which the removal cannot touch.
pub proof fn law_delete_uncovers_inherited(
    own: Map<u128, Phoneme>,
    pool: Seq<Protolanguage>,
    ancestors: Seq<Seq<char>>,
    id: u128,
)
    ensures
        visible(own.remove(id), pool, ancestors, id) == inherited(pool, ancestors, id),
{
}

/// A change to the phonemes of a language leaves every protolanguage as it
/// was: what a protolanguage sees under any identifier is what it saw before.
pub proof fn law_language_change_spares_ancestors(
    before: LanguageGroup,
    after: LanguageGroup,
    name: Seq<char>,
    phonemes: Map<u128, Phoneme>,
    ancestor: Seq<char>,
    id: u128,
)
    requires
        with_phonemes(before, after, name, LanguageType::Language, phonemes),
    ensures
        after.protolangs@ == before.protolangs@,
        seen(after, ancestor, LanguageType::Protolanguage, id) == seen(
            before,
            ancestor,
            LanguageType::Protolanguage,
            id,
        ),
{
}

/// A language with no entry of its own under `id`, whose only ancestor holds
/// `id`, sees the ancestor's phoneme. After the language is given a phoneme
/// of its own under `id`, it sees that one, and the ancestor still holds its
/// own.
pub proof fn law_set_overrides_and_spares_ancestor(
    before: LanguageGroup,
    after: LanguageGroup,
    lang: int,
    proto: int,
    id: u128,
    value: Phoneme,
)
    requires
        all_distinct(language_names(before.langs@)),
        all_distinct(protolanguage_names(before.protolangs@)),
        0 <= lang < before.langs@.len(),
        0 <= proto < before.protolangs@.len(),
        name_views(before.langs@[lang].ancestors@) == seq![before.protolangs@[proto].name@],
        !before.langs@[lang].phonemes@.contains_key(id),
        before.protolangs@[proto].phonemes@.contains_key(id),
        with_phonemes(
            before,
            after,
            before.langs@[lang].name@,
            LanguageType::Language,
            before.langs@[lang].phonemes@.insert(id, value),
        ),
    ensures
        seen(before, before.langs@[lang].name@, LanguageType::Language, id) == Some(
            before.protolangs@[proto].phonemes@[id],
        ),
        seen(after, before.langs@[lang].name@, LanguageType::Language, id) == Some(value),
        seen(after, before.protolangs@[proto].name@, LanguageType::Protolanguage, id) == Some(
            before.protolangs@[proto].phonemes@[id],
        ),
{
    let lname = before.langs@[lang].name@;
    let pname = before.protolangs@[proto].name@;
    let lnames = language_names(before.langs@);
    let pnames = protolanguage_names(before.protolangs@);
    assert(lnames[lang] == lname);
    assert(pnames[proto] == pname);
    assert forall|j: int| 0 <= j < lang implies lnames[j] != lname by {}
    assert forall|j: int| 0 <= j < proto implies pnames[j] != pname by {}
    lemma_first_index_is(lnames, lname, lang);
    lemma_first_index_is(pnames, pname, proto);
    assert(resolve(before.protolangs@, pname) == Some(before.protolangs@[proto]));
    assert(provides(before.protolangs@, pname, id));
    law_get_inherits(before.langs@[lang].phonemes@, before.protolangs@, pname, id);
    // after the change
    let anames = language_names(after.langs@);
    assert(anames =~= lnames) by {
        assert forall|j: int| 0 <= j < lnames.len() implies anames[j] == lnames[j] by {
            if j != lang {
                assert(after.langs@[j] == before.langs@[j]);
            }
        }
    }
    assert(after.langs@[lang].phonemes@.contains_key(id));
}

/// After an epoch a language's own entry stands under its identifier: it
/// wins over whatever the ancestors hand down.
pub proof fn law_epoch_local_wins(pool: Seq<Protolanguage>, lang: Language, id: u128)
    requires
        lang.phonemes@.contains_key(id),
    ensures
        epoch_phonemes(pool, lang).contains_key(id),
        epoch_phonemes(pool, lang)[id] == lang.phonemes@[id]@,
{
}

/// After an epoch an identifier that the language lacks holds what the
/// ancestors hand down, and is absent where they hand nothing down.
pub proof fn law_epoch_keeps_inherited(pool: Seq<Protolanguage>, lang: Language, id: u128)
    requires
        !lang.phonemes@.contains_key(id),
    ensures
        epoch_phonemes(pool, lang).contains_key(id) == handed_down(
            pool,
            name_views(lang.ancestors@),
        ).contains_key(id),
        epoch_phonemes(pool, lang).contains_key(id) ==> epoch_phonemes(pool, lang)[id]
            == handed_down(pool, name_views(lang.ancestors@))[id],
{
}

/// The epoch of a language with one ancestor holds exactly what the language
/// saw before: each identifier that it saw, with the phoneme that it saw
/// under it, and no other.
pub proof fn law_epoch_holds_what_was_seen(pool: Seq<Protolanguage>, lang: Language, id: u128)
    requires
        lang.ancestors@.len() == 1,
    ensures
        epoch_phonemes(pool, lang).contains_key(id) == visible(
            lang.phonemes@,
            pool,
            name_views(lang.ancestors@),
            id,
        ) is Some,
        epoch_phonemes(pool, lang).contains_key(id) ==> epoch_phonemes(pool, lang)[id] == visible(
            lang.phonemes@,
            pool,
            name_views(lang.ancestors@),
            id,
        )->Some_0@,
{
    let names = name_views(lang.ancestors@);
    let only = names[0];
    assert(names.first() == only);
    assert(names.last() == only);
    assert(handed_down(pool, names.drop_last()) =~= Map::<u128, PhonemeView>::empty());
    assert(handed_down(pool, names) =~= contribution(pool, only));
    assert(inherited(pool, names.drop_first(), id) is None);
}

/// The ancestors that a merge keeps are those that resolve, and all of those:
/// a name is kept exactly when the language named it and it resolves.
pub proof fn law_merge_keeps_what_resolves(
    pool: Seq<Protolanguage>,
    ancestors: Seq<Seq<char>>,
    name: Seq<char>,
)
    ensures
        present_ancestors(pool, ancestors).contains(name) <==> ancestors.contains(name) && resolve(
            pool,
            name,
        ) is Some,
{
    let keep = resolves_in(pool);
    let kept = present_ancestors(pool, ancestors);
    broadcast use vstd::seq_lib::group_filter_ensures;
    if kept.contains(name) {
        let i = choose|i: int| 0 <= i < kept.len() && kept[i] == name;
        assert(keep(kept[i]));
        ancestors.lemma_filter_contains_rev(keep, name);
    }
    if ancestors.contains(name) && resolve(pool, name) is Some {
        let i = choose|i: int| 0 <= i < ancestors.len() && ancestors[i] == name;
        assert(keep(ancestors[i]));
    }
}

/// Where none of a language's ancestors resolves, a merge leaves it without
/// ancestors; where all of them resolve, it keeps them all.
pub proof fn law_merge_prunes_all_or_nothing(pool: Seq<Protolanguage>, ancestors: Seq<Seq<char>>)
    ensures
        (forall|k: int| 0 <= k < ancestors.len() ==> resolve(pool, #[trigger] ancestors[k]) is None)
            ==> present_ancestors(pool, ancestors) == Seq::<Seq<char>>::empty(),
        (forall|k: int| 0 <= k < ancestors.len() ==> resolve(pool, #[trigger] ancestors[k]) is Some)
            ==> present_ancestors(pool, ancestors) == ancestors,
    decreases ancestors.len(),
{
    reveal(Seq::filter);
    let keep = resolves_in(pool);
    if ancestors.len() > 0 {
        let front = ancestors.drop_last();
        law_merge_prunes_all_or_nothing(pool, front);
        assert forall|k: int| 0 <= k < front.len() implies front[k] == ancestors[k] by {}
        if forall|k: int| 0 <= k < ancestors.len() ==> resolve(pool, #[trigger] ancestors[k]) is None {
            assert(resolve(pool, ancestors[ancestors.len() - 1]) is None);
            assert forall|k: int| 0 <= k < front.len() implies resolve(pool, #[trigger] front[k])
                is None by {
                assert(front[k] == ancestors[k]);
            }
        }
        if forall|k: int| 0 <= k < ancestors.len() ==> resolve(pool, #[trigger] ancestors[k]) is Some {
            assert(resolve(pool, ancestors[ancestors.len() - 1]) is Some);
            assert forall|k: int| 0 <= k < front.len() implies resolve(pool, #[trigger] front[k])
                is Some by {
                assert(front[k] == ancestors[k]);
            }
            assert(front.push(ancestors.last()) =~= ancestors);
        }
    } else {
        assert(ancestors =~= Seq::<Seq<char>>::empty());
    }
}

/// A phone has no rendering exactly when it is a fricative or a vowel.
pub proof fn law_unsupported_kinds(phone: Phone)
    ensures
        phone.branner() is None <==> (phone is Fricative || phone is Vowel),
{
}

/// No rendering is the empty string.
pub proof fn law_rendering_not_empty(phone: Phone)
    requires
        phone.branner() is Some,
    ensures
        phone.branner()->Some_0.len() > 0,
{
    reveal_strlit("p");
    reveal_strlit("b");
    reveal_strlit("p[");
    reveal_strlit("b[");
    reveal_strlit("t[");
    reveal_strlit("d[");
    reveal_strlit("t");
    reveal_strlit("d");
    reveal_strlit("))");
    reveal_strlit("\u{2205}");
    match phone {
        Phone::Plosive { place, voiced, attachments } => {
            let set = attachments@;
            let base = plosive_base(place, voiced, set.contains(crate::phone::ObstruentAttachment::Ejective));
            assert(base.len() > 0);
            assert(with_phonation(base, set).len() >= base.len());
            assert(with_ejective(with_phonation(base, set), set).len() >= base.len());
            assert(with_aspiration(with_ejective(with_phonation(base, set), set), set).len()
                >= base.len());
        },
        Phone::Affricative { start_place, end_place, voiced, attachments } => {
            let set = attachments@;
            let ejective = set.contains(crate::phone::ObstruentAttachment::Ejective);
            let start = with_phonation(plosive_base(start_place, voiced, ejective), set);
            let end = with_phonation(fricative_base(end_place, voiced, ejective), set);
            let joined = start + "))"@ + end;
            assert(joined.len() >= 2);
            assert(with_ejective(joined, set).len() >= joined.len());
            assert(with_aspiration(with_ejective(joined, set), set).len() >= joined.len());
        },
        _ => {},
    }
}

/// What the ancestors hand down is made of phonemes of protolanguages: where
/// every phoneme of every protolanguage is valid, so is every phoneme handed
/// down.
pub proof fn lemma_handed_down_valid(pool: Seq<Protolanguage>, ancestors: Seq<Seq<char>>)
    requires
        forall|i: int| 0 <= i < pool.len() ==> all_valid(phoneme_views(#[trigger] pool[i].phonemes@)),
    ensures
        all_valid(handed_down(pool, ancestors)),
    decreases ancestors.len(),
{
    if ancestors.len() > 0 {
        lemma_handed_down_valid(pool, ancestors.drop_last());
        let name = ancestors.last();
        lemma_first_index(protolanguage_names(pool), name);
        match first_index(protolanguage_names(pool), name) {
            Some(i) => {
                assert(all_valid(phoneme_views(pool[i].phonemes@)));
            },
            None => {},
        }
        assert(all_valid(contribution(pool, name)));
    }
}

/// An epoch keeps a snapshot well formed.
pub proof fn law_epoch_keeps_well_formed(before: LanguageGroup, after: LanguageGroup)
    requires
        before.is_well_formed(),
        is_epoch(before, after),
    ensures
        after.is_well_formed(),
{
    assert(protolanguage_names(after.protolangs@) =~= language_names(before.langs@));
    assert(language_names(after.langs@) =~= Seq::<Seq<char>>::empty());
    assert forall|i: int| 0 <= i < after.protolangs@.len() implies all_valid(
        phoneme_views(#[trigger] after.protolangs@[i].phonemes@),
    ) by {
        let lang = before.langs@[i];
        lemma_handed_down_valid(before.protolangs@, name_views(lang.ancestors@));
        assert(all_valid(phoneme_views(lang.phonemes@)));
    }
}

/// A merge of a well-formed snapshot into a well-formed one leaves a
/// well-formed one.
pub proof fn law_merge_keeps_well_formed(
    before: LanguageGroup,
    incoming: LanguageGroup,
    after: LanguageGroup,
)
    requires
        before.is_well_formed(),
        incoming.is_well_formed(),
        is_merge(before, incoming, after),
    ensures
        after.is_well_formed(),
{
    assert(language_names(after.langs@) =~= language_names(incoming.langs@));
    assert forall|i: int| 0 <= i < after.langs@.len() implies all_valid(
        phoneme_views(#[trigger] after.langs@[i].phonemes@),
    ) by {
        assert(all_valid(phoneme_views(incoming.langs@[i].phonemes@)));
    }
}

/// A list of names without fault, with one more name that is not blank and
/// not among them, is without fault.
pub proof fn law_new_name_keeps_names_in_order(names: Seq<Seq<char>>, name: Seq<char>)
    requires
        name_fault(names) is None,
        name.len() > 0,
        first_index(names, name) is None,
    ensures
        name_fault(names.push(name)) is None,
{
    lemma_first_index(names, name);
    let longer = names.push(name);
    assert(longer.drop_last() =~= names);
    assert(!names.contains(name));
}

/// A well-formed snapshot in which an entity takes a valid phoneme under an
/// identifier stays well formed.
pub proof fn law_valid_phoneme_keeps_well_formed(
    before: LanguageGroup,
    after: LanguageGroup,
    name: Seq<char>,
    kind: LanguageType,
    id: u128,
    stored: Phoneme,
)
    requires
        before.is_well_formed(),
        stored.is_valid(),
        own_phonemes(before, name, kind) is Some,
        with_phonemes(
            before,
            after,
            name,
            kind,
            own_phonemes(before, name, kind)->Some_0.insert(id, stored),
        ),
    ensures
        after.is_well_formed(),
{
    match kind {
        LanguageType::Protolanguage => {
            let i = first_index(protolanguage_names(before.protolangs@), name)->Some_0;
            lemma_first_index(protolanguage_names(before.protolangs@), name);
            assert(protolanguage_names(after.protolangs@) =~= protolanguage_names(
                before.protolangs@,
            )) by {
                assert forall|j: int| 0 <= j < before.protolangs@.len() implies #[trigger] after.protolangs@[j].name@
                    == before.protolangs@[j].name@ by {
                    if j != i {
                        assert(after.protolangs@[j] == before.protolangs@[j]);
                    }
                }
            }
            assert forall|j: int| 0 <= j < after.protolangs@.len() implies all_valid(
                phoneme_views(#[trigger] after.protolangs@[j].phonemes@),
            ) by {
                assert(all_valid(phoneme_views(before.protolangs@[j].phonemes@)));
                if j != i {
                    assert(after.protolangs@[j] == before.protolangs@[j]);
                } else {
                    let was = phoneme_views(before.protolangs@[i].phonemes@);
                    let now = phoneme_views(after.protolangs@[i].phonemes@);
                    assert(after.protolangs@[i].phonemes@ == before.protolangs@[i].phonemes@.insert(
                        id,
                        stored,
                    ));
                    assert forall|k: u128| now.contains_key(k) implies (#[trigger] now[k]).is_valid() by {
                        if k != id {
                            assert(was.contains_key(k) && now[k] == was[k]);
                        }
                    }
                }
            }
        },
        LanguageType::Language => {
            let i = first_index(language_names(before.langs@), name)->Some_0;
            lemma_first_index(language_names(before.langs@), name);
            assert(language_names(after.langs@) =~= language_names(before.langs@)) by {
                assert forall|j: int| 0 <= j < before.langs@.len() implies #[trigger] after.langs@[j].name@
                    == before.langs@[j].name@ by {
                    if j != i {
                        assert(after.langs@[j] == before.langs@[j]);
                    }
                }
            }
            assert forall|j: int| 0 <= j < after.langs@.len() implies all_valid(
                phoneme_views(#[trigger] after.langs@[j].phonemes@),
            ) by {
                assert(all_valid(phoneme_views(before.langs@[j].phonemes@)));
                if j != i {
                    assert(after.langs@[j] == before.langs@[j]);
                } else {
                    let was = phoneme_views(before.langs@[i].phonemes@);
                    let now = phoneme_views(after.langs@[i].phonemes@);
                    assert(after.langs@[i].phonemes@ == before.langs@[i].phonemes@.insert(
                        id,
                        stored,
                    ));
                    assert forall|k: u128| now.contains_key(k) implies (#[trigger] now[k]).is_valid() by {
                        if k != id {
                            assert(was.contains_key(k) && now[k] == was[k]);
                        }
                    }
                }
            }
        },
    }
}

/// Whether a list holds an entry for `id` with the content of `phoneme`.
pub open spec fn holds_entry(out: Seq<(u128, Phoneme)>, id: u128, phoneme: Phoneme) -> bool {
    exists|i: int| 0 <= i < out.len() && (#[trigger] out[i]).0 == id && out[i].1@ == phoneme@
}

/// An enumeration holds every phoneme of the entity's own, and every
/// phoneme of every ancestor that resolves.
pub proof fn lemma_enumeration_holds_all(
    out: Seq<(u128, Phoneme)>,
    own: Map<u128, Phoneme>,
    pool: Seq<Protolanguage>,
    ancestors: Seq<Seq<char>>,
)
    requires
        enumerates(out, own, pool, ancestors),
    ensures
        forall|id: u128| own.contains_key(id) ==> #[trigger] holds_entry(out, id, own[id]),
        forall|k: int, id: u128|
            0 <= k < ancestors.len() && provides(pool, ancestors[k], id) ==> #[trigger] holds_entry(
                out,
                id,
                resolve(pool, #[trigger] ancestors[k])->Some_0.phonemes@[id],
            ),
    decreases ancestors.len(),
{
    if ancestors.len() == 0 {
        assert forall|id: u128| own.contains_key(id) implies #[trigger] holds_entry(
            out,
            id,
            own[id],
        ) by {
            let i = choose|i: int| 0 <= i < out.len() && (#[trigger] out[i]).0 == id;
            assert(own.contains_key(out[i].0) && out[i].1@ == own[out[i].0]@);
        }
    } else {
        let front = ancestors.drop_last();
        let last = ancestors.last();
        match resolve(pool, last) {
            Some(proto) => {
                let cut = out.len() - proto.phonemes@.len();
                let head = out.subrange(0, cut);
                let tail = out.subrange(cut, out.len() as int);
                lemma_enumeration_holds_all(head, own, pool, front);
                assert forall|id: u128| own.contains_key(id) implies #[trigger] holds_entry(
                    out,
                    id,
                    own[id],
                ) by {
                    assert(holds_entry(head, id, own[id]));
                    let i = choose|i: int|
                        0 <= i < head.len() && (#[trigger] head[i]).0 == id && head[i].1@
                            == own[id]@;
                    assert(out[i] == head[i]);
                }
                assert forall|k: int, id: u128|
                    0 <= k < ancestors.len() && provides(pool, ancestors[k], id) implies #[trigger] holds_entry(
                    out,
                    id,
                    resolve(pool, #[trigger] ancestors[k])->Some_0.phonemes@[id],
                ) by {
                    let wanted = resolve(pool, ancestors[k])->Some_0.phonemes@[id];
                    if k < ancestors.len() - 1 {
                        assert(front[k] == ancestors[k]);
                        assert(holds_entry(head, id, wanted));
                        let i = choose|i: int|
                            0 <= i < head.len() && (#[trigger] head[i]).0 == id && head[i].1@
                                == wanted@;
                        assert(out[i] == head[i]);
                    } else {
                        let i = choose|i: int| 0 <= i < tail.len() && (#[trigger] tail[i]).0 == id;
                        assert(proto.phonemes@.contains_key(tail[i].0) && tail[i].1@
                            == proto.phonemes@[tail[i].0]@);
                        assert(out[cut + i] == tail[i]);
                    }
                }
            },
            None => {
                lemma_enumeration_holds_all(out, own, pool, front);
                assert forall|k: int, id: u128|
                    0 <= k < ancestors.len() && provides(pool, ancestors[k], id) implies #[trigger] holds_entry(
                    out,
                    id,
                    resolve(pool, #[trigger] ancestors[k])->Some_0.phonemes@[id],
                ) by {
                    assert(k < ancestors.len() - 1);
                    assert(front[k] == ancestors[k]);
                }
            },
        }
    }
}

/// What the ancestors hand down under `id` is what one of them holds under
/// it.
pub proof fn lemma_inherited_from_ancestor(
    pool: Seq<Protolanguage>,
    ancestors: Seq<Seq<char>>,
    id: u128,
)
    requires
        inherited(pool, ancestors, id) is Some,
    ensures
        exists|k: int|
            0 <= k < ancestors.len() && provides(pool, #[trigger] ancestors[k], id) && inherited(
                pool,
                ancestors,
                id,
            ) == Some(resolve(pool, ancestors[k])->Some_0.phonemes@[id]),
    decreases ancestors.len(),
{
    if ancestors.len() > 0 {
        if provides(pool, ancestors.first(), id) {
            assert(provides(pool, ancestors[0], id));
        } else {
            let rest = ancestors.drop_first();
            lemma_inherited_from_ancestor(pool, rest, id);
            let k = choose|k: int|
                0 <= k < rest.len() && provides(pool, #[trigger] rest[k], id) && inherited(
                    pool,
                    rest,
                    id,
                ) == Some(resolve(pool, rest[k])->Some_0.phonemes@[id]);
            assert(ancestors[k + 1] == rest[k]);
        }
    }
}

/// An enumeration shows everything that the entity sees: whatever it sees
/// under an identifier stands in the enumeration under that identifier.
pub proof fn law_enumeration_shows_what_is_seen(
    out: Seq<(u128, Phoneme)>,
    own: Map<u128, Phoneme>,
    pool: Seq<Protolanguage>,
    ancestors: Seq<Seq<char>>,
    id: u128,
)
    requires
        enumerates(out, own, pool, ancestors),
        visible(own, pool, ancestors, id) is Some,
    ensures
        holds_entry(out, id, visible(own, pool, ancestors, id)->Some_0),
{
    lemma_enumeration_holds_all(out, own, pool, ancestors);
    if !own.contains_key(id) {
        lemma_inherited_from_ancestor(pool, ancestors, id);
        let k = choose|k: int|
            0 <= k < ancestors.len() && provides(pool, #[trigger] ancestors[k], id) && inherited(
                pool,
                ancestors,
                id,
            ) == Some(resolve(pool, ancestors[k])->Some_0.phonemes@[id]);
        assert(holds_entry(out, id, resolve(pool, ancestors[k])->Some_0.phonemes@[id]));
    }
}

} // verus!
