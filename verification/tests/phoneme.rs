use lexi::{AttachmentSet, ObstruentAttachment, Phone, Phoneme, PlosivePlace};

fn p(place: PlosivePlace, voiced: bool) -> Phone {
    Phone::Plosive { place, voiced, attachments: AttachmentSet::new() }
}

#[test]
fn default_phoneme_is_null_and_bare() {
    let phoneme = Phoneme::default();
    assert_eq!(phoneme.ortho, "");
    assert_eq!(phoneme.primary, Phone::Null);
    assert!(phoneme.allo.is_empty());
}

#[test]
fn validated_drops_repeated_allophones() {
    let a = p(PlosivePlace::Bilabial, false);
    let b = p(PlosivePlace::Dental, true);
    let phoneme = Phoneme { ortho: "x".to_string(), primary: Phone::Null, allo: vec![a, b, a, b, a] };
    let clean = phoneme.validated();
    assert_eq!(clean.ortho, "x");
    assert_eq!(clean.primary, Phone::Null);
    assert_eq!(clean.allo, vec![a, b]);
}

#[test]
fn validated_strips_the_primary_phone() {
    let a = p(PlosivePlace::Bilabial, false);
    let b = p(PlosivePlace::Dental, true);
    let phoneme = Phoneme { ortho: "y".to_string(), primary: a, allo: vec![a, b, a] };
    let clean = phoneme.validated();
    assert_eq!(clean.primary, a);
    assert_eq!(clean.allo, vec![b]);
}

#[test]
fn validated_keeps_first_occurrences_in_order() {
    let a = p(PlosivePlace::Bilabial, false);
    let b = p(PlosivePlace::Dental, true);
    let c = p(PlosivePlace::Alveolar, true);
    let phoneme = Phoneme { ortho: String::new(), primary: c, allo: vec![b, c, a, b, Phone::Null] };
    assert_eq!(phoneme.validated().allo, vec![b, a, Phone::Null]);
}

#[test]
fn validated_leaves_a_valid_phoneme_alone() {
    let a = p(PlosivePlace::Bilabial, false);
    let b = p(PlosivePlace::Dental, true);
    let phoneme = Phoneme { ortho: "z".to_string(), primary: Phone::Null, allo: vec![a, b] };
    let copy = phoneme.clone();
    assert_eq!(phoneme.validated(), copy);
}

#[test]
fn validated_twice_is_validated_once() {
    let a = p(PlosivePlace::Bilabial, false);
    let phoneme = Phoneme { ortho: "z".to_string(), primary: a, allo: vec![a, Phone::Null, a, Phone::Null] };
    let once = phoneme.validated();
    let twice = once.clone().validated();
    assert_eq!(once, twice);
}

#[test]
fn validated_distinguishes_attachments() {
    let plain = p(PlosivePlace::Bilabial, false);
    let mut set = AttachmentSet::new();
    set.insert(ObstruentAttachment::Ejective);
    let ejective = Phone::Plosive { place: PlosivePlace::Bilabial, voiced: false, attachments: set };
    let phoneme = Phoneme { ortho: String::new(), primary: plain, allo: vec![ejective, plain, ejective] };
    assert_eq!(phoneme.validated().allo, vec![ejective]);
}

#[test]
fn validated_of_empty_list() {
    let phoneme = Phoneme { ortho: "q".to_string(), primary: Phone::Null, allo: vec![] };
    assert!(phoneme.validated().allo.is_empty());
}

#[test]
fn clone_keeps_everything() {
    let a = p(PlosivePlace::Bilabial, false);
    let phoneme = Phoneme { ortho: "abc".to_string(), primary: a, allo: vec![Phone::Null, a] };
    let copy = phoneme.clone();
    assert_eq!(copy.ortho, "abc");
    assert_eq!(copy.primary, a);
    assert_eq!(copy.allo, vec![Phone::Null, a]);
}
