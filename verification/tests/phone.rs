use lexi::{AttachmentSet, FricativePlace, ObstruentAttachment, Phone, PhoneError, PlosivePlace};

fn set_of(items: &[ObstruentAttachment]) -> AttachmentSet {
    let mut set = AttachmentSet::new();
    for item in items {
        set.insert(*item);
    }
    set
}

fn plosive(place: PlosivePlace, voiced: bool, items: &[ObstruentAttachment]) -> Phone {
    Phone::Plosive { place, voiced, attachments: set_of(items) }
}

fn affricate(
    start_place: PlosivePlace,
    end_place: FricativePlace,
    voiced: bool,
    items: &[ObstruentAttachment],
) -> Phone {
    Phone::Affricative { start_place, end_place, voiced, attachments: set_of(items) }
}

#[test]
fn attachment_set_starts_empty() {
    let set = AttachmentSet::new();
    assert!(set.is_empty());
    assert!(!set.contains(&ObstruentAttachment::Ejective));
    assert!(!set.contains(&ObstruentAttachment::Creaky));
    assert_eq!(set, AttachmentSet::default());
}

#[test]
fn attachment_set_insert_reports_whether_new() {
    let mut set = AttachmentSet::new();
    assert!(set.insert(ObstruentAttachment::Breathy));
    assert!(!set.insert(ObstruentAttachment::Breathy));
    assert!(set.contains(&ObstruentAttachment::Breathy));
    assert!(!set.contains(&ObstruentAttachment::Creaky));
    assert!(!set.is_empty());
}

#[test]
fn attachment_set_remove_reports_whether_present() {
    let mut set = set_of(&[ObstruentAttachment::Aspirated, ObstruentAttachment::Creaky]);
    assert!(set.remove(&ObstruentAttachment::Aspirated));
    assert!(!set.remove(&ObstruentAttachment::Aspirated));
    assert!(!set.contains(&ObstruentAttachment::Aspirated));
    assert!(set.contains(&ObstruentAttachment::Creaky));
    assert!(set.remove(&ObstruentAttachment::Creaky));
    assert!(set.is_empty());
}

#[test]
fn attachment_set_ignores_order_of_insertion() {
    let a = set_of(&[ObstruentAttachment::Ejective, ObstruentAttachment::Preaspirated]);
    let b = set_of(&[ObstruentAttachment::Preaspirated, ObstruentAttachment::Ejective]);
    assert_eq!(a, b);
}

#[test]
fn plain_voiceless_bilabial_plosive_is_p() {
    assert_eq!(plosive(PlosivePlace::Bilabial, false, &[]).to_branner(), Ok("p".to_string()));
}

#[test]
fn ejective_plosive_appends_marker() {
    let phone = plosive(PlosivePlace::Bilabial, false, &[ObstruentAttachment::Ejective]);
    assert_eq!(phone.to_branner(), Ok("p`".to_string()));
}

#[test]
fn ejective_ignores_voicing_for_the_base() {
    let phone = plosive(PlosivePlace::Bilabial, true, &[ObstruentAttachment::Ejective]);
    assert_eq!(phone.to_branner(), Ok("p`".to_string()));
}

#[test]
fn preaspirated_voiced_plosive_is_prefixed() {
    let phone = plosive(PlosivePlace::Bilabial, true, &[ObstruentAttachment::Preaspirated]);
    assert_eq!(phone.to_branner(), Ok("h^b".to_string()));
}

#[test]
fn aspirated_plosive_is_suffixed() {
    let phone = plosive(PlosivePlace::Alveolar, false, &[ObstruentAttachment::Aspirated]);
    assert_eq!(phone.to_branner(), Ok("th^".to_string()));
}

#[test]
fn preaspiration_wins_over_aspiration() {
    let phone = plosive(
        PlosivePlace::Alveolar,
        true,
        &[ObstruentAttachment::Aspirated, ObstruentAttachment::Preaspirated],
    );
    assert_eq!(phone.to_branner(), Ok("h^d".to_string()));
}

#[test]
fn ejective_affricate_has_one_marker_at_the_end() {
    let phone = affricate(
        PlosivePlace::Bilabial,
        FricativePlace::Alveolar,
        false,
        &[ObstruentAttachment::Ejective],
    );
    assert_eq!(phone.to_branner(), Ok("p))s`".to_string()));
}

#[test]
fn plosive_base_table() {
    let table = [
        (PlosivePlace::Bilabial, "p", "b"),
        (PlosivePlace::Labiodental, "p[", "b["),
        (PlosivePlace::Dental, "t[", "d["),
        (PlosivePlace::Alveolar, "t", "d"),
    ];
    for (place, voiceless, voiced) in table {
        assert_eq!(plosive(place, false, &[]).to_branner(), Ok(voiceless.to_string()));
        assert_eq!(plosive(place, true, &[]).to_branner(), Ok(voiced.to_string()));
        let none = AttachmentSet::new();
        assert_eq!(Phone::get_plosive_base(&place, false, &none), voiceless);
        assert_eq!(Phone::get_plosive_base(&place, true, &none), voiced);
        let ejective = set_of(&[ObstruentAttachment::Ejective]);
        assert_eq!(Phone::get_plosive_base(&place, true, &ejective), voiceless);
    }
}

#[test]
fn fricative_base_table() {
    let table = [
        (FricativePlace::Bilabial, "P\"", "B\""),
        (FricativePlace::Labiodental, "f", "v"),
        (FricativePlace::Dental, "O-", "d-"),
        (FricativePlace::Alveolar, "s", "z"),
        (FricativePlace::Postalveolar, "S", "3\""),
    ];
    for (place, voiceless, voiced) in table {
        let none = AttachmentSet::new();
        assert_eq!(Phone::get_fricative_base(&place, false, &none), voiceless);
        assert_eq!(Phone::get_fricative_base(&place, true, &none), voiced);
        let ejective = set_of(&[ObstruentAttachment::Ejective]);
        assert_eq!(Phone::get_fricative_base(&place, true, &ejective), voiceless);
        let phone = affricate(PlosivePlace::Alveolar, place, true, &[]);
        assert_eq!(phone.to_branner(), Ok(format!("d)){voiced}")));
    }
}

#[test]
fn plosive_markers_come_in_order() {
    let phone = plosive(
        PlosivePlace::Dental,
        true,
        &[
            ObstruentAttachment::Aspirated,
            ObstruentAttachment::Ejective,
            ObstruentAttachment::Creaky,
            ObstruentAttachment::Breathy,
        ],
    );
    assert_eq!(phone.to_branner(), Ok("t[h\")~`h^".to_string()));
}

#[test]
fn breathy_then_creaky_without_ejective() {
    let phone = plosive(
        PlosivePlace::Labiodental,
        true,
        &[ObstruentAttachment::Creaky, ObstruentAttachment::Breathy],
    );
    assert_eq!(phone.to_branner(), Ok("b[h\")~".to_string()));
}

#[test]
fn affricate_marks_both_parts() {
    let phone = affricate(
        PlosivePlace::Labiodental,
        FricativePlace::Postalveolar,
        true,
        &[ObstruentAttachment::Breathy],
    );
    assert_eq!(phone.to_branner(), Ok("b[h\")))3\"h\")".to_string()));
}

#[test]
fn affricate_with_everything() {
    let phone = affricate(
        PlosivePlace::Dental,
        FricativePlace::Dental,
        true,
        &[
            ObstruentAttachment::Breathy,
            ObstruentAttachment::Creaky,
            ObstruentAttachment::Ejective,
            ObstruentAttachment::Preaspirated,
            ObstruentAttachment::Aspirated,
        ],
    );
    assert_eq!(phone.to_branner(), Ok("h^t[h\")~))O-h\")~`".to_string()));
}

#[test]
fn affricate_aspiration_wraps_the_whole() {
    let phone = affricate(
        PlosivePlace::Alveolar,
        FricativePlace::Labiodental,
        false,
        &[ObstruentAttachment::Aspirated],
    );
    assert_eq!(phone.to_branner(), Ok("t))fh^".to_string()));
}

#[test]
fn null_renders_as_empty_set_glyph() {
    assert_eq!(Phone::Null.to_branner(), Ok("\u{2205}".to_string()));
    assert_eq!(Phone::Null.to_branner().unwrap(), "∅");
}

#[test]
fn fricative_is_unsupported() {
    let phone = Phone::Fricative {
        place: FricativePlace::Alveolar,
        voiced: false,
        attachments: AttachmentSet::new(),
    };
    assert_eq!(phone.to_branner(), Err(PhoneError::Unsupported));
    assert!(!phone.is_renderable());
}

#[test]
fn vowel_is_unsupported() {
    assert_eq!(Phone::Vowel {}.to_branner(), Err(PhoneError::Unsupported));
    assert!(!Phone::Vowel {}.is_renderable());
}

#[test]
fn renderable_kinds() {
    assert!(Phone::Null.is_renderable());
    assert!(plosive(PlosivePlace::Dental, false, &[]).is_renderable());
    assert!(affricate(PlosivePlace::Dental, FricativePlace::Dental, false, &[]).is_renderable());
}

#[test]
fn aspiration_alone() {
    let none = AttachmentSet::new();
    assert_eq!(Phone::aspiration("x", &none), "x");
    let post = set_of(&[ObstruentAttachment::Aspirated]);
    assert_eq!(Phone::aspiration("x", &post), "xh^");
    let pre = set_of(&[ObstruentAttachment::Preaspirated]);
    assert_eq!(Phone::aspiration("x", &pre), "h^x");
}
