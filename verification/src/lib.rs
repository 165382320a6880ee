//! Phonological data engine for families of constructed languages.
//!
//! The crate models phones and phonemes, the languages and protolanguages
//! that hold them, one level of ancestry between the two, and the
//! whole-family transforms (epoch and merge) that keep inheritance and
//! override consistent.

pub mod base;
pub mod decimal;
pub mod description;
pub mod enumerate;
pub mod epoch;
pub mod ids;
pub mod interact;
pub mod inventory;
pub mod language;
pub mod language_group;
pub mod laws;
pub mod merge;
pub mod names;
pub mod naming;
pub mod parser;
pub mod pattern;
pub mod phone;
pub mod phoneme;
pub mod project;
pub mod protolanguage;
pub mod storage;
pub mod text;
pub mod translit;
pub mod validate;
pub mod version;

pub use base::{BaseLanguage, LanguageType};
pub use language::{Language, LanguageView};
pub use language_group::{LanguageGroup, LanguageGroupError, LanguageGroupView};
pub use phone::{AttachmentSet, FricativePlace, ObstruentAttachment, Phone, PhoneError, PlosivePlace};
pub use phoneme::{Phoneme, PhonemeView};
pub use project::Project;
pub use protolanguage::{Protolanguage, ProtolanguageView};
pub use translit::{display_phone, from_branner, from_sil};
pub use version::{Version, VersionView};
