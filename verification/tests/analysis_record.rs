use de_ai_hilfer::analysis_record::{fill_missing_tags, finish_analysis_document, new_entry_fields};
use de_ai_hilfer::documents::{AnalysisDocument, QualityMode};
use de_ai_hilfer::json::JsonValue;

fn doc(tags: Vec<&str>, aliases: Vec<&str>) -> AnalysisDocument {
    AnalysisDocument {
        markdown: "## gehen".to_string(),
        structured: None,
        tags: tags.into_iter().map(String::from).collect(),
        aliases: aliases.into_iter().map(String::from).collect(),
        prototype: None,
        attached_phrase_modules: Vec::new(),
        dictionary_excerpt: None,
        model: None,
        quality_mode: None,
    }
}

fn raw() -> JsonValue {
    JsonValue::Object(vec![("pos".to_string(), JsonValue::Str("verb".to_string()))])
}

#[test]
fn finished_document_records_prototype_model_and_alias() {
    let mut d = doc(vec!["A1"], vec![]);
    finish_analysis_document(&mut d, "gehen", &raw(), "gehen", "ging", Some("m".to_string()), QualityMode::Pro);
    assert_eq!(d.prototype.as_deref(), Some("gehen"));
    assert_eq!(d.model.as_deref(), Some("m"));
    assert_eq!(d.quality_mode, Some(QualityMode::Pro));
    assert!(d.dictionary_excerpt.is_some());
    assert_eq!(d.aliases, vec!["ging".to_string()]);
    assert_eq!(d.tags, vec!["A1".to_string()]);
    finish_analysis_document(&mut d, "gehen", &raw(), "gehen", "ging", None, QualityMode::Default);
    assert_eq!(d.aliases, vec!["ging".to_string()]);
}

#[test]
fn empty_tags_come_from_the_dictionary() {
    let mut d = doc(vec![], vec![]);
    fill_missing_tags(&mut d, &raw());
    assert!(!d.tags.is_empty());
    assert_eq!(d.markdown, "## gehen");
}

#[test]
fn entry_fields_default_type_and_drop_empty_lists() {
    let f = new_entry_fields("gehen", "gehen", None, &vec![], &vec!["ging".to_string()]);
    assert_eq!((f.query_text.as_str(), f.entry_type.as_str()), ("gehen", "WORD"));
    assert_eq!(f.prototype.as_deref(), Some("gehen"));
    assert!(f.tags.is_none());
    assert_eq!(f.aliases, Some(vec!["ging".to_string()]));
    assert_eq!(new_entry_fields("x", "x", Some("PHRASE"), &vec![], &vec![]).entry_type, "PHRASE");
}
