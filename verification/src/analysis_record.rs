//! What a generated analysis records before it is stored, and the fields of
//! the knowledge entry that stores it.

use vstd::prelude::*;
use crate::analyze_flow::add_query_alias;
use crate::dictionary::{build_tags, dictionary_pos, pos_of, tags_for};
use crate::documents::{AnalysisDocument, QualityMode};
use crate::json::JsonValue;
use crate::json_view::{build_dictionary_excerpt, dictionary_excerpt, jview};
use crate::model_a::copy_strings;
use crate::models::strs;
use crate::text::{owned, str_views};

verus! {

/// The tags of an analysis: kept when there are some, else those of the
/// dictionary entry.
pub open spec fn tags_after(tags: Seq<Seq<char>>, raw_data: JsonValue) -> Seq<Seq<char>> {
    if tags.len() == 0 {
        tags_for(raw_data, pos_of(raw_data))
    } else {
        tags
    }
}

/// The aliases of an analysis with the query added when it differs from
/// the prototype and is not an alias yet.
pub open spec fn aliases_after(aliases: Seq<Seq<char>>, prototype: Seq<char>, query: Seq<char>) -> Seq<
    Seq<char>,
> {
    if prototype != query && !aliases.contains(query) {
        aliases.push(query)
    } else {
        aliases
    }
}

/// An analysis without tags gets those of its dictionary entry; nothing
/// else changes.
pub fn fill_missing_tags(analysis: &mut AnalysisDocument, raw_data: &JsonValue)
    ensures
        str_views(final(analysis).tags@) == tags_after(str_views(old(analysis).tags@), *raw_data),
        final(analysis).markdown == old(analysis).markdown,
        final(analysis).structured == old(analysis).structured,
        final(analysis).aliases == old(analysis).aliases,
        final(analysis).prototype == old(analysis).prototype,
        final(analysis).attached_phrase_modules == old(analysis).attached_phrase_modules,
        final(analysis).dictionary_excerpt == old(analysis).dictionary_excerpt,
        final(analysis).model == old(analysis).model,
        final(analysis).quality_mode == old(analysis).quality_mode,
{
    if analysis.tags.len() == 0 {
        analysis.tags = build_tags(raw_data, dictionary_pos(raw_data));
    }
}

/// Fills in what a plain request's analysis records besides its text: the
/// grounding entry's headword as prototype, the model that wrote it, the
/// tier, the dictionary excerpt, the query as an alias when it differs from
/// the prototype, and the entry's tags when it has none.
pub fn finish_analysis_document(
    analysis: &mut AnalysisDocument,
    headword: &str,
    raw_data: &JsonValue,
    prototype: &str,
    query: &str,
    model: Option<String>,
    quality: QualityMode,
)
    ensures
        final(analysis).prototype matches Some(p) && p@ == headword@,
        final(analysis).model == model,
        final(analysis).quality_mode == Some(quality),
        final(analysis).dictionary_excerpt matches Some(x) && jview(x) == dictionary_excerpt(*raw_data),
        str_views(final(analysis).aliases@) == aliases_after(str_views(old(analysis).aliases@), prototype@, query@),
        str_views(final(analysis).tags@) == tags_after(str_views(old(analysis).tags@), *raw_data),
        final(analysis).markdown == old(analysis).markdown,
        final(analysis).structured == old(analysis).structured,
        final(analysis).attached_phrase_modules == old(analysis).attached_phrase_modules,
{
    analysis.prototype = Some(owned(headword));
    analysis.model = model;
    analysis.quality_mode = Some(quality);
    analysis.dictionary_excerpt = Some(build_dictionary_excerpt(raw_data));
    add_query_alias(&mut analysis.aliases, prototype, query);
    fill_missing_tags(analysis, raw_data);
}

/// The fields of the knowledge entry that stores an analysis.
#[derive(Debug)]
pub struct EntryFields {
    pub query_text: String,
    pub prototype: Option<String>,
    pub entry_type: String,
    pub tags: Option<Vec<String>>,
    pub aliases: Option<Vec<String>>,
}

/// The entry is stored under the prototype, points at the grounding
/// headword, has the requested type or else "WORD", and keeps tags and
/// aliases only when there are some.
pub fn new_entry_fields(
    prototype: &str,
    headword: &str,
    entry_type: Option<&str>,
    tags: &Vec<String>,
    aliases: &Vec<String>,
) -> (r: EntryFields)
    ensures
        r.query_text@ == prototype@,
        r.prototype matches Some(p) && p@ == headword@,
        r.entry_type@ == (match entry_type {
            Some(t) => t@,
            None => "WORD"@,
        }),
        r.tags is None <==> tags@.len() == 0,
        r.tags matches Some(t) ==> strs(t@) == strs(tags@),
        r.aliases is None <==> aliases@.len() == 0,
        r.aliases matches Some(a) ==> strs(a@) == strs(aliases@),
{
    EntryFields {
        query_text: owned(prototype),
        prototype: Some(owned(headword)),
        entry_type: match entry_type {
            Some(t) => owned(t),
            None => owned("WORD"),
        },
        tags: if tags.len() == 0 {
            None
        } else {
            Some(copy_strings(tags))
        },
        aliases: if aliases.len() == 0 {
            None
        } else {
            Some(copy_strings(aliases))
        },
    }
}

} // verus!
