//! The `meta` elements of a document as a table, and the Open Graph tags
//! among them.

use vstd::prelude::*;
use vstd::hash_map::StringHashMap;
use scraper::ElementRef;
use scraper::Html;
use crate::dom::attribute_of;
use crate::dom::element_attribute;
use crate::dom::elements_matching;
use crate::dom::elements_of;
use crate::report::option_view;
use crate::report::string_views;

verus! {

/// The table after one more `meta` element: its `content` is entered under
/// its `name`, then under its `property`, as far as it has them. A later
/// entry replaces an earlier one under the same key.
pub open spec fn with_meta_element(
    table: Map<Seq<char>, Seq<char>>,
    name: Option<Seq<char>>,
    property: Option<Seq<char>>,
    content: Option<Seq<char>>,
) -> Map<Seq<char>, Seq<char>> {
    match content {
        None => table,
        Some(value) => {
            let named = match name {
                Some(key) => table.insert(key, value),
                None => table,
            };
            match property {
                Some(key) => named.insert(key, value),
                None => named,
            }
        },
    }
}

/// The table of a list of `meta` elements, entered one after the other.
pub open spec fn meta_table(elements: Seq<ElementRef<'static>>) -> Map<Seq<char>, Seq<char>>
    decreases elements.len(),
{
    if elements.len() == 0 {
        Map::empty()
    } else {
        with_meta_element(
            meta_table(elements.drop_last()),
            attribute_of(elements.last(), "name"@),
            attribute_of(elements.last(), "property"@),
            attribute_of(elements.last(), "content"@),
        )
    }
}

/// The meta tags of a document: for each key that is the `name` or the
/// `property` of a `meta` element with a `content`, the `content` of the last
/// such element.
pub open spec fn meta_tags_of(doc: Html) -> Map<Seq<char>, Seq<char>> {
    meta_table(elements_matching(doc, "meta"@))
}

/// The values of a table of strings, as sequences of characters.
pub open spec fn table_view(table: Map<Seq<char>, String>) -> Map<Seq<char>, Seq<char>> {
    table.map_values(|value: String| value@)
}

/// `[key]` where `present`, else nothing.
pub open spec fn key_if(present: bool, key: Seq<char>) -> Seq<Seq<char>> {
    if present {
        seq![key]
    } else {
        Seq::empty()
    }
}

/// Those of the four basic Open Graph tags that are keys of `table`, in the
/// order title, description, image, address.
pub open spec fn open_graph_in(table: Map<Seq<char>, Seq<char>>) -> Seq<Seq<char>> {
    key_if(table.contains_key("og:title"@), "og:title"@) + key_if(
        table.contains_key("og:description"@),
        "og:description"@,
    ) + key_if(table.contains_key("og:image"@), "og:image"@) + key_if(
        table.contains_key("og:url"@),
        "og:url"@,
    )
}

/// Enters `value` under `key`, where there is a key.
fn enter(table: &mut StringHashMap<String>, key: Option<String>, value: &String)
    ensures
        table_view(final(table)@) == match option_view(key) {
            Some(k) => table_view(old(table)@).insert(k, value@),
            None => table_view(old(table)@),
        },
{
    match key {
        Some(k) => {
            let ghost before = table@;
            let ghost name = k@;
            table.insert(k, value.clone());
            assert(table_view(table@) =~= table_view(before).insert(name, value@));
        },
        None => {},
    }
}

/// Appends `key` where `table` has it.
fn push_if_present(table: &StringHashMap<String>, key: &str, found: &mut Vec<String>)
    ensures
        string_views(final(found)@) == string_views(old(found)@) + key_if(
            table_view(table@).contains_key(key@),
            key@,
        ),
{
    let ghost before = string_views(found@);
    if table.contains_key(key) {
        found.push(String::from_str(key));
        assert(string_views(found@) =~= before + seq![key@]);
    } else {
        assert(string_views(found@) =~= before + Seq::<Seq<char>>::empty());
    }
}

/// The reader of `meta` elements.
#[derive(Debug, Clone, Copy)]
pub struct MetaAnalyzer {}

impl MetaAnalyzer {
    /// The meta tags of the document, by name and by property.
    pub fn extract_all_meta_tags(document: &Html) -> (tags: StringHashMap<String>)
        ensures
            table_view(tags@) == meta_tags_of(*document),
    {
        let elements = elements_of(document, "meta");
        let mut tags: StringHashMap<String> = StringHashMap::new();
        assert(table_view(tags@) =~= Map::empty());
        let mut i: usize = 0;
        while i < elements.len()
            invariant
                i <= elements.len(),
                table_view(tags@) == meta_table(elements@.take(i as int)),
            decreases elements.len() - i,
        {
            proof {
                assert(elements@.take(i + 1).drop_last() == elements@.take(i as int));
                assert(elements@.take(i + 1).last() == elements@[i as int]);
            }
            let element = &elements[i];
            let name = element_attribute(element, "name");
            let property = element_attribute(element, "property");
            match element_attribute(element, "content") {
                Some(content) => {
                    enter(&mut tags, name, &content);
                    enter(&mut tags, property, &content);
                },
                None => {},
            }
            i = i + 1;
        }
        assert(elements@.take(elements.len() as int) == elements@);
        tags
    }

    /// Those of the four basic Open Graph tags that the document has, in the
    /// order title, description, image, address.
    pub fn check_open_graph(document: &Html) -> (found: Vec<String>)
        ensures
            string_views(found@) == open_graph_in(meta_tags_of(*document)),
    {
        let tags = Self::extract_all_meta_tags(document);
        let mut found: Vec<String> = Vec::new();
        assert(string_views(found@) =~= Seq::empty());
        push_if_present(&tags, "og:title", &mut found);
        push_if_present(&tags, "og:description", &mut found);
        push_if_present(&tags, "og:image", &mut found);
        push_if_present(&tags, "og:url", &mut found);
        assert(string_views(found@) =~= open_graph_in(meta_tags_of(*document)));
        found
    }
}

} // verus!
