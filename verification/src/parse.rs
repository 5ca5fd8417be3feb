use vstd::prelude::*;
use vstd::relations::sorted_by;
use crate::model::link_views;
use crate::model::tag_views;
use crate::model::FrontMatter;
use crate::model::FrontMatterView;
use crate::model::GenError;
use crate::order::link_order;
use crate::order::lemma_link_order_total;
use crate::order::sort_links;

verus! {

/// The markdown content that remains after the leading metadata block of a
/// document, or `None` when the document does not parse or holds no
/// metadata block.
pub uninterp spec fn matter_body_of(s: Seq<char>) -> Option<Seq<char>>;

/// The `title` field of a document's metadata block, or `None` when the
/// block is missing, malformed, or the field is absent or not a string.
pub uninterp spec fn matter_title_of(s: Seq<char>) -> Option<Seq<char>>;

/// The `tags` field of a document's metadata block, in declared order, or
/// `None` when the block is missing, malformed, or the field is absent or
/// not an array of strings.
pub uninterp spec fn matter_tags_of(s: Seq<char>) -> Option<Seq<Seq<char>>>;

/// The `links` field of a document's metadata block as a mapping from
/// display name to URL, or `None` when the block is missing, malformed, or
/// the field is absent or not a table of strings.
pub uninterp spec fn matter_links_of(s: Seq<char>) -> Option<Map<Seq<char>, Seq<char>>>;

/// Whether the metadata block of a document parses and carries every
/// required field with the required type.
pub open spec fn matter_ok(s: Seq<char>) -> bool {
    &&& matter_body_of(s) is Some
    &&& matter_title_of(s) is Some
    &&& matter_tags_of(s) is Some
    &&& matter_links_of(s) is Some
}

/// Whether a sequence of link entries carries exactly the pairs of a link
/// mapping, each key once.
pub open spec fn entries_match(es: Seq<(Seq<char>, Seq<char>)>, m: Map<Seq<char>, Seq<char>>) -> bool {
    &&& forall|i: int| 0 <= i < es.len() ==> m.contains_pair((#[trigger] es[i]).0, es[i].1)
    &&& forall|k: Seq<char>|
        m.dom().contains(k) ==> exists|i: int| 0 <= i < es.len() && (#[trigger] es[i]).0 == k
    &&& forall|i: int, j: int| 0 <= i < j < es.len() ==> (#[trigger] es[i]).0 != (#[trigger] es[j]).0
}

/// Relies on gray_matter's TOML front-matter parsing: the content that
/// follows the metadata block of the document.
#[verifier::external_body]
fn matter_body(input: &str) -> (r: Option<String>)
    ensures
        match r {
            Some(b) => matter_body_of(input@) == Some(b@),
            None => matter_body_of(input@) is None,
        },
{
    let matter = gray_matter::Matter::<gray_matter::engine::TOML>::new();
    match matter.parse::<gray_matter::Pod>(input) {
        Ok(e) if e.data.is_some() => Some(e.content),
        _ => None,
    }
}

/// Relies on gray_matter's TOML front-matter parsing: the `title` string of
/// the metadata block.
#[verifier::external_body]
fn matter_title(input: &str) -> (r: Option<String>)
    ensures
        match r {
            Some(t) => matter_title_of(input@) == Some(t@),
            None => matter_title_of(input@) is None,
        },
{
    let matter = gray_matter::Matter::<gray_matter::engine::TOML>::new();
    let entity = matter.parse::<gray_matter::Pod>(input).ok()?;
    let hash = entity.data?.as_hashmap().ok()?;
    hash.get("title")?.as_string().ok()
}

/// Relies on gray_matter's TOML front-matter parsing: the `tags` array of
/// the metadata block, in declared order.
#[verifier::external_body]
fn matter_tags(input: &str) -> (r: Option<Vec<String>>)
    ensures
        match r {
            Some(ref ts) => matter_tags_of(input@) == Some(tag_views(ts@)),
            None => matter_tags_of(input@) is None,
        },
{
    let matter = gray_matter::Matter::<gray_matter::engine::TOML>::new();
    let entity = matter.parse::<gray_matter::Pod>(input).ok()?;
    let hash = entity.data?.as_hashmap().ok()?;
    let arr = hash.get("tags")?.as_vec().ok()?;
    arr.iter().map(|p| p.as_string().ok()).collect::<Option<Vec<String>>>()
}

/// Relies on gray_matter's TOML front-matter parsing: the `links` table of
/// the metadata block. The table maps each display name to one URL; the
/// order in which the entries come out of the table is not part of the
/// contract, only which pairs are present.
#[verifier::external_body]
fn matter_links(input: &str) -> (r: Option<Vec<(String, String)>>)
    ensures
        match r {
            Some(ref ls) => matter_links_of(input@) matches Some(m) && entries_match(
                link_views(ls@),
                m,
            ),
            None => matter_links_of(input@) is None,
        },
{
    let matter = gray_matter::Matter::<gray_matter::engine::TOML>::new();
    let entity = matter.parse::<gray_matter::Pod>(input).ok()?;
    let hash = entity.data?.as_hashmap().ok()?;
    let table = hash.get("links")?.as_hashmap().ok()?;
    table.into_iter().map(|(k, v)| v.as_string().ok().map(|u| (k, u))).collect()
}

/// Matching a link mapping is preserved under rearrangement: two sequences
/// with equal multisets match the same mappings.
pub proof fn lemma_entries_match_preserved(
    es1: Seq<(Seq<char>, Seq<char>)>,
    es2: Seq<(Seq<char>, Seq<char>)>,
    m: Map<Seq<char>, Seq<char>>,
)
    requires
        entries_match(es1, m),
        es1.to_multiset() == es2.to_multiset(),
    ensures
        entries_match(es2, m),
{
    broadcast use vstd::multiset::group_multiset_axioms;

    es1.to_multiset_ensures();
    es2.to_multiset_ensures();
    assert forall|i: int| 0 <= i < es2.len() implies m.contains_pair(
        (#[trigger] es2[i]).0,
        es2[i].1,
    ) by {
        assert(es2.contains(es2[i]));
        assert(es2.to_multiset().count(es2[i]) > 0);
        assert(es1.to_multiset().count(es2[i]) > 0);
        assert(es1.contains(es2[i]));
        let a = choose|a: int| 0 <= a < es1.len() && es1[a] == es2[i];
        assert(m.contains_pair(es1[a].0, es1[a].1));
    }
    assert forall|k: Seq<char>| m.dom().contains(k) implies exists|i: int|
        0 <= i < es2.len() && (#[trigger] es2[i]).0 == k by {
        let a = choose|a: int| 0 <= a < es1.len() && (#[trigger] es1[a]).0 == k;
        assert(es1.contains(es1[a]));
        assert(es1.to_multiset().count(es1[a]) > 0);
        assert(es2.to_multiset().count(es1[a]) > 0);
        assert(es2.contains(es1[a]));
        let b = choose|b: int| 0 <= b < es2.len() && es2[b] == es1[a];
        assert(es2[b].0 == k);
    }
    assert(es1.no_duplicates()) by {
        assert forall|i: int, j: int|
            0 <= i < es1.len() && 0 <= j < es1.len() && i != j implies es1[i] != es1[j] by {
            if i < j {
                assert(es1[i].0 != es1[j].0);
            } else {
                assert(es1[j].0 != es1[i].0);
            }
        }
    }
    es1.lemma_multiset_has_no_duplicates();
    es2.lemma_multiset_has_no_duplicates_conv();
    assert forall|i: int, j: int| 0 <= i < j < es2.len() implies (#[trigger] es2[i]).0 != (
    #[trigger] es2[j]).0 by {
        if es2[i].0 == es2[j].0 {
            assert(es2[i] != es2[j]);
            assert(es2.contains(es2[i]));
            assert(es2.contains(es2[j]));
            assert(es2.to_multiset().count(es2[i]) > 0);
            assert(es2.to_multiset().count(es2[j]) > 0);
            assert(es1.to_multiset().count(es2[i]) > 0);
            assert(es1.to_multiset().count(es2[j]) > 0);
            assert(es1.contains(es2[i]));
            assert(es1.contains(es2[j]));
            let a = choose|a: int| 0 <= a < es1.len() && es1[a] == es2[i];
            let b = choose|b: int| 0 <= b < es1.len() && es1[b] == es2[j];
            assert(a != b);
            assert(es1[a].0 != es1[b].0);
        }
    }
}

/// Whether a record and body are a correct parse of a document text: every
/// metadata field as declared, the links in canonical key-sorted order.
pub open spec fn parsed_document(text: Seq<char>, fm: FrontMatterView, body: Seq<char>) -> bool {
    &&& matter_title_of(text) == Some(fm.title)
    &&& matter_tags_of(text) == Some(fm.tags)
    &&& matter_body_of(text) == Some(body)
    &&& matter_links_of(text) matches Some(m) && entries_match(fm.links, m)
    &&& sorted_by(fm.links, link_order())
}

/// Split a source document into its typed metadata record and its markdown
/// body. Succeeds exactly when the metadata block parses and carries every
/// required field; the record's links are brought into the canonical
/// key-sorted order. Any failure is a fatal `MalformedMetadata`.
pub fn parse_document(text: &str) -> (r: Result<(FrontMatter, String), GenError>)
    ensures
        r is Ok <==> matter_ok(text@),
        match r {
            Ok(p) => parsed_document(text@, p.0@, p.1@),
            Err(e) => e is MalformedMetadata,
        },
{
    let body = match matter_body(text) {
        Some(b) => b,
        None => {
            return Err(GenError::MalformedMetadata("invalid metadata block".to_owned()));
        },
    };
    let title = match matter_title(text) {
        Some(t) => t,
        None => {
            return Err(GenError::MalformedMetadata("missing or invalid title".to_owned()));
        },
    };
    let tags = match matter_tags(text) {
        Some(t) => t,
        None => {
            return Err(GenError::MalformedMetadata("missing or invalid tags".to_owned()));
        },
    };
    let links_raw = match matter_links(text) {
        Some(l) => l,
        None => {
            return Err(GenError::MalformedMetadata("missing or invalid links".to_owned()));
        },
    };
    let links = sort_links(links_raw);
    proof {
        lemma_link_order_total();
        let m = matter_links_of(text@)->Some_0;
        lemma_entries_match_preserved(link_views(links_raw@), link_views(links@), m);
    }
    let front = FrontMatter { title, tags, links };
    Ok((front, body))
}

} // verus!
