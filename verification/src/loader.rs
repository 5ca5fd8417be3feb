use vstd::prelude::*;
use crate::markdown::html_of;
use crate::markdown::render_markdown;
use crate::model::project_views;
use crate::model::GenError;
use crate::model::Project;
use crate::model::ProjectView;
use crate::order::str_eq;
use crate::parse::matter_body_of;
use crate::parse::parsed_document;
use crate::parse::matter_ok;
use crate::parse::parse_document;
use crate::paths::doc_id;
use crate::paths::image_path_of;
use crate::paths::is_project_file;
use crate::paths::is_project_file_name;
use crate::paths::project_id;
use crate::paths::resolve_assets;
use crate::paths::video_path_of;

verus! {

/// One discovered source document, as the surrounding driver hands it in:
/// its file name, its full text, and whether the conventional video asset
/// for its derived identifier is present on disk at load time.
pub struct SourceDoc {
    pub file_name: String,
    pub text: String,
    pub video_exists: bool,
}

/// Spec-level image of a source document.
#[verifier::ext_equal]
pub struct SourceDocView {
    pub file_name: Seq<char>,
    pub text: Seq<char>,
    pub video_exists: bool,
}

impl View for SourceDoc {
    type V = SourceDocView;

    open spec fn view(&self) -> SourceDocView {
        SourceDocView {
            file_name: self.file_name@,
            text: self.text@,
            video_exists: self.video_exists,
        }
    }
}

/// The views of a sequence of source documents.
pub open spec fn doc_views(s: Seq<SourceDoc>) -> Seq<SourceDocView> {
    s.map_values(|d: SourceDoc| d@)
}

/// The project documents among the discovered ones, in discovery order:
/// those whose file name marks them as a project.
pub open spec fn selected_docs(ds: Seq<SourceDocView>) -> Seq<SourceDocView>
    decreases ds.len(),
{
    if ds.len() == 0 {
        Seq::empty()
    } else {
        selected_docs(ds.drop_last()) + if is_project_file_name(ds.last().file_name) {
            seq![ds.last()]
        } else {
            Seq::empty()
        }
    }
}

/// Whether a project document can be loaded: its stem holds a separator to
/// derive the identifier from, and its metadata block parses with every
/// required field.
pub open spec fn doc_loadable(d: SourceDocView) -> bool {
    doc_id(d.file_name) is Some && matter_ok(d.text)
}

/// Whether a project record is a correct load of a project document.
pub open spec fn loaded_project(p: ProjectView, d: SourceDocView) -> bool {
    &&& doc_loadable(d)
    &&& matter_body_of(d.text) matches Some(b) && parsed_document(d.text, p.front, b)
        && p.about_html == html_of(b)
    &&& p.image_link == image_path_of(doc_id(d.file_name)->Some_0)
    &&& p.video_link == if d.video_exists {
        Some(video_path_of(doc_id(d.file_name)->Some_0))
    } else {
        None::<Seq<char>>
    }
}

/// Whether a sequence of records is a correct load of a sequence of
/// project documents, in order.
pub open spec fn loaded_projects(ps: Seq<ProjectView>, ds: Seq<SourceDocView>) -> bool {
    ps.len() == ds.len() && forall|i: int|
        0 <= i < ps.len() ==> loaded_project(#[trigger] ps[i], ds[i])
}

/// Whether every project document of a sequence can be loaded.
pub open spec fn all_loadable(ds: Seq<SourceDocView>) -> bool {
    forall|i: int| 0 <= i < ds.len() ==> doc_loadable(#[trigger] ds[i])
}

/// Whether no two project documents derive the same identifier.
pub open spec fn distinct_ids(ds: Seq<SourceDocView>) -> bool {
    forall|i: int, j: int|
        0 <= i < j < ds.len() ==> !(doc_id((#[trigger] ds[i]).file_name) is Some && doc_id(
            ds[i].file_name,
        ) == doc_id((#[trigger] ds[j]).file_name))
}

/// Load one project document: derive its identifier, parse its metadata
/// and body, render the body, and resolve its asset paths.
pub fn load_project(doc: &SourceDoc) -> (r: Result<Project, GenError>)
    requires
        is_project_file_name(doc@.file_name),
    ensures
        r is Ok <==> doc_loadable(doc@),
        match r {
            Ok(p) => loaded_project(p@, doc@),
            Err(e) => e is MalformedMetadata,
        },
{
    let id = match project_id(doc.file_name.as_str()) {
        Some(id) => id,
        None => {
            return Err(
                GenError::MalformedMetadata("file name holds no separator".to_owned()),
            );
        },
    };
    let parsed = match parse_document(doc.text.as_str()) {
        Ok(p) => p,
        Err(e) => {
            return Err(e);
        },
    };
    let (front, body) = parsed;
    let about_html = render_markdown(body.as_str());
    let (image_link, video_link) = resolve_assets(id.as_str(), doc.video_exists);
    Ok(Project { front, image_link, video_link, about_html })
}

/// The selection of a prefix of the documents is a prefix of the selection
/// of all of them.
proof fn lemma_selected_prefix(ds: Seq<SourceDocView>, i: int)
    requires
        0 <= i <= ds.len(),
    ensures
        selected_docs(ds.subrange(0, i)).is_prefix_of(selected_docs(ds)),
    decreases ds.len() - i,
{
    if i == ds.len() {
        assert(ds.subrange(0, i) =~= ds);
    } else {
        assert(ds.subrange(0, i + 1).drop_last() =~= ds.subrange(0, i));
        assert(ds.subrange(0, i + 1).last() == ds[i]);
        lemma_selected_prefix(ds, i + 1);
    }
}

/// Decide whether a derived identifier was already seen.
fn contains_id(ids: &Vec<String>, id: &str) -> (r: bool)
    ensures
        r == (exists|k: int| 0 <= k < ids@.len() && (#[trigger] ids@[k])@ == id@),
{
    let mut j: usize = 0;
    while j < ids.len()
        invariant
            j <= ids@.len(),
            forall|k: int| 0 <= k < j ==> (#[trigger] ids@[k])@ != id@,
        decreases ids@.len() - j,
    {
        if str_eq(ids[j].as_str(), id) {
            proof {
                assert(ids@[j as int]@ == id@);
            }
            return true;
        }
        j = j + 1;
    }
    false
}

/// Discover the project documents among the given ones, in order, and load
/// each. Succeeds exactly when every project document loads and no two
/// derive the same identifier; any malformed document or duplicate
/// identifier aborts the whole run.
pub fn load_projects(docs: &Vec<SourceDoc>) -> (r: Result<Vec<Project>, GenError>)
    ensures
        r is Ok <==> all_loadable(selected_docs(doc_views(docs@))) && distinct_ids(
            selected_docs(doc_views(docs@)),
        ),
        match r {
            Ok(v) => loaded_projects(project_views(v@), selected_docs(doc_views(docs@))),
            Err(e) => {
                ||| (e is MalformedMetadata && !all_loadable(selected_docs(doc_views(docs@))))
                ||| (e is DuplicateProjectId && !distinct_ids(selected_docs(doc_views(docs@))))
            },
        },
{
    let ghost dv = doc_views(docs@);
    let mut out: Vec<Project> = Vec::new();
    let mut ids: Vec<String> = Vec::new();
    let mut i: usize = 0;
    proof {
        assert(selected_docs(dv.subrange(0, 0)) =~= Seq::<SourceDocView>::empty());
    }
    while i < docs.len()
        invariant
            i <= docs@.len(),
            dv == doc_views(docs@),
            loaded_projects(project_views(out@), selected_docs(dv.subrange(0, i as int))),
            ids@.len() == out@.len(),
            forall|k: int|
                0 <= k < ids@.len() ==> Some((#[trigger] ids@[k])@) == doc_id(
                    selected_docs(dv.subrange(0, i as int))[k].file_name,
                ),
            forall|k: int, l: int| 0 <= k < l < ids@.len() ==> (#[trigger] ids@[k])@ != (
            #[trigger] ids@[l])@,
        decreases docs@.len() - i,
    {
        let ghost sel_pre = selected_docs(dv.subrange(0, i as int));
        proof {
            assert(dv.subrange(0, i + 1).drop_last() =~= dv.subrange(0, i as int));
            assert(dv.subrange(0, i + 1).last() == dv[i as int]);
        }
        if is_project_file(docs[i].file_name.as_str()) {
            let ghost sel_post = selected_docs(dv.subrange(0, i + 1));
            proof {
                assert(sel_post =~= sel_pre + seq![dv[i as int]]);
                lemma_selected_prefix(dv, i + 1);
            }
            let id = match project_id(docs[i].file_name.as_str()) {
                Some(id) => id,
                None => {
                    proof {
                        assert(!doc_loadable(sel_post.last()));
                        assert(!all_loadable(selected_docs(dv)));
                    }
                    return Err(
                        GenError::MalformedMetadata("file name holds no separator".to_owned()),
                    );
                },
            };
            if contains_id(&ids, id.as_str()) {
                proof {
                    let full = selected_docs(dv);
                    let k = choose|k: int| 0 <= k < ids@.len() && (#[trigger] ids@[k])@ == id@;
                    assert(Some(ids@[k]@) == doc_id(sel_pre[k].file_name));
                    assert(sel_post =~= full.subrange(0, sel_post.len() as int));
                    assert(full[k] == sel_post[k]);
                    assert(sel_post[k] == sel_pre[k]);
                    assert(full[sel_post.len() - 1] == sel_post[sel_post.len() - 1]);
                    assert(sel_post[sel_post.len() - 1] == dv[i as int]);
                    assert(doc_id(full[k].file_name) == Some(id@));
                    assert(doc_id(full[sel_post.len() - 1].file_name) == Some(id@));
                    assert(!distinct_ids(full));
                }
                return Err(GenError::DuplicateProjectId(id));
            }
            let p = match load_project(&docs[i]) {
                Ok(p) => p,
                Err(e) => {
                    proof {
                        assert(!doc_loadable(sel_post.last()));
                        assert(!all_loadable(selected_docs(dv)));
                    }
                    return Err(e);
                },
            };
            let ghost prev_out = out@;
            out.push(p);
            ids.push(id);
            proof {
                assert(project_views(out@) =~= project_views(prev_out).push(p@));
                assert forall|t: int| 0 <= t < project_views(out@).len() implies loaded_project(
                    #[trigger] project_views(out@)[t],
                    sel_post[t],
                ) by {
                    if t < project_views(prev_out).len() {
                        assert(project_views(out@)[t] == project_views(prev_out)[t]);
                        assert(sel_post[t] == sel_pre[t]);
                    } else {
                        assert(project_views(out@)[t] == p@);
                        assert(sel_post[t] == dv[i as int]);
                    }
                }
                assert(loaded_projects(project_views(out@), sel_post));
            }
        } else {
            proof {
                assert(selected_docs(dv.subrange(0, i + 1)) =~= sel_pre);
            }
        }
        i = i + 1;
    }
    proof {
        assert(dv.subrange(0, docs@.len() as int) =~= dv);
        let sel = selected_docs(dv);
        assert forall|a: int, b: int| 0 <= a < b < sel.len() implies !(doc_id(
            (#[trigger] sel[a]).file_name,
        ) is Some && doc_id(sel[a].file_name) == doc_id((#[trigger] sel[b]).file_name)) by {
            assert(Some(ids@[a]@) == doc_id(sel[a].file_name));
            assert(Some(ids@[b]@) == doc_id(sel[b].file_name));
        }
        assert forall|a: int| 0 <= a < sel.len() implies doc_loadable(#[trigger] sel[a]) by {
            assert(loaded_project(project_views(out@)[a], sel[a]));
        }
    }
    Ok(out)
}

} // verus!
