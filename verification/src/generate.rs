use vstd::prelude::*;
use crate::compose::build_portfolio;
use crate::compose::portfolio_html;
use crate::loader::all_loadable;
use crate::loader::distinct_ids;
use crate::loader::doc_views;
use crate::loader::load_projects;
use crate::loader::loaded_projects;
use crate::loader::selected_docs;
use crate::loader::SourceDoc;
use crate::markdown::html_of;
use crate::markdown::render_markdown;
use crate::model::project_views;
use crate::model::GenError;
use crate::model::ProjectView;
use crate::publish::plan_of;
use crate::publish::publish_plan;
use crate::publish::step_views;
use crate::publish::PublishStep;

verus! {

/// Whether a page text and a publish plan are a correct generation from a
/// header markdown text and the discovered documents.
pub open spec fn generated(
    header_md: Seq<char>,
    docs: Seq<crate::loader::SourceDocView>,
    page: Seq<char>,
    plan: Seq<crate::publish::StepView>,
) -> bool {
    exists|ps: Seq<ProjectView>|
        {
            &&& #[trigger] loaded_projects(ps, selected_docs(docs))
            &&& page == portfolio_html(html_of(header_md), ps)
            &&& plan == plan_of(ps)
        }
}

/// The whole computation of one generation run: load every project
/// document, render the header, compose the page, and lay out the publish
/// plan. The caller performs the plan's steps in order and writes the page
/// text where the plan says; it decides nothing else.
pub fn generate(header_md: &str, docs: &Vec<SourceDoc>) -> (r: Result<
    (String, Vec<PublishStep>),
    GenError,
>)
    ensures
        r is Ok <==> all_loadable(selected_docs(doc_views(docs@))) && distinct_ids(
            selected_docs(doc_views(docs@)),
        ),
        match r {
            Ok(pair) => generated(header_md@, doc_views(docs@), pair.0@, step_views(pair.1@)),
            Err(e) => {
                ||| (e is MalformedMetadata && !all_loadable(selected_docs(doc_views(docs@))))
                ||| (e is DuplicateProjectId && !distinct_ids(selected_docs(doc_views(docs@))))
            },
        },
{
    let projects = match load_projects(docs) {
        Ok(v) => v,
        Err(e) => {
            return Err(e);
        },
    };
    let header_html = render_markdown(header_md);
    let page = build_portfolio(header_html.as_str(), &projects);
    let plan = publish_plan(&projects);
    proof {
        let ps = project_views(projects@);
        assert(loaded_projects(ps, selected_docs(doc_views(docs@))));
        assert(page@ == portfolio_html(html_of(header_md@), ps));
        assert(step_views(plan@) == plan_of(ps));
    }
    Ok((page, plan))
}

} // verus!
