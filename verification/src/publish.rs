use vstd::prelude::*;
use crate::model::project_views;
use crate::model::Project;
use crate::model::ProjectView;

verus! {

/// One filesystem effect of publishing. The caller performs the steps in
/// plan order and aborts the run on the first failure; there is no rollback.
#[derive(Debug)]
pub enum PublishStep {
    /// Create this directory, and any missing parents, if absent.
    MakeDir(String),
    /// Write the composed page to this path.
    WriteHtml(String),
    /// Copy the file at the first path to the second path.
    CopyFile(String, String),
}

/// Spec-level image of a publish step.
#[verifier::ext_equal]
pub enum StepView {
    MakeDir(Seq<char>),
    WriteHtml(Seq<char>),
    CopyFile(Seq<char>, Seq<char>),
}

impl View for PublishStep {
    type V = StepView;

    open spec fn view(&self) -> StepView {
        match self {
            PublishStep::MakeDir(p) => StepView::MakeDir(p@),
            PublishStep::WriteHtml(p) => StepView::WriteHtml(p@),
            PublishStep::CopyFile(s, d) => StepView::CopyFile(s@, d@),
        }
    }
}

/// The views of a sequence of publish steps.
pub open spec fn step_views(s: Seq<PublishStep>) -> Seq<StepView> {
    s.map_values(|x: PublishStep| x@)
}

/// The destination of a copied asset under the output root, preserving its
/// relative path.
pub open spec fn dest_of(p: Seq<char>) -> Seq<char> {
    "./dist/"@ + p
}

/// The copy steps of one project: its image always (publishing fails there
/// if the image is absent on disk), its video exactly when present.
pub open spec fn project_copies(p: ProjectView) -> Seq<StepView> {
    seq![StepView::CopyFile(p.image_link, dest_of(p.image_link))] + match p.video_link {
        Some(l) => seq![StepView::CopyFile(l, dest_of(l))],
        None => Seq::empty(),
    }
}

/// The per-project copy steps, in project order.
pub open spec fn copies_of(ps: Seq<ProjectView>) -> Seq<StepView>
    decreases ps.len(),
{
    if ps.len() == 0 {
        Seq::empty()
    } else {
        copies_of(ps.drop_last()) + project_copies(ps.last())
    }
}

/// The fixed steps that precede every per-project copy: the output
/// directories, the page itself, and the two static assets.
pub open spec fn plan_prefix() -> Seq<StepView> {
    seq![
        StepView::MakeDir("./dist"@),
        StepView::MakeDir("./dist/portfolio"@),
        StepView::WriteHtml("./dist/index.html"@),
        StepView::CopyFile("./portfolio.css"@, "./dist/portfolio.css"@),
        StepView::CopyFile("./portfolio.js"@, "./dist/portfolio.js"@),
    ]
}

/// The complete publish plan for a sequence of projects.
pub open spec fn plan_of(ps: Seq<ProjectView>) -> Seq<StepView> {
    plan_prefix() + copies_of(ps)
}

/// Compute the destination path of a copied asset.
fn dest_path(p: &str) -> (r: String)
    ensures
        r@ == dest_of(p@),
{
    let mut d = "./dist/".to_owned();
    d.append(p);
    d
}

/// Build the ordered publish plan for the given projects.
pub fn publish_plan(projects: &Vec<Project>) -> (r: Vec<PublishStep>)
    ensures
        step_views(r@) == plan_of(project_views(projects@)),
{
    let ghost pv = project_views(projects@);
    let mut out: Vec<PublishStep> = Vec::new();
    out.push(PublishStep::MakeDir("./dist".to_owned()));
    out.push(PublishStep::MakeDir("./dist/portfolio".to_owned()));
    out.push(PublishStep::WriteHtml("./dist/index.html".to_owned()));
    out.push(PublishStep::CopyFile("./portfolio.css".to_owned(), "./dist/portfolio.css".to_owned()));
    out.push(PublishStep::CopyFile("./portfolio.js".to_owned(), "./dist/portfolio.js".to_owned()));
    proof {
        assert(copies_of(pv.subrange(0, 0)) =~= Seq::<StepView>::empty());
        assert(step_views(out@) =~~= plan_prefix() + copies_of(pv.subrange(0, 0)));
    }
    let mut i: usize = 0;
    while i < projects.len()
        invariant
            i <= projects@.len(),
            pv == project_views(projects@),
            step_views(out@) == plan_prefix() + copies_of(pv.subrange(0, i as int)),
        decreases projects@.len() - i,
    {
        let ghost prev = out@;
        let image = projects[i].image_link.clone();
        let image_dest = dest_path(image.as_str());
        out.push(PublishStep::CopyFile(image, image_dest));
        proof {
            assert(pv[i as int] == projects@[i as int]@);
            assert(step_views(out@) =~~= step_views(prev).push(
                StepView::CopyFile(pv[i as int].image_link, dest_of(pv[i as int].image_link)),
            ));
            assert(pv.subrange(0, i + 1).drop_last() =~= pv.subrange(0, i as int));
            assert(pv.subrange(0, i + 1).last() == pv[i as int]);
        }
        match &projects[i].video_link {
            Some(l) => {
                let video = l.clone();
                let video_dest = dest_path(video.as_str());
                out.push(PublishStep::CopyFile(video, video_dest));
                proof {
                    assert(step_views(out@) =~~= step_views(prev).push(
                        StepView::CopyFile(
                            pv[i as int].image_link,
                            dest_of(pv[i as int].image_link),
                        ),
                    ).push(StepView::CopyFile(l@, dest_of(l@))));
                    assert(pv[i as int].video_link == Some(l@));
                    assert(project_copies(pv[i as int]) =~= seq![
                        StepView::CopyFile(pv[i as int].image_link, dest_of(pv[i as int].image_link)),
                        StepView::CopyFile(l@, dest_of(l@)),
                    ]);
                    assert(step_views(out@) =~~= plan_prefix() + copies_of(pv.subrange(0, i + 1)));
                }
            },
            None => {
                proof {
                    assert(pv[i as int].video_link is None);
                    assert(project_copies(pv[i as int]) =~= seq![
                        StepView::CopyFile(pv[i as int].image_link, dest_of(pv[i as int].image_link)),
                    ]);
                    assert(step_views(out@) =~~= plan_prefix() + copies_of(pv.subrange(0, i + 1)));
                }
            },
        }
        i = i + 1;
    }
    proof {
        assert(pv.subrange(0, projects@.len() as int) =~= pv);
    }
    out
}

/// Every per-project step is a copy; the plan holds exactly one page write.
pub proof fn lemma_copies_are_copies(ps: Seq<ProjectView>)
    ensures
        forall|k: int| 0 <= k < copies_of(ps).len() ==> copies_of(ps)[k] is CopyFile,
    decreases ps.len(),
{
    if ps.len() > 0 {
        lemma_copies_are_copies(ps.drop_last());
    }
}

/// The page is written before any file copy: the plan writes the page at
/// one fixed position, and every copy step stands strictly after it.
pub proof fn lemma_html_written_before_copies(ps: Seq<ProjectView>)
    ensures
        plan_of(ps)[2] == StepView::WriteHtml("./dist/index.html"@),
        forall|i: int|
            0 <= i < plan_of(ps).len() && plan_of(ps)[i] is CopyFile ==> i > 2,
        forall|i: int| 0 <= i < plan_of(ps).len() && plan_of(ps)[i] is WriteHtml ==> i == 2,
{
    lemma_copies_are_copies(ps);
}

} // verus!
