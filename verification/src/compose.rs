use vstd::prelude::*;
use crate::escape::escape_text;
use crate::escape::html_escape;
use crate::model::link_views;
use crate::model::tag_views;
use crate::model::project_views;
use crate::model::Project;
use crate::model::ProjectView;

verus! {

/// The inline style that places a project's image behind its thumbnail.
pub open spec fn style_of(image: Seq<char>) -> Seq<char> {
    "background-image: url('"@ + image + "')"@
}

/// One rendered tag label, preceded by the separating space.
pub open spec fn tag_html(t: Seq<char>) -> Seq<char> {
    " <span class=\"tag\">"@ + escape_text(t) + "</span>"@
}

/// The rendered tag labels, in declared order.
pub open spec fn tags_html(ts: Seq<Seq<char>>) -> Seq<char>
    decreases ts.len(),
{
    if ts.len() == 0 {
        Seq::empty()
    } else {
        tags_html(ts.drop_last()) + tag_html(ts.last())
    }
}

/// One rendered link: the entry's name as the text, its URL as the target.
pub open spec fn link_html(l: (Seq<char>, Seq<char>)) -> Seq<char> {
    " <a class=\"call\" href=\""@ + escape_text(l.1) + "\">"@ + escape_text(l.0) + "</a>"@
}

/// The rendered links, in the order the entries stand in the record.
pub open spec fn links_html(ls: Seq<(Seq<char>, Seq<char>)>) -> Seq<char>
    decreases ls.len(),
{
    if ls.len() == 0 {
        Seq::empty()
    } else {
        links_html(ls.drop_last()) + link_html(ls.last())
    }
}

/// The inline video element for a present video asset; nothing otherwise.
pub open spec fn video_html(v: Option<Seq<char>>) -> Seq<char> {
    match v {
        None => Seq::empty(),
        Some(l) => "<video class=\"thumbnail-video\" data-src=\""@ + escape_text(l)
            + "\" preload=\"none\" poster=\"./portfolio/black_square.png\" muted loop autoplay playsinline></video>"@,
    }
}

/// The thumbnail block of one project: title, tag labels, the pre-rendered
/// description, the about toggle, the links, the optional inline video, and
/// the decorative background element.
pub open spec fn thumbnail_of(p: ProjectView) -> Seq<char> {
    "<div class=\"thumbnail\" style=\""@ + escape_text(style_of(p.image_link))
        + "\"><div class=\"thumbnail-content\"><div class=\"thumbnail-row\"><span class=\"title\">"@
        + escape_text(p.front.title) + "</span>"@ + tags_html(p.front.tags)
        + "</div><div class=\"thumbnail-about\">"@ + p.about_html
        + "</div><div class=\"thumbnail-row\"><a class=\"call about\" href=\"#\">about</a>"@
        + links_html(p.front.links) + "</div></div>"@ + video_html(p.video_link)
        + "<div class=\"thumbnail-about-bg\"></div></div>"@
}

/// All thumbnail blocks, one per project, in sequence order.
pub open spec fn thumbnails_html(ps: Seq<ProjectView>) -> Seq<char>
    decreases ps.len(),
{
    if ps.len() == 0 {
        Seq::empty()
    } else {
        thumbnails_html(ps.drop_last()) + thumbnail_of(ps.last())
    }
}

/// The complete portfolio page: head, header region with the pre-rendered
/// header fragment, one thumbnail per project, and the trailing script.
pub open spec fn portfolio_html(header: Seq<char>, ps: Seq<ProjectView>) -> Seq<char> {
    "<html><head><meta charset=\"utf-8\"><title>Benjamin Wall -- Portfolio</title><link rel=\"stylesheet\" type=\"text/css\" href=\"portfolio.css\"></head><body><div class=\"header-container\"><div class=\"header\"><span class=\"title\">benjamin wall</span>"@
        + header + "</div></div><div class=\"thumbnail-container\">"@ + thumbnails_html(ps)
        + "</div></body><script src=\"./portfolio.js\"></script></html>"@
}

/// Render the tag labels of a project, in declared order.
fn tags_fragment(tags: &Vec<String>) -> (r: String)
    ensures
        r@ == tags_html(tag_views(tags@)),
{
    let ghost tv = tag_views(tags@);
    let mut out = String::new();
    let mut i: usize = 0;
    proof {
        assert(tv.subrange(0, 0) =~= Seq::<Seq<char>>::empty());
    }
    while i < tags.len()
        invariant
            i <= tags@.len(),
            tv == tag_views(tags@),
            out@ == tags_html(tv.subrange(0, i as int)),
        decreases tags@.len() - i,
    {
        out.append(" <span class=\"tag\">");
        let esc = html_escape(tags[i].as_str());
        out.append(esc.as_str());
        out.append("</span>");
        proof {
            assert(tv.subrange(0, i + 1).drop_last() =~= tv.subrange(0, i as int));
            assert(tv.subrange(0, i + 1).last() == tv[i as int]);
            assert(out@ =~= tags_html(tv.subrange(0, i + 1)));
        }
        i = i + 1;
    }
    proof {
        assert(tv.subrange(0, tags@.len() as int) =~= tv);
    }
    out
}

/// Render the links of a project, in the order the entries stand.
fn links_fragment(links: &Vec<(String, String)>) -> (r: String)
    ensures
        r@ == links_html(link_views(links@)),
{
    let ghost lv = link_views(links@);
    let mut out = String::new();
    let mut i: usize = 0;
    proof {
        assert(lv.subrange(0, 0) =~= Seq::<(Seq<char>, Seq<char>)>::empty());
    }
    while i < links.len()
        invariant
            i <= links@.len(),
            lv == link_views(links@),
            out@ == links_html(lv.subrange(0, i as int)),
        decreases links@.len() - i,
    {
        out.append(" <a class=\"call\" href=\"");
        let url = html_escape(links[i].1.as_str());
        out.append(url.as_str());
        out.append("\">");
        let name = html_escape(links[i].0.as_str());
        out.append(name.as_str());
        out.append("</a>");
        proof {
            assert(lv.subrange(0, i + 1).drop_last() =~= lv.subrange(0, i as int));
            assert(lv.subrange(0, i + 1).last() == lv[i as int]);
            assert(out@ =~= links_html(lv.subrange(0, i + 1)));
        }
        i = i + 1;
    }
    proof {
        assert(lv.subrange(0, links@.len() as int) =~= lv);
    }
    out
}

/// Render the thumbnail block of one project.
pub fn build_thumbnail(p: &Project) -> (r: String)
    ensures
        r@ == thumbnail_of(p@),
{
    let mut out = String::new();
    out.append("<div class=\"thumbnail\" style=\"");
    let mut style = "background-image: url('".to_owned();
    style.append(p.image_link.as_str());
    style.append("')");
    let esc_style = html_escape(style.as_str());
    out.append(esc_style.as_str());
    out.append("\"><div class=\"thumbnail-content\"><div class=\"thumbnail-row\"><span class=\"title\">");
    let esc_title = html_escape(p.front.title.as_str());
    out.append(esc_title.as_str());
    out.append("</span>");
    let tags = tags_fragment(&p.front.tags);
    out.append(tags.as_str());
    out.append("</div><div class=\"thumbnail-about\">");
    out.append(p.about_html.as_str());
    out.append("</div><div class=\"thumbnail-row\"><a class=\"call about\" href=\"#\">about</a>");
    let links = links_fragment(&p.front.links);
    out.append(links.as_str());
    out.append("</div></div>");
    match &p.video_link {
        Some(link) => {
            out.append("<video class=\"thumbnail-video\" data-src=\"");
            let esc_link = html_escape(link.as_str());
            out.append(esc_link.as_str());
            out.append(
                "\" preload=\"none\" poster=\"./portfolio/black_square.png\" muted loop autoplay playsinline></video>",
            );
        },
        None => {},
    }
    out.append("<div class=\"thumbnail-about-bg\"></div></div>");
    proof {
        assert(out@ =~= thumbnail_of(p@));
    }
    out
}

/// Render the complete portfolio page from the pre-rendered header fragment
/// and the ordered project records.
pub fn build_portfolio(header_html: &str, projects: &Vec<Project>) -> (r: String)
    ensures
        r@ == portfolio_html(header_html@, project_views(projects@)),
{
    let ghost pv = project_views(projects@);
    let mut out = String::new();
    out.append(
        "<html><head><meta charset=\"utf-8\"><title>Benjamin Wall -- Portfolio</title><link rel=\"stylesheet\" type=\"text/css\" href=\"portfolio.css\"></head><body><div class=\"header-container\"><div class=\"header\"><span class=\"title\">benjamin wall</span>",
    );
    out.append(header_html);
    out.append("</div></div><div class=\"thumbnail-container\">");
    let ghost mid = out@;
    let mut i: usize = 0;
    proof {
        assert(pv.subrange(0, 0) =~= Seq::<ProjectView>::empty());
        assert(out@ =~= mid + thumbnails_html(pv.subrange(0, 0)));
    }
    while i < projects.len()
        invariant
            i <= projects@.len(),
            pv == project_views(projects@),
            out@ == mid + thumbnails_html(pv.subrange(0, i as int)),
        decreases projects@.len() - i,
    {
        let t = build_thumbnail(&projects[i]);
        out.append(t.as_str());
        proof {
            assert(pv.subrange(0, i + 1).drop_last() =~= pv.subrange(0, i as int));
            assert(pv.subrange(0, i + 1).last() == pv[i as int]);
            assert(out@ =~= mid + thumbnails_html(pv.subrange(0, i + 1)));
        }
        i = i + 1;
    }
    proof {
        assert(pv.subrange(0, projects@.len() as int) =~= pv);
    }
    out.append("</div></body><script src=\"./portfolio.js\"></script></html>");
    proof {
        assert(out@ =~= portfolio_html(header_html@, pv));
    }
    out
}

} // verus!
