use vstd::prelude::*;
use vstd::relations::sorted_by;
use vstd::seq_lib::lemma_sorted_unique;
use crate::compose::portfolio_html;
use crate::generate::generated;
use crate::loader::loaded_project;
use crate::loader::loaded_projects;
use crate::loader::selected_docs;
use crate::loader::SourceDocView;
use crate::markdown::html_of;
use crate::model::FrontMatterView;
use crate::model::ProjectView;
use crate::order::lemma_link_order_total;
use crate::order::link_order;
use crate::parse::entries_match;
use crate::parse::matter_body_of;
use crate::parse::matter_links_of;
use crate::parse::parsed_document;
use crate::publish::plan_of;
use crate::publish::StepView;

verus! {

/// Two sequences of link entries that carry the same link mapping have the
/// same entries, as multisets.
proof fn lemma_match_same_multiset(
    es1: Seq<(Seq<char>, Seq<char>)>,
    es2: Seq<(Seq<char>, Seq<char>)>,
    m: Map<Seq<char>, Seq<char>>,
)
    requires
        entries_match(es1, m),
        entries_match(es2, m),
    ensures
        es1.to_multiset() == es2.to_multiset(),
{
    broadcast use vstd::multiset::group_multiset_axioms;

    es1.to_multiset_ensures();
    es2.to_multiset_ensures();
    assert(es1.no_duplicates()) by {
        assert forall|i: int, j: int|
            0 <= i < es1.len() && 0 <= j < es1.len() && i != j implies es1[i] != es1[j] by {
            if i < j {
                assert(es1[i].0 != es1[j].0);
            } else {
                assert(es1[j].0 != es1[i].0);
            }
        }
    }
    assert(es2.no_duplicates()) by {
        assert forall|i: int, j: int|
            0 <= i < es2.len() && 0 <= j < es2.len() && i != j implies es2[i] != es2[j] by {
            if i < j {
                assert(es2[i].0 != es2[j].0);
            } else {
                assert(es2[j].0 != es2[i].0);
            }
        }
    }
    es1.lemma_multiset_has_no_duplicates();
    es2.lemma_multiset_has_no_duplicates();
    assert forall|p: (Seq<char>, Seq<char>)| #[trigger]
        es1.contains(p) implies es2.contains(p) by {
        let i = choose|i: int| 0 <= i < es1.len() && es1[i] == p;
        assert(m.contains_pair(es1[i].0, es1[i].1));
        let j = choose|j: int| 0 <= j < es2.len() && (#[trigger] es2[j]).0 == p.0;
        assert(m.contains_pair(es2[j].0, es2[j].1));
        assert(es2[j] == p);
    }
    assert forall|p: (Seq<char>, Seq<char>)| #[trigger]
        es2.contains(p) implies es1.contains(p) by {
        let i = choose|i: int| 0 <= i < es2.len() && es2[i] == p;
        assert(m.contains_pair(es2[i].0, es2[i].1));
        let j = choose|j: int| 0 <= j < es1.len() && (#[trigger] es1[j]).0 == p.0;
        assert(m.contains_pair(es1[j].0, es1[j].1));
        assert(es1[j] == p);
    }
    assert(es1.to_multiset() =~= es2.to_multiset()) by {
        assert forall|p: (Seq<char>, Seq<char>)|
            es1.to_multiset().count(p) == #[trigger] es2.to_multiset().count(p) by {
            if es1.contains(p) {
                assert(es2.contains(p));
            } else {
                assert(!es2.contains(p));
                assert(es1.to_multiset().count(p) == 0);
                assert(es2.to_multiset().count(p) == 0);
            }
        }
    }
}

/// The canonical order is canonical: two key-sorted entry sequences that
/// carry the same link mapping are equal.
pub proof fn lemma_links_canonical(
    es1: Seq<(Seq<char>, Seq<char>)>,
    es2: Seq<(Seq<char>, Seq<char>)>,
    m: Map<Seq<char>, Seq<char>>,
)
    requires
        entries_match(es1, m),
        entries_match(es2, m),
        sorted_by(es1, link_order()),
        sorted_by(es2, link_order()),
    ensures
        es1 == es2,
{
    lemma_match_same_multiset(es1, es2, m);
    lemma_link_order_total();
    lemma_sorted_unique(es1, es2, link_order());
}

/// Parsing is deterministic: any two correct parses of the same document
/// text carry the same metadata record and the same body, and rendering
/// the body yields the same fragment.
pub proof fn lemma_parse_render_deterministic(
    text: Seq<char>,
    fm1: FrontMatterView,
    body1: Seq<char>,
    fm2: FrontMatterView,
    body2: Seq<char>,
)
    requires
        parsed_document(text, fm1, body1),
        parsed_document(text, fm2, body2),
    ensures
        fm1 == fm2,
        body1 == body2,
        html_of(body1) == html_of(body2),
{
    let m = matter_links_of(text)->Some_0;
    lemma_links_canonical(fm1.links, fm2.links, m);
    assert(fm1 =~= fm2);
}

/// Loading is deterministic: any two correct loads of the same project
/// document are the same record.
pub proof fn lemma_load_deterministic(p1: ProjectView, p2: ProjectView, d: SourceDocView)
    requires
        loaded_project(p1, d),
        loaded_project(p2, d),
    ensures
        p1 == p2,
{
    let b = matter_body_of(d.text)->Some_0;
    lemma_parse_render_deterministic(d.text, p1.front, b, p2.front, b);
    assert(p1 =~= p2);
}

/// Loading a whole directory is deterministic: any two correct loads of
/// the same discovered documents are the same record sequence.
pub proof fn lemma_loads_deterministic(
    ds: Seq<SourceDocView>,
    ps1: Seq<ProjectView>,
    ps2: Seq<ProjectView>,
)
    requires
        loaded_projects(ps1, selected_docs(ds)),
        loaded_projects(ps2, selected_docs(ds)),
    ensures
        ps1 == ps2,
{
    assert forall|i: int| 0 <= i < ps1.len() implies #[trigger] ps1[i] == ps2[i] by {
        lemma_load_deterministic(ps1[i], ps2[i], selected_docs(ds)[i]);
    }
    assert(ps1 =~= ps2);
}

/// The whole generation is deterministic: over identical discovered input
/// and an identical header fragment, any two correct loads compose to the
/// identical page text.
pub proof fn lemma_generation_deterministic(
    header: Seq<char>,
    ds: Seq<SourceDocView>,
    ps1: Seq<ProjectView>,
    ps2: Seq<ProjectView>,
)
    requires
        loaded_projects(ps1, selected_docs(ds)),
        loaded_projects(ps2, selected_docs(ds)),
    ensures
        portfolio_html(header, ps1) == portfolio_html(header, ps2),
{
    lemma_loads_deterministic(ds, ps1, ps2);
}

/// Running the generator twice over unchanged input produces the identical
/// page text and the identical publish plan.
pub proof fn lemma_generation_idempotent(
    header_md: Seq<char>,
    ds: Seq<SourceDocView>,
    page1: Seq<char>,
    plan1: Seq<StepView>,
    page2: Seq<char>,
    plan2: Seq<StepView>,
)
    requires
        generated(header_md, ds, page1, plan1),
        generated(header_md, ds, page2, plan2),
    ensures
        page1 == page2,
        plan1 == plan2,
{
    let ps1 = choose|ps: Seq<ProjectView>|
        {
            &&& #[trigger] loaded_projects(ps, selected_docs(ds))
            &&& page1 == portfolio_html(html_of(header_md), ps)
            &&& plan1 == plan_of(ps)
        };
    let ps2 = choose|ps: Seq<ProjectView>|
        {
            &&& #[trigger] loaded_projects(ps, selected_docs(ds))
            &&& page2 == portfolio_html(html_of(header_md), ps)
            &&& plan2 == plan_of(ps)
        };
    lemma_loads_deterministic(ds, ps1, ps2);
}

} // verus!
