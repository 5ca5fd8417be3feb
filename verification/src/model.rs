use vstd::prelude::*;

verus! {

/// The typed record parsed out of a source document's metadata block.
#[derive(Debug)]
pub struct FrontMatter {
    pub title: String,
    pub tags: Vec<String>,
    /// Display-name / URL pairs, kept sorted by key so that rendering is
    /// deterministic across runs.
    pub links: Vec<(String, String)>,
}

/// The views of a sequence of tag strings.
pub open spec fn tag_views(s: Seq<String>) -> Seq<Seq<char>> {
    s.map_values(|t: String| t@)
}

/// The views of a sequence of link entries.
pub open spec fn link_views(s: Seq<(String, String)>) -> Seq<(Seq<char>, Seq<char>)> {
    s.map_values(|l: (String, String)| (l.0@, l.1@))
}

/// Spec-level image of a `FrontMatter`: every field as a mathematical value.
#[verifier::ext_equal]
pub struct FrontMatterView {
    pub title: Seq<char>,
    pub tags: Seq<Seq<char>>,
    pub links: Seq<(Seq<char>, Seq<char>)>,
}

impl View for FrontMatter {
    type V = FrontMatterView;

    open spec fn view(&self) -> FrontMatterView {
        FrontMatterView {
            title: self.title@,
            tags: tag_views(self.tags@),
            links: link_views(self.links@),
        }
    }
}

/// One portfolio entry: declared metadata, derived asset paths, and the
/// pre-rendered HTML fragment for its description.
#[derive(Debug)]
pub struct Project {
    pub front: FrontMatter,
    pub image_link: String,
    pub video_link: Option<String>,
    pub about_html: String,
}

/// Spec-level image of a `Project`.
#[verifier::ext_equal]
pub struct ProjectView {
    pub front: FrontMatterView,
    pub image_link: Seq<char>,
    pub video_link: Option<Seq<char>>,
    pub about_html: Seq<char>,
}

impl View for Project {
    type V = ProjectView;

    open spec fn view(&self) -> ProjectView {
        ProjectView {
            front: self.front@,
            image_link: self.image_link@,
            video_link: match self.video_link {
                Some(ref v) => Some(v@),
                None => None,
            },
            about_html: self.about_html@,
        }
    }
}

/// The views of a sequence of projects.
pub open spec fn project_views(s: Seq<Project>) -> Seq<ProjectView> {
    s.map_values(|p: Project| p@)
}

/// Why a generation run aborts. Every error is fatal: the caller reports it
/// and terminates without producing further output.
#[derive(Debug)]
pub enum GenError {
    /// A source file could not be read or an output could not be written.
    IoError(String),
    /// The metadata block is missing, unparseable, or lacks a required field.
    MalformedMetadata(String),
    /// Two source files resolve to the same derived identifier.
    DuplicateProjectId(String),
}

impl GenError {
    /// A short human-readable description of the error.
    pub fn message(&self) -> (r: &String)
        ensures
            r@ == match *self {
                GenError::IoError(ref m) => m@,
                GenError::MalformedMetadata(ref m) => m@,
                GenError::DuplicateProjectId(ref m) => m@,
            },
    {
        match self {
            GenError::IoError(m) => m,
            GenError::MalformedMetadata(m) => m,
            GenError::DuplicateProjectId(m) => m,
        }
    }
}

} // verus!
