use vstd::prelude::*;

verus! {

/// Whether a character is a numeral, `'0'` through `'9'`.
pub open spec fn is_digit(c: char) -> bool {
    48 <= c as u32 && c as u32 <= 57
}

/// Whether a file name carries the markdown extension `.md`.
pub open spec fn is_md_name(s: Seq<char>) -> bool {
    s.len() >= 3 && s.subrange(s.len() - 3, s.len() as int) == ".md"@
}

/// Whether a file name denotes a project document: a markdown file whose
/// name begins with a numeral. Other markdown files (such as a shared
/// header document) are never treated as projects.
pub open spec fn is_project_file_name(s: Seq<char>) -> bool {
    is_md_name(s) && is_digit(s[0])
}

/// The file name with its trailing `.md` removed.
pub open spec fn stem_of(s: Seq<char>) -> Seq<char> {
    s.subrange(0, s.len() - 3)
}

/// The portion of a file stem after the first `'-'` separator, or `None`
/// if the stem holds no separator.
pub open spec fn id_after_sep(s: Seq<char>) -> Option<Seq<char>>
    decreases s.len(),
{
    if s.len() == 0 {
        None
    } else if s[0] == '-' {
        Some(s.drop_first())
    } else {
        id_after_sep(s.drop_first())
    }
}

/// The project identifier derived from a project file name: the portion of
/// its stem after the first separator.
pub open spec fn doc_id(name: Seq<char>) -> Option<Seq<char>> {
    id_after_sep(stem_of(name))
}

/// The conventional image asset path for a project identifier.
pub open spec fn image_path_of(id: Seq<char>) -> Seq<char> {
    "./portfolio/"@ + id + ".png"@
}

/// The conventional video asset path for a project identifier.
pub open spec fn video_path_of(id: Seq<char>) -> Seq<char> {
    "./portfolio/"@ + id + ".mp4"@
}

/// Decide whether a file name denotes a project document.
pub fn is_project_file(name: &str) -> (r: bool)
    ensures
        r == is_project_file_name(name@),
{
    let n: usize = name.unicode_len();
    if n < 3 {
        return false;
    }
    proof {
        reveal_strlit(".md");
    }
    let c0 = name.get_char(n - 3);
    let c1 = name.get_char(n - 2);
    let c2 = name.get_char(n - 1);
    proof {
        let tail = name@.subrange(name@.len() - 3, name@.len() as int);
        assert(tail[0] == name@[name@.len() - 3]);
        assert(tail[1] == name@[name@.len() - 2]);
        assert(tail[2] == name@[name@.len() - 1]);
    }
    if !(c0 == '.' && c1 == 'm' && c2 == 'd') {
        return false;
    }
    proof {
        assert(name@.subrange(name@.len() - 3, name@.len() as int) =~= ".md"@);
    }
    let first = name.get_char(0);
    let u: u32 = first as u32;
    48 <= u && u <= 57
}

/// Derive the project identifier from a project file name, splitting the
/// stem at the first `'-'` and taking the portion after it. Returns `None`
/// exactly when the stem holds no separator.
pub fn project_id(name: &str) -> (r: Option<String>)
    requires
        is_project_file_name(name@),
    ensures
        match r {
            Some(id) => doc_id(name@) == Some(id@),
            None => doc_id(name@) == None::<Seq<char>>,
        },
{
    let n: usize = name.unicode_len();
    let m: usize = n - 3;
    let mut i: usize = 0;
    proof {
        assert(stem_of(name@).skip(0) =~= stem_of(name@));
    }
    while i < m
        invariant
            i <= m,
            m == n - 3,
            n == name@.len(),
            n >= 3,
            id_after_sep(stem_of(name@)) == id_after_sep(stem_of(name@).skip(i as int)),
        decreases m - i,
    {
        let ghost stem = stem_of(name@);
        let c = name.get_char(i);
        proof {
            assert(stem.skip(i as int)[0] == name@[i as int]);
        }
        if c == '-' {
            let id = name.substring_char(i + 1, m);
            proof {
                assert(stem.skip(i as int).drop_first() =~= name@.subrange(
                    i + 1,
                    m as int,
                ));
            }
            return Some(id.to_owned());
        }
        proof {
            assert(stem.skip(i as int).drop_first() =~= stem.skip(i + 1));
        }
        i = i + 1;
    }
    proof {
        assert(stem_of(name@).skip(m as int) =~= Seq::<char>::empty());
    }
    None
}

/// The conventional image asset path for a project identifier.
pub fn image_path(id: &str) -> (r: String)
    ensures
        r@ == image_path_of(id@),
{
    let mut s = "./portfolio/".to_owned();
    s.append(id);
    s.append(".png");
    s
}

/// The conventional video asset path for a project identifier.
pub fn video_path(id: &str) -> (r: String)
    ensures
        r@ == video_path_of(id@),
{
    let mut s = "./portfolio/".to_owned();
    s.append(id);
    s.append(".mp4");
    s
}

/// Derive both asset paths for a project identifier. The image path is
/// always returned; existence is checked later, at publish time. The video
/// path is returned exactly when the caller's filesystem probe found the
/// conventional video file present.
pub fn resolve_assets(id: &str, video_exists: bool) -> (r: (String, Option<String>))
    ensures
        r.0@ == image_path_of(id@),
        match r.1 {
            Some(v) => video_exists && v@ == video_path_of(id@),
            None => !video_exists,
        },
{
    let image = image_path(id);
    let video = if video_exists {
        Some(video_path(id))
    } else {
        None
    };
    (image, video)
}

} // verus!
