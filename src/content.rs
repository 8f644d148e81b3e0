//! Content that windows show: where a blog post or project is stored, which
//! directory entries are content, how an id reads as a title, and the error
//! for content that is not there.

use vstd::prelude::*;

use crate::markdown::{
    block_views, html_of, markdown_events_of, markdown_to_html, render_markdown, rendered, Block,
};

verus! {

broadcast use vstd::string::group_string_axioms;

/// The two kinds of markdown content.
#[derive(Clone, Copy, Debug, PartialEq, Eq, Structural)]
pub enum ContentKind {
    Blog,
    Project,
}

/// The directory that holds content of this kind.
pub open spec fn dir_of(kind: ContentKind) -> Seq<char> {
    match kind {
        ContentKind::Blog => "blog"@,
        ContentKind::Project => "projects"@,
    }
}

/// Where the content with this id is stored: `<dir>/<id>.md`.
pub open spec fn path_of(kind: ContentKind, id: Seq<char>) -> Seq<char> {
    dir_of(kind) + "/"@ + id + ".md"@
}

/// The directory that holds content of this kind.
pub fn content_dir(kind: ContentKind) -> (r: &'static str)
    ensures
        r@ == dir_of(kind),
{
    match kind {
        ContentKind::Blog => "blog",
        ContentKind::Project => "projects",
    }
}

/// The file that holds the content with this id.
pub fn content_path(kind: ContentKind, id: &str) -> (r: String)
    ensures
        r@ == path_of(kind, id@),
{
    let mut r = content_dir(kind).to_string();
    r.append("/");
    r.append(id);
    r.append(".md");
    r
}

/// Content that was asked for and is not there.
#[derive(Clone, Debug, PartialEq, Eq)]
pub enum ContentError {
    NotFound(ContentKind, String),
}

/// The words before the id in a not-found message.
pub open spec fn not_found_lead(kind: ContentKind) -> Seq<char> {
    match kind {
        ContentKind::Blog => "Could not find blog post: "@,
        ContentKind::Project => "Could not find project: "@,
    }
}

/// The message that a not-found error shows: it names the id.
pub open spec fn not_found_message(kind: ContentKind, id: Seq<char>) -> Seq<char> {
    not_found_lead(kind) + id
}

impl ContentError {
    /// The message to show for this error.
    pub fn message(&self) -> (r: String)
        ensures
            match self {
                ContentError::NotFound(kind, id) => r@ == not_found_message(*kind, id@),
            },
    {
        match self {
            ContentError::NotFound(kind, id) => {
                let mut r = match kind {
                    ContentKind::Blog => "Could not find blog post: ".to_string(),
                    ContentKind::Project => "Could not find project: ".to_string(),
                };
                r.append(id.as_str());
                r
            },
        }
    }
}

/// The content id that a directory entry named `name` stands for: the name
/// without its extension, where that extension is `md` and a non-empty stem
/// comes before it.
pub open spec fn md_stem_of(name: Seq<char>) -> Option<Seq<char>> {
    let n = name.len();
    if n > 3 && name.subrange(n - 3, n as int) == ".md"@ {
        Some(name.subrange(0, n - 3))
    } else {
        None
    }
}

/// The content ids among a directory's entry names, in their order.
pub open spec fn md_stems(names: Seq<Seq<char>>) -> Seq<Seq<char>>
    decreases names.len(),
{
    if names.len() == 0 {
        Seq::empty()
    } else {
        let init = md_stems(names.drop_last());
        match md_stem_of(names.last()) {
            Some(stem) => init.push(stem),
            None => init,
        }
    }
}

/// The views of a sequence of strings.
pub open spec fn texts(v: Seq<String>) -> Seq<Seq<char>> {
    v.map_values(|s: String| s@)
}

/// The content id that a directory entry named `name` stands for, if any.
pub fn md_stem(name: &str) -> (r: Option<String>)
    ensures
        match md_stem_of(name@) {
            Some(stem) => r is Some && r->Some_0@ == stem,
            None => r is None,
        },
{
    proof {
        reveal_strlit(".md");
    }
    let n = name.unicode_len();
    if n > 3 {
        let tail = name.substring_char(n - 3, n);
        if crate::text::same_text(tail, ".md") {
            return Some(name.substring_char(0, n - 3).to_string());
        }
    }
    None
}

/// The content ids among a directory's entry names, in their order; an
/// unreadable directory (`None`) lists nothing.
pub fn content_ids(entries: Option<&Vec<String>>) -> (r: Vec<String>)
    ensures
        match entries {
            Some(names) => texts(r@) == md_stems(texts(names@)),
            None => r@.len() == 0,
        },
{
    let mut out: Vec<String> = Vec::new();
    match entries {
        None => {},
        Some(names) => {
            let mut i: usize = 0;
            while i < names.len()
                invariant
                    i <= names@.len(),
                    texts(out@) == md_stems(texts(names@.subrange(0, i as int))),
                decreases names@.len() - i,
            {
                let ghost before = out@;
                let stem = md_stem(names[i].as_str());
                proof {
                    assert(texts(names@.subrange(0, i + 1)).drop_last() =~= texts(
                        names@.subrange(0, i as int),
                    ));
                }
                match stem {
                    Some(s) => {
                        out.push(s);
                        proof {
                            assert(texts(out@) =~= texts(before).push(out@.last()@));
                        }
                    },
                    None => {},
                }
                i = i + 1;
            }
            proof {
                assert(names@.subrange(0, names@.len() as int) =~= names@);
            }
        },
    }
    proof {
        assert(texts(out@).len() == out@.len());
    }
    out
}

/// `s` with each dash turned into a space.
pub open spec fn dashes_to_spaces(s: Seq<char>) -> Seq<char> {
    s.map_values(|c: char| if c == '-' { ' ' } else { c })
}

/// The title that a content id reads as: its dashes become spaces.
pub fn title_of_id(id: &str) -> (r: String)
    ensures
        r@ == dashes_to_spaces(id@),
{
    let n = id.unicode_len();
    let mut r = String::new();
    let mut start: usize = 0;
    let mut i: usize = 0;
    while i < n
        invariant
            n == id@.len(),
            start <= i <= n,
            r@ == dashes_to_spaces(id@.subrange(0, start as int)),
            forall|j: int| start <= j < i ==> id@[j] != '-',
        decreases n - i,
    {
        if id.get_char(i) == '-' {
            let ghost before = r@;
            r.append(id.substring_char(start, i));
            r.append(" ");
            proof {
                reveal_strlit(" ");
                assert(" "@.len() == 1 && " "@[0] == ' ');
                let lhs = dashes_to_spaces(id@.subrange(0, i + 1));
                let rhs = dashes_to_spaces(id@.subrange(0, start as int)) + id@.subrange(
                    start as int,
                    i as int,
                ) + " "@;
                assert forall|j: int| 0 <= j < lhs.len() implies lhs[j] == rhs[j] by {
                    if j < start {
                    } else if j < i {
                    } else {
                        assert(j == i);
                    }
                }
                assert(dashes_to_spaces(id@.subrange(0, i + 1)) =~= dashes_to_spaces(
                    id@.subrange(0, start as int),
                ) + id@.subrange(start as int, i as int) + " "@);
            }
            start = i + 1;
        }
        i = i + 1;
    }
    r.append(id.substring_char(start, n));
    proof {
        assert(dashes_to_spaces(id@) =~= dashes_to_spaces(id@.subrange(0, start as int))
            + id@.subrange(start as int, n as int));
    }
    r
}

/// Whether `r` is the not-found error for this content.
pub open spec fn is_not_found<T>(r: Result<T, ContentError>, kind: ContentKind, id: Seq<char>) -> bool {
    match r {
        Err(ContentError::NotFound(k, i)) => k == kind && i@ == id,
        Ok(_) => false,
    }
}

/// The HTML of the content with this id, from what reading its file gave:
/// `None` where there is no such file, which is a not-found error.
pub fn load_content(kind: ContentKind, id: &str, source: Option<String>) -> (r: Result<
    String,
    ContentError,
>)
    ensures
        match source {
            Some(md) => r is Ok && r->Ok_0@ == html_of(md@),
            None => is_not_found(r, kind, id@),
        },
{
    match source {
        Some(md) => Ok(markdown_to_html(md.as_str())),
        None => Err(ContentError::NotFound(kind, id.to_string())),
    }
}

/// The display blocks of the content with this id, from what reading its
/// file gave: `None` where there is no such file, which is a not-found error.
pub fn content_blocks(kind: ContentKind, id: &str, source: Option<String>) -> (r: Result<
    Vec<Block>,
    ContentError,
>)
    ensures
        match source {
            Some(md) => r is Ok && block_views(r->Ok_0@) == rendered(markdown_events_of(md@)),
            None => is_not_found(r, kind, id@),
        },
{
    match source {
        Some(md) => Ok(render_markdown(md.as_str())),
        None => Err(ContentError::NotFound(kind, id.to_string())),
    }
}

} // verus!
