//! What a request carries, as plain values: its query parameters and the
//! headers the service reads.

use crate::database::links::{LinkWithKey, LinkWithKeyView};
use crate::views::{opt_text, opt_texts, texts};
use vstd::prelude::*;
use vstd::string::{StrSliceExecFns, StringExecFns};

verus! {

/// The parameters of a download.
#[derive(Debug)]
pub struct QueriesGet {
    /// The unlock key of the link, or the data key of an unmanaged object.
    pub key: Option<String>,
    /// The link, where the path names a file instead.
    pub id: Option<String>,
    pub pwd: Option<String>,
}

/// The parameters of a request that makes an API key or a link.
#[derive(Debug)]
pub struct RoleTagsCreate {
    pub tags: Option<Vec<String>>,
    pub role: Option<String>,
}

#[derive(Debug)]
pub struct Tags {
    pub tags: Option<Vec<String>>,
}

#[derive(Debug)]
pub struct CreateUser {
    pub email: String,
    pub pwd: String,
}

/// The parameters of an upload.
#[derive(Debug)]
pub struct QueriesSet {
    pub filename: Option<String>,
    /// Seconds, or a duration such as `2h`.
    pub expires: Option<String>,
    pub reads: Option<i64>,
    pub pwd: Option<String>,
    pub tags: Option<Vec<String>>,
}

pub struct QueriesSetView {
    pub filename: Option<Seq<char>>,
    pub expires: Option<Seq<char>>,
    pub reads: Option<i64>,
    pub pwd: Option<Seq<char>>,
    pub tags: Option<Seq<Seq<char>>>,
}

impl View for QueriesSet {
    type V = QueriesSetView;

    open spec fn view(&self) -> QueriesSetView {
        QueriesSetView {
            filename: opt_text(self.filename),
            expires: opt_text(self.expires),
            reads: self.reads,
            pwd: opt_text(self.pwd),
            tags: opt_texts(self.tags),
        }
    }
}

/// One header of a request.
#[derive(Debug)]
pub enum HeaderText {
    /// The request has no such header.
    Absent,
    /// The header is there, and its value is not visible ASCII.
    Opaque,
    Text(String),
}

pub enum HeaderTextView {
    Absent,
    Opaque,
    Text(Seq<char>),
}

impl View for HeaderText {
    type V = HeaderTextView;

    open spec fn view(&self) -> HeaderTextView {
        match self {
            HeaderText::Absent => HeaderTextView::Absent,
            HeaderText::Opaque => HeaderTextView::Opaque,
            HeaderText::Text(t) => HeaderTextView::Text(t@),
        }
    }
}

/// The headers of an upload that are kept with it.
#[derive(Debug)]
pub struct RequestHeaders {
    pub content_type: HeaderText,
    pub x_forwarded_for: HeaderText,
    pub user_agent: HeaderText,
}

pub struct RequestHeadersView {
    pub content_type: HeaderTextView,
    pub x_forwarded_for: HeaderTextView,
    pub user_agent: HeaderTextView,
}

impl View for RequestHeaders {
    type V = RequestHeadersView;

    open spec fn view(&self) -> RequestHeadersView {
        RequestHeadersView {
            content_type: self.content_type@,
            x_forwarded_for: self.x_forwarded_for@,
            user_agent: self.user_agent@,
        }
    }
}

impl HeaderTextView {
    /// The header as it is recorded: nothing where it is absent, the word
    /// `error` where it cannot be read.
    pub open spec fn recorded(self) -> Option<Seq<char>> {
        match self {
            HeaderTextView::Absent => None,
            HeaderTextView::Opaque => Some("error"@),
            HeaderTextView::Text(t) => Some(t),
        }
    }

    /// The header's text, or `fallback` where it is absent or cannot be read.
    pub open spec fn text_or(self, fallback: Seq<char>) -> Seq<char> {
        match self {
            HeaderTextView::Text(t) => t,
            _ => fallback,
        }
    }
}

impl HeaderText {
    pub fn recorded(&self) -> (res: Option<String>)
        ensures
            opt_text(res) == self@.recorded(),
    {
        match self {
            HeaderText::Absent => None,
            HeaderText::Opaque => Some("error".to_owned()),
            HeaderText::Text(t) => Some(t.clone()),
        }
    }

    pub fn text_or(&self, fallback: &str) -> (res: String)
        ensures
            res@ == self@.text_or(fallback@),
    {
        match self {
            HeaderText::Text(t) => t.clone(),
            _ => fallback.to_owned(),
        }
    }
}

impl QueriesGet {
    /// The link a download asks for: the `id` parameter where there is one,
    /// else the last segment of the path.
    pub fn link_id(&self, path_id: String) -> (id: String)
        ensures
            id@ == (match self.id {
                Some(i) => i@,
                None => path_id@,
            }),
    {
        match &self.id {
            Some(i) => i.clone(),
            None => path_id,
        }
    }
}

/// The position of the first comma of a text, or its length where it has none.
pub open spec fn first_comma(s: Seq<char>) -> int
    decreases s.len(),
{
    if s.len() == 0 || s[0] == ',' {
        0
    } else {
        1 + first_comma(s.drop_first())
    }
}

/// The pieces of a text between its commas. A text without a comma is one
/// piece, and so is the empty text.
pub open spec fn comma_split(s: Seq<char>) -> Seq<Seq<char>>
    decreases s.len(),
{
    let at = first_comma(s);
    if 0 <= at < s.len() {
        seq![s.take(at)] + comma_split(s.skip(at + 1))
    } else {
        seq![s]
    }
}

/// The pieces of a list written one behind the other, a comma between each two.
pub open spec fn comma_joined(pieces: Seq<Seq<char>>) -> Seq<char>
    decreases pieces.len(),
{
    if pieces.len() == 0 {
        Seq::empty()
    } else if pieces.len() == 1 {
        pieces[0]
    } else {
        pieces[0] + seq![','] + comma_joined(pieces.drop_first())
    }
}

/// Splitting loses nothing: no piece holds a comma, and the pieces with
/// commas between them are the text.
pub proof fn lemma_split_then_join(s: Seq<char>)
    ensures
        comma_split(s).len() >= 1,
        comma_joined(comma_split(s)) == s,
        forall|i: int, j: int|
            0 <= i < comma_split(s).len() && 0 <= j < comma_split(s)[i].len() ==> comma_split(
                s,
            )[i][j] != ',',
    decreases s.len(),
{
    lemma_first_comma(s);
    let at = first_comma(s);
    let pieces = comma_split(s);
    if 0 <= at < s.len() {
        let rest = comma_split(s.skip(at + 1));
        lemma_split_then_join(s.skip(at + 1));
        assert(pieces.drop_first() =~= rest);
        assert(pieces[0] == s.take(at));
        assert(comma_joined(pieces) == s.take(at) + seq![','] + comma_joined(rest));
        assert(s.take(at) + seq![','] + s.skip(at + 1) =~= s);
        assert forall|i: int, j: int|
            0 <= i < pieces.len() && 0 <= j < pieces[i].len() implies pieces[i][j] != ',' by {
            if i == 0 {
                assert(pieces[0][j] == s[j]);
            } else {
                assert(pieces[i] == rest[i - 1]);
            }
        }
    } else {
        assert(pieces =~= seq![s]);
    }
}

/// The first comma lies within the text, and nothing before it is a comma.
pub proof fn lemma_first_comma(s: Seq<char>)
    ensures
        0 <= first_comma(s) <= s.len(),
        first_comma(s) < s.len() ==> s[first_comma(s)] == ',',
        forall|i: int| 0 <= i < first_comma(s) ==> s[i] != ',',
    decreases s.len(),
{
    if s.len() == 0 || s[0] == ',' {
    } else {
        lemma_first_comma(s.drop_first());
        assert forall|i: int| 0 <= i < first_comma(s) implies s[i] != ',' by {
            if i > 0 {
                assert(s.drop_first()[i - 1] == s[i]);
            }
        }
    }
}

/// The position of the first comma is the only one that is a comma, or the
/// end, with no comma before it.
proof fn lemma_first_comma_is(s: Seq<char>, at: int)
    requires
        0 <= at <= s.len(),
        at < s.len() ==> s[at] == ',',
        forall|i: int| 0 <= i < at ==> s[i] != ',',
    ensures
        first_comma(s) == at,
{
    lemma_first_comma(s);
    let found = first_comma(s);
    if found < at {
        assert(s[found] != ',');
    } else if at < found {
        assert(s[at] != ',');
    }
}

/// Reads the tags of a request: the pieces of the parameter between its commas.
pub fn split_tags(text: &str) -> (tags: Vec<String>)
    ensures
        texts(tags@) == comma_split(text@),
{
    let n = text.unicode_len();
    let mut tags: Vec<String> = Vec::new();
    let mut start: usize = 0;
    let mut i: usize = 0;
    proof {
        assert(text@.skip(0) =~= text@);
        assert(texts(tags@) + comma_split(text@) =~= comma_split(text@));
    }
    while i < n
        invariant
            n == text@.len(),
            start <= i <= n,
            forall|j: int| start <= j < i ==> text@[j] != ',',
            comma_split(text@) == texts(tags@) + comma_split(text@.skip(start as int)),
        decreases n - i,
    {
        if text.get_char(i) == ',' {
            let piece = text.substring_char(start, i).to_owned();
            proof {
                let rest = text@.skip(start as int);
                assert forall|j: int| 0 <= j < i - start implies rest[j] != ',' by {
                    assert(rest[j] == text@[start + j]);
                }
                lemma_first_comma_is(rest, i - start);
                assert(rest.take(i - start) =~= text@.subrange(start as int, i as int));
                assert(rest.skip(i - start + 1) =~= text@.skip(i + 1));
                assert(texts(tags@.push(piece)) =~= texts(tags@) + seq![piece@]);
                assert(comma_split(rest) == seq![piece@] + comma_split(text@.skip(i + 1)));
                assert(texts(tags@) + (seq![piece@] + comma_split(text@.skip(i + 1))) =~= (texts(
                    tags@,
                ) + seq![piece@]) + comma_split(text@.skip(i + 1)));
            }
            tags.push(piece);
            start = i + 1;
        }
        i += 1;
    }
    let piece = text.substring_char(start, n).to_owned();
    proof {
        let rest = text@.skip(start as int);
        assert forall|j: int| 0 <= j < n - start implies rest[j] != ',' by {
            assert(rest[j] == text@[start + j]);
        }
        lemma_first_comma_is(rest, n - start);
        assert(rest =~= text@.subrange(start as int, n as int));
        assert(texts(tags@.push(piece)) =~= texts(tags@) + seq![piece@]);
    }
    tags.push(piece);
    tags
}

/// Reads the optional tags of a request.
pub fn tags_deserialize(text: Option<String>) -> (tags: Option<Vec<String>>)
    ensures
        opt_texts(tags) == (match text {
            Some(t) => Some(comma_split(t@)),
            None => None,
        }),
{
    match text {
        Some(t) => Some(split_tags(t.as_str())),
        None => None,
    }
}

/// The address of a link added to an upload: under the file name of the
/// upload where it has one, with the link's id behind it, else under the
/// link's id; and behind that the unlock key, where the upload uses link
/// keys and the link has one. Nothing in it is escaped.
pub open spec fn added_link_url(
    base: Seq<char>,
    filename: Option<Seq<char>>,
    link: LinkWithKeyView,
    ignore_link_key: bool,
) -> Seq<char> {
    let key = if ignore_link_key {
        None
    } else {
        link.key
    };
    match filename {
        Some(f) => base + "/download/"@ + f + "?id="@ + link.link.id + (match key {
            Some(k) => "&key="@ + k,
            None => Seq::<char>::empty(),
        }),
        None => base + "/download/"@ + link.link.id + (match key {
            Some(k) => "?key="@ + k,
            None => Seq::<char>::empty(),
        }),
    }
}

/// Writes the address of a link added to an upload.
pub fn add_link_url(
    base: &str,
    filename: Option<&String>,
    link: &LinkWithKey,
    ignore_link_key: bool,
) -> (url: String)
    ensures
        url@ == added_link_url(
            base@,
            match filename {
                Some(f) => Some(f@),
                None => None,
            },
            link@,
            ignore_link_key,
        ),
{
    let mut url = String::from_str(base);
    url.append("/download/");
    let with_file = match filename {
        Some(f) => {
            url.append(f.as_str());
            url.append("?id=");
            url.append(link.link.id.as_str());
            true
        },
        None => {
            url.append(link.link.id.as_str());
            false
        },
    };
    if !ignore_link_key {
        match &link.key {
            Some(k) => {
                if with_file {
                    url.append("&key=");
                } else {
                    url.append("?key=");
                }
                url.append(k.as_str());
                proof {
                    if with_file {
                        assert(url@ =~= base@ + "/download/"@ + filename.unwrap()@ + "?id="@
                            + link@.link.id + ("&key="@ + k@));
                    } else {
                        assert(url@ =~= base@ + "/download/"@ + link@.link.id + ("?key="@ + k@));
                    }
                }
                return url;
            },
            None => {},
        }
    }
    proof {
        assert(url@ + Seq::<char>::empty() =~= url@);
    }
    url
}

} // verus!
