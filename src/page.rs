use vstd::prelude::*;
use vstd::string::StringExecFns;
use crate::report::{decimal, decimal_string};

verus! {

/// Something that renders to an HTML fragment.
pub trait ToHtml {
    /// The HTML that `to_html` gives.
    spec fn html(&self) -> Seq<char>;

    fn to_html(&self) -> (r: String)
        ensures
            r@ == self.html(),
    ;
}

/// A titled HTML page and its parts, in order.
pub struct Report {
    pub title: String,
    pub children: Vec<Content>,
}

/// A part of a page.
pub enum Content {
    Section(Section),
    Html(String),
    Markdown(String),
}

/// A heading of some level; its children are not rendered.
pub struct Section {
    pub title: String,
    pub level: i32,
    pub children: Vec<Content>,
}

/// `n` in decimal, with a minus sign where it is negative.
pub open spec fn signed_decimal(n: int) -> Seq<char> {
    if n < 0 {
        seq!['-'] + decimal((-n) as nat)
    } else {
        decimal(n as nat)
    }
}

/// A section's heading on a line of its own, then an empty body line.
pub open spec fn section_html(s: Section) -> Seq<char> {
    let level = signed_decimal(s.level as int);
    seq!['\n', ' ', ' ', '<', 'h'] + level + seq!['>'] + s.title@ + seq!['<', '/', 'h'] + level
        + seq!['>', '\n', ' ', ' ', '\n']
}

/// A part as HTML: a section's heading, raw HTML as it is, Markdown
/// source preformatted.
pub open spec fn content_html(c: Content) -> Seq<char> {
    match c {
        Content::Section(s) => section_html(s),
        Content::Html(h) => h@,
        Content::Markdown(m) => seq!['<', 'p', 'r', 'e', '>'] + m@ + seq!['<', '/', 'p', 'r', 'e', '>'],
    }
}

/// The HTML of the first `k` parts, one after the other.
pub open spec fn contents_html(cs: Seq<Content>, k: int) -> Seq<char>
    decreases k,
{
    if k <= 0 || k > cs.len() {
        Seq::empty()
    } else {
        contents_html(cs, k - 1) + content_html(cs[k - 1])
    }
}

/// The opening of a page, up to its title.
pub open spec fn page_head() -> Seq<char> {
    seq!['<', 'h', 't', 'm', 'l', '>', '\n', '<', 'h', 'e', 'a', 'd', '>', '\n', ' ', ' ', '<', 't', 'i', 't', 'l', 'e', '>']
}

/// What stands between a page's title and its parts.
pub open spec fn page_middle() -> Seq<char> {
    seq!['<', '/', 't', 'i', 't', 'l', 'e', '>', '\n', '<', '/', 'h', 'e', 'a', 'd', '>', '\n', '<', 'b', 'o', 'd', 'y', '>', '\n', ' ', ' ']
}

/// The close of a page, after its parts.
pub open spec fn page_tail() -> Seq<char> {
    seq!['\n', '<', '/', 'b', 'o', 'd', 'y', '>', '\n', '<', '/', 'h', 't', 'm', 'l', '>', '\n']
}

/// A whole page: its title in the head, its parts in the body.
pub open spec fn report_html(r: Report) -> Seq<char> {
    page_head() + r.title@ + page_middle() + contents_html(r.children@, r.children@.len() as int)
        + page_tail()
}

fn signed_decimal_string(n: i32) -> (r: String)
    ensures
        r@ == signed_decimal(n as int),
{
    if n < 0 {
        proof {
            reveal_strlit("-");
            assert("-"@ =~= seq!['-']);
        }
        let magnitude = (-(n as i64)) as u32;
        let mut out = String::from_str("-");
        out.append(decimal_string(magnitude).as_str());
        out
    } else {
        decimal_string(n as u32)
    }
}

impl ToHtml for Section {
    open spec fn html(&self) -> Seq<char> {
        section_html(*self)
    }

    fn to_html(&self) -> (r: String) {
        proof {
            reveal_strlit("\n  <h");
            reveal_strlit(">");
            reveal_strlit("</h");
            reveal_strlit(">\n  \n");
            assert("\n  <h"@ =~= seq!['\n', ' ', ' ', '<', 'h']);
            assert(">"@ =~= seq!['>']);
            assert("</h"@ =~= seq!['<', '/', 'h']);
            assert(">\n  \n"@ =~= seq!['>', '\n', ' ', ' ', '\n']);
        }
        let level = signed_decimal_string(self.level);
        let mut out = String::from_str("\n  <h");
        out.append(level.as_str());
        out.append(">");
        out.append(self.title.as_str());
        out.append("</h");
        out.append(level.as_str());
        out.append(">\n  \n");
        out
    }
}

impl ToHtml for Content {
    open spec fn html(&self) -> Seq<char> {
        content_html(*self)
    }

    fn to_html(&self) -> (r: String) {
        match self {
            Content::Section(section) => section.to_html(),
            Content::Html(html) => html.clone(),
            Content::Markdown(markdown) => {
                proof {
                    reveal_strlit("<pre>");
                    reveal_strlit("</pre>");
                    assert("<pre>"@ =~= seq!['<', 'p', 'r', 'e', '>']);
                    assert("</pre>"@ =~= seq!['<', '/', 'p', 'r', 'e', '>']);
                }
                let mut out = String::from_str("<pre>");
                out.append(markdown.as_str());
                out.append("</pre>");
                out
            },
        }
    }
}

impl ToHtml for Report {
    open spec fn html(&self) -> Seq<char> {
        report_html(*self)
    }

    fn to_html(&self) -> (r: String) {
        proof {
            reveal_strlit("<html>\n<head>\n  <title>");
            reveal_strlit("</title>\n</head>\n<body>\n  ");
            reveal_strlit("\n</body>\n</html>\n");
            assert("<html>\n<head>\n  <title>"@ =~= page_head());
            assert("</title>\n</head>\n<body>\n  "@ =~= page_middle());
            assert("\n</body>\n</html>\n"@ =~= page_tail());
        }
        let mut out = String::from_str("<html>\n<head>\n  <title>");
        out.append(self.title.as_str());
        out.append("</title>\n</head>\n<body>\n  ");
        let ghost head = out@;
        proof {
            assert(head + contents_html(self.children@, 0) =~= head);
        }
        let mut k: usize = 0;
        while k < self.children.len()
            invariant
                k <= self.children@.len(),
                out@ == head + contents_html(self.children@, k as int),
            decreases self.children@.len() - k,
        {
            let piece = self.children[k].to_html();
            out.append(piece.as_str());
            k = k + 1;
            proof {
                assert(out@ =~= head + contents_html(self.children@, k as int));
            }
        }
        proof {
            reveal_strlit("\n</body>\n</html>\n");
            assert("\n</body>\n</html>\n"@ =~= page_tail());
        }
        out.append("\n</body>\n</html>\n");
        out
    }
}

} // verus!
