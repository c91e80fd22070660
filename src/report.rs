use vstd::prelude::*;
use vstd::string::StringExecFns;

verus! {

/// How a renderer links to a resource by default.
pub enum LinkType {
    Link,
    DataURL,
}

/// What a renderer threads through the levels of a report.
pub trait RenderContext: Sized {
    /// The link type that `default_link_type` gives.
    spec fn link_type(&self) -> LinkType;

    /// Whether this context has a context one level deeper.
    spec fn has_child(&self) -> bool;

    /// The context one level deeper.
    spec fn child(&self) -> Self;

    fn default_link_type(&self) -> (r: LinkType)
        ensures
            r == self.link_type(),
    ;

    fn child_context(&self) -> (r: Self)
        requires
            self.has_child(),
        ensures
            r == self.child(),
    ;
}

/// An HTML rendering context: the heading level of the current depth.
pub struct Html(pub u32);

impl RenderContext for Html {
    open spec fn link_type(&self) -> LinkType {
        LinkType::Link
    }

    open spec fn has_child(&self) -> bool {
        self.0 < u32::MAX
    }

    open spec fn child(&self) -> Html {
        Html((self.0 + 1) as u32)
    }

    fn default_link_type(&self) -> (r: LinkType) {
        LinkType::Link
    }

    fn child_context(&self) -> (r: Html) {
        Html(self.0 + 1)
    }
}

/// Something that renders to text in a context of type `T`.
pub trait Renderable<T> {
    /// What `render` gives in `context`.
    spec fn rendered(&self, context: T) -> Seq<char>;

    /// Whether `render` may be called in `context`.
    spec fn renderable(&self, context: T) -> bool;

    fn render(&self, render_context: &mut T) -> (r: String)
        requires
            self.renderable(*old(render_context)),
        ensures
            r@ == self.rendered(*old(render_context)),
            *final(render_context) == *old(render_context),
    ;
}

/// A node of a report: a piece of text, or a titled section.
pub enum ReportNode {
    Text(String),
    Section(Section),
}

/// A titled section and the nodes under it, in order.
pub struct Section {
    pub id: String,
    pub title: String,
    pub children: Vec<ReportNode>,
}

/// `n` is a piece of text that reads `t`.
pub open spec fn is_text(n: ReportNode, t: Seq<char>) -> bool {
    n matches ReportNode::Text(s) && s@ == t
}

/// `n` is a section with the default identifier, titled `title`, whose
/// children are `count` nodes.
pub open spec fn is_section(n: ReportNode, title: Seq<char>, count: nat) -> bool {
    n matches ReportNode::Section(s) && s.id@ == seq!['i', 'd'] && s.title@ == title
        && s.children@.len() == count
}

/// The decimal digit `d`.
pub open spec fn digit(d: nat) -> char {
    if d == 0 {
        '0'
    } else if d == 1 {
        '1'
    } else if d == 2 {
        '2'
    } else if d == 3 {
        '3'
    } else if d == 4 {
        '4'
    } else if d == 5 {
        '5'
    } else if d == 6 {
        '6'
    } else if d == 7 {
        '7'
    } else if d == 8 {
        '8'
    } else {
        '9'
    }
}

/// `n` written in decimal, without leading zeros.
pub open spec fn decimal(n: nat) -> Seq<char>
    decreases n,
{
    if n < 10 {
        seq![digit(n)]
    } else {
        decimal(n / 10).push(digit(n % 10))
    }
}

/// `<h{level}>{title}</h{level}>`
pub open spec fn heading(level: nat, title: Seq<char>) -> Seq<char> {
    seq!['<', 'h'] + decimal(level) + seq!['>'] + title + seq!['<', '/', 'h'] + decimal(level)
        + seq!['>']
}

/// A node rendered at heading level `level`: text as it is, a section as
/// its heading followed by its children one level deeper.
pub open spec fn rendered_node(n: ReportNode, level: nat) -> Seq<char>
    decreases n, 0int,
{
    match n {
        ReportNode::Text(t) => t@,
        ReportNode::Section(s) => rendered_section(s, level),
    }
}

/// A section's heading at `level`, then its children rendered at
/// `level + 1`, one per line.
pub open spec fn rendered_section(s: Section, level: nat) -> Seq<char>
    decreases s, s.children@.len() + 1,
{
    heading(level, s.title@) + rendered_children(s, level + 1, s.children@.len() as int)
}

/// The first `k` children of `s` rendered at `level`, joined by newlines.
pub open spec fn rendered_children(s: Section, level: nat, k: int) -> Seq<char>
    decreases s, k,
{
    if k <= 0 || k > s.children@.len() {
        Seq::empty()
    } else if k == 1 {
        rendered_node(s.children@[0], level)
    } else {
        rendered_children(s, level, k - 1) + seq!['\n'] + rendered_node(s.children@[k - 1], level)
    }
}

/// No section under `n`, rendered from `level` on, needs a level past
/// `u32::MAX` for its children.
pub open spec fn fits(n: ReportNode, level: nat) -> bool
    decreases n, 0int,
{
    match n {
        ReportNode::Text(_) => true,
        ReportNode::Section(s) => section_fits(s, level),
    }
}

/// `fits` for a section and its children.
pub open spec fn section_fits(s: Section, level: nat) -> bool
    decreases s, s.children@.len() + 1,
{
    s.children@.len() == 0 || (level < u32::MAX && children_fit(s, level + 1, s.children@.len() as int))
}

/// `fits` for the first `k` children of `s`.
pub open spec fn children_fit(s: Section, level: nat, k: int) -> bool
    decreases s, k,
{
    if k <= 0 || k > s.children@.len() {
        true
    } else {
        children_fit(s, level, k - 1) && fits(s.children@[k - 1], level)
    }
}

proof fn lemma_children_fit(s: Section, level: nat, k: int, j: int)
    requires
        children_fit(s, level, k),
        0 <= j < k <= s.children@.len(),
    ensures
        fits(s.children@[j], level),
    decreases k,
{
    if j < k - 1 {
        lemma_children_fit(s, level, k - 1, j);
    }
}

fn digit_str(d: u32) -> (r: &'static str)
    requires
        d < 10,
    ensures
        r@ == seq![digit(d as nat)],
{
    if d == 0 {
        proof { reveal_strlit("0"); assert("0"@ =~= seq!['0']); }
        "0"
    } else if d == 1 {
        proof { reveal_strlit("1"); assert("1"@ =~= seq!['1']); }
        "1"
    } else if d == 2 {
        proof { reveal_strlit("2"); assert("2"@ =~= seq!['2']); }
        "2"
    } else if d == 3 {
        proof { reveal_strlit("3"); assert("3"@ =~= seq!['3']); }
        "3"
    } else if d == 4 {
        proof { reveal_strlit("4"); assert("4"@ =~= seq!['4']); }
        "4"
    } else if d == 5 {
        proof { reveal_strlit("5"); assert("5"@ =~= seq!['5']); }
        "5"
    } else if d == 6 {
        proof { reveal_strlit("6"); assert("6"@ =~= seq!['6']); }
        "6"
    } else if d == 7 {
        proof { reveal_strlit("7"); assert("7"@ =~= seq!['7']); }
        "7"
    } else if d == 8 {
        proof { reveal_strlit("8"); assert("8"@ =~= seq!['8']); }
        "8"
    } else {
        proof { reveal_strlit("9"); assert("9"@ =~= seq!['9']); }
        "9"
    }
}

/// `n` in decimal.
pub fn decimal_string(n: u32) -> (r: String)
    ensures
        r@ == decimal(n as nat),
    decreases n,
{
    if n < 10 {
        String::from_str(digit_str(n))
    } else {
        let mut s = decimal_string(n / 10);
        s.append(digit_str(n % 10));
        s
    }
}

/// The heading of a section titled `title` at `level`.
fn heading_string(level: u32, title: &String) -> (r: String)
    ensures
        r@ == heading(level as nat, title@),
{
    proof {
        reveal_strlit("<h");
        reveal_strlit(">");
        reveal_strlit("</h");
        assert("<h"@ =~= seq!['<', 'h']);
        assert(">"@ =~= seq!['>']);
        assert("</h"@ =~= seq!['<', '/', 'h']);
    }
    let digits = decimal_string(level);
    let mut out = String::from_str("<h");
    out.append(digits.as_str());
    out.append(">");
    out.append(title.as_str());
    out.append("</h");
    out.append(digits.as_str());
    out.append(">");
    out
}

/// `n` rendered at heading level `level`.
pub fn render_node(n: &ReportNode, level: u32) -> (r: String)
    requires
        fits(*n, level as nat),
    ensures
        r@ == rendered_node(*n, level as nat),
    decreases *n, 0int,
{
    match n {
        ReportNode::Text(t) => t.clone(),
        ReportNode::Section(s) => render_section(s, level),
    }
}

/// `s` rendered at heading level `level`.
pub fn render_section(s: &Section, level: u32) -> (r: String)
    requires
        section_fits(*s, level as nat),
    ensures
        r@ == rendered_section(*s, level as nat),
    decreases *s, s.children@.len() + 1,
{
    let mut out = heading_string(level, &s.title);
    if s.children.len() == 0 {
        proof {
            assert(rendered_children(*s, level as nat + 1, 0) =~= Seq::<char>::empty());
            assert(out@ + Seq::<char>::empty() =~= out@);
        }
        return out;
    }
    let inner = Html(level).child_context();
    let ghost head = out@;
    proof {
        assert(head + rendered_children(*s, inner.0 as nat, 0) =~= head);
    }
    let mut k: usize = 0;
    while k < s.children.len()
        invariant
            k <= s.children@.len(),
            inner.0 == level + 1,
            children_fit(*s, inner.0 as nat, s.children@.len() as int),
            out@ == head + rendered_children(*s, inner.0 as nat, k as int),
        decreases s.children@.len() - k,
    {
        proof {
            lemma_children_fit(*s, inner.0 as nat, s.children@.len() as int, k as int);
        }
        let piece = render_node(&s.children[k], inner.0);
        let ghost done = rendered_children(*s, inner.0 as nat, k as int);
        if k > 0 {
            out.append("\n");
        }
        out.append(piece.as_str());
        proof {
            let next = rendered_children(*s, inner.0 as nat, k + 1);
            if k == 0 {
                assert(next == piece@);
                assert(done =~= Seq::<char>::empty());
                assert(out@ =~= head + next);
            } else {
                reveal_strlit("\n");
                assert("\n"@ =~= seq!['\n']);
                assert(next == done + seq!['\n'] + piece@);
                assert(out@ =~= head + next);
            }
        }
        k = k + 1;
    }
    out
}

impl ReportNode {
    /// An empty section titled `title`.
    pub fn new(title: &str) -> (r: ReportNode)
        ensures
            is_section(r, title@, 0),
    {
        let id = String::from_str("id");
        proof {
            reveal_strlit("id");
            assert("id"@ =~= seq!['i', 'd']);
        }
        ReportNode::Section(Section { id, title: String::from_str(title), children: Vec::new() })
    }

    /// Adds `text`: as a last child of a section, or on a line of its own
    /// after a piece of text.
    pub fn with_text(&mut self, text: &str) -> (r: &mut Self)
        ensures
            *final(r) == *final(self),
            *old(self) matches ReportNode::Text(t) ==> is_text(*r, t@ + seq!['\n'] + text@),
            *old(self) matches ReportNode::Section(s) ==> *r matches ReportNode::Section(s2) && {
                &&& s2.id == s.id
                &&& s2.title == s.title
                &&& s2.children@.len() == s.children@.len() + 1
                &&& s2.children@.subrange(0, s.children@.len() as int) == s.children@
                &&& is_text(s2.children@.last(), text@)
            },
    {
        match self {
            ReportNode::Section(section) => {
                let ghost before = section.children@;
                section.children.push(ReportNode::Text(String::from_str(text)));
                proof {
                    assert(section.children@.subrange(0, before.len() as int) =~= before);
                }
            },
            ReportNode::Text(old_text) => {
                proof {
                    reveal_strlit("\n");
                    assert("\n"@ =~= seq!['\n']);
                }
                let joined = old_text.clone().concat("\n").concat(text);
                *self = ReportNode::Text(joined);
            },
        }
        self
    }
    /// Adds an empty section titled `title`: as a last child of a section;
    /// a piece of text becomes such a section holding that text.
    pub fn with_section(&mut self, title: &str) -> (r: &mut Self)
        ensures
            *final(r) == *final(self),
            *old(self) matches ReportNode::Text(t) ==> is_section(*r, title@, 1) && (
            *r matches ReportNode::Section(s2) && is_text(s2.children@[0], t@)),
            *old(self) matches ReportNode::Section(s) ==> *r matches ReportNode::Section(s2) && {
                &&& s2.id == s.id
                &&& s2.title == s.title
                &&& s2.children@.len() == s.children@.len() + 1
                &&& s2.children@.subrange(0, s.children@.len() as int) == s.children@
                &&& is_section(s2.children@.last(), title@, 0)
            },
    {
        match self {
            ReportNode::Section(section) => {
                let ghost before = section.children@;
                section.children.push(ReportNode::new(title));
                proof {
                    assert(section.children@.subrange(0, before.len() as int) =~= before);
                }
            },
            ReportNode::Text(old_text) => {
                let kept = old_text.clone();
                *self = ReportNode::new(title);
                self.with_text(kept.as_str());
            },
        }
        self
    }
}

impl Renderable<Html> for ReportNode {
    open spec fn rendered(&self, context: Html) -> Seq<char> {
        rendered_node(*self, context.0 as nat)
    }

    open spec fn renderable(&self, context: Html) -> bool {
        fits(*self, context.0 as nat)
    }

    fn render(&self, render_context: &mut Html) -> (r: String) {
        render_node(self, render_context.0)
    }
}

impl Renderable<Html> for Section {
    open spec fn rendered(&self, context: Html) -> Seq<char> {
        rendered_section(*self, context.0 as nat)
    }

    open spec fn renderable(&self, context: Html) -> bool {
        section_fits(*self, context.0 as nat)
    }

    fn render(&self, render_context: &mut Html) -> (r: String) {
        render_section(self, render_context.0)
    }
}

} // verus!
