use vstd::prelude::*;
use crate::text::{has_prefix, join2, slice_chars, starts_with};

verus! {

/// What the HEAD slot holds: a commit hash (detached), or the name of a
/// branch under `refs/heads/` that must be read to find the commit.
#[derive(Debug, Clone, PartialEq, Eq)]
pub enum Head {
    Direct(String),
    Symbolic(String),
}

/// The mathematical value of a `Head`.
pub enum HeadView {
    Direct(Seq<char>),
    Symbolic(Seq<char>),
}

impl View for Head {
    type V = HeadView;

    open spec fn view(&self) -> HeadView {
        match self {
            Head::Direct(h) => HeadView::Direct(h@),
            Head::Symbolic(b) => HeadView::Symbolic(b@),
        }
    }
}

/// The marker that begins a symbolic HEAD: `ref: refs/heads/`.
pub open spec fn symbolic_marker() -> Seq<char> {
    seq!['r', 'e', 'f', ':', ' ', 'r', 'e', 'f', 's', '/', 'h', 'e', 'a', 'd', 's', '/']
}

/// The text stored in the HEAD slot for a given head.
pub open spec fn head_text_of(h: HeadView) -> Seq<char> {
    match h {
        HeadView::Direct(hash) => hash,
        HeadView::Symbolic(name) => symbolic_marker() + name,
    }
}

/// How the text of the HEAD slot is read: a symbolic head when it starts
/// with the marker, else a direct hash.
pub open spec fn head_of_text(t: Seq<char>) -> HeadView {
    if has_prefix(t, symbolic_marker()) {
        HeadView::Symbolic(t.subrange(symbolic_marker().len() as int, t.len() as int))
    } else {
        HeadView::Direct(t)
    }
}

fn marker() -> (r: &'static str)
    ensures
        r@ == symbolic_marker(),
{
    let m = "ref: refs/heads/";
    proof {
        reveal_strlit("ref: refs/heads/");
    }
    assert(m@ =~= symbolic_marker());
    m
}

impl Head {
    /// Reads the content of the HEAD slot.
    pub fn parse(text: &str) -> (r: Head)
        ensures
            r@ == head_of_text(text@),
    {
        let m = marker();
        if starts_with(text, m) {
            let n = m.unicode_len();
            Head::Symbolic(slice_chars(text, n, text.unicode_len()))
        } else {
            Head::Direct(text.to_owned())
        }
    }

    /// The content to store in the HEAD slot.
    pub fn to_text(&self) -> (r: String)
        ensures
            r@ == head_text_of(self@),
    {
        match self {
            Head::Direct(h) => h.clone(),
            Head::Symbolic(b) => join2(marker(), b.as_str()),
        }
    }

    /// The head of a freshly initialised nest: symbolic, on `main`.
    pub fn initial() -> (r: Head)
        ensures
            r@ == HeadView::Symbolic(seq!['m', 'a', 'i', 'n']),
    {
        let s = "main";
        proof {
            reveal_strlit("main");
        }
        assert(s@ =~= seq!['m', 'a', 'i', 'n']);
        Head::Symbolic(s.to_owned())
    }
}

} // verus!
