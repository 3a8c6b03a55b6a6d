use vstd::prelude::*;
use crate::nest::{entry_view, names_view, EntryView, LogEntry};
use crate::text::join2;

verus! {

/// A terminal foreground colour.
#[non_exhaustive]
#[derive(Debug, PartialEq, Eq, Structural, Clone, Copy)]
pub enum Color {
    Red,
    Yellow,
    Green,
}

/// How a piece of text is shown on a terminal.
#[derive(Debug, PartialEq, Eq, Structural, Clone, Copy)]
pub struct TerminalFormatting {
    pub color: Option<Color>,
    pub bold: bool,
}

impl Default for TerminalFormatting {
    /// No colour, not bold.
    fn default() -> (r: TerminalFormatting)
        ensures
            r.color is None,
            !r.bold,
    {
        TerminalFormatting { color: None, bold: false }
    }
}

/// The ANSI escape that selects a colour, empty for none.
pub open spec fn color_code(c: Option<Color>) -> Seq<char> {
    match c {
        Some(Color::Red) => seq!['\u{1b}', '[', '3', '1', 'm'],
        Some(Color::Green) => seq!['\u{1b}', '[', '3', '2', 'm'],
        Some(Color::Yellow) => seq!['\u{1b}', '[', '3', '3', 'm'],
        None => Seq::empty(),
    }
}

/// The ANSI escape that selects bold text, empty when not bold.
pub open spec fn bold_code(bold: bool) -> Seq<char> {
    if bold {
        seq!['\u{1b}', '[', '1', 'm']
    } else {
        Seq::empty()
    }
}

/// The ANSI escape that resets all attributes.
pub open spec fn reset_code() -> Seq<char> {
    seq!['\u{1b}', '[', '0', 'm']
}

/// `text` wrapped in the escapes for `f`, then a reset.
pub open spec fn formatted(text: Seq<char>, f: TerminalFormatting) -> Seq<char> {
    color_code(f.color) + bold_code(f.bold) + text + reset_code()
}

fn color_str(c: Option<Color>) -> (r: &'static str)
    ensures
        r@ == color_code(c),
{
    match c {
        Some(Color::Red) => {
            proof {
                reveal_strlit("\u{1b}[31m");
            }
            let s = "\u{1b}[31m";
            assert(s@ =~= color_code(c));
            s
        },
        Some(Color::Green) => {
            proof {
                reveal_strlit("\u{1b}[32m");
            }
            let s = "\u{1b}[32m";
            assert(s@ =~= color_code(c));
            s
        },
        Some(Color::Yellow) => {
            proof {
                reveal_strlit("\u{1b}[33m");
            }
            let s = "\u{1b}[33m";
            assert(s@ =~= color_code(c));
            s
        },
        None => {
            proof {
                reveal_strlit("");
            }
            let s = "";
            assert(s@ =~= color_code(c));
            s
        },
    }
}

fn bold_str(bold: bool) -> (r: &'static str)
    ensures
        r@ == bold_code(bold),
{
    if bold {
        proof {
            reveal_strlit("\u{1b}[1m");
        }
        let s = "\u{1b}[1m";
        assert(s@ =~= bold_code(bold));
        s
    } else {
        proof {
            reveal_strlit("");
        }
        let s = "";
        assert(s@ =~= bold_code(bold));
        s
    }
}

/// Wraps `text` in ANSI escape codes that show it as `formatting` says.
pub fn terminal_format(text: &str, formatting: TerminalFormatting) -> (r: String)
    ensures
        r@ == formatted(text@, formatting),
{
    let reset = "\u{1b}[0m";
    proof {
        reveal_strlit("\u{1b}[0m");
    }
    assert(reset@ =~= reset_code());
    let mut r = join2(color_str(formatting.color), bold_str(formatting.bold));
    r.append(text);
    r.append(reset);
    r
}

/// Hash headers: yellow and bold.
pub open spec fn header_style() -> TerminalFormatting {
    TerminalFormatting { color: Some(Color::Yellow), bold: true }
}

/// The parentheses round branch names: yellow.
pub open spec fn paren_style() -> TerminalFormatting {
    TerminalFormatting { color: Some(Color::Yellow), bold: false }
}

/// Branch names: green and bold.
pub open spec fn name_style() -> TerminalFormatting {
    TerminalFormatting { color: Some(Color::Green), bold: true }
}

/// A message with every line after the first indented by four spaces.
pub open spec fn indent_body(s: Seq<char>) -> Seq<char>
    decreases s.len(),
{
    if s.len() == 0 {
        Seq::empty()
    } else if s.last() == '\n' {
        indent_body(s.drop_last()) + seq!['\n', ' ', ' ', ' ', ' ']
    } else {
        indent_body(s.drop_last()).push(s.last())
    }
}

/// A message with every line indented by four spaces.
pub open spec fn indented(s: Seq<char>) -> Seq<char> {
    seq![' ', ' ', ' ', ' '] + indent_body(s)
}

/// Branch names, each green and bold, separated by `, `.
pub open spec fn names_text(ns: Seq<Seq<char>>) -> Seq<char>
    decreases ns.len(),
{
    if ns.len() == 0 {
        Seq::empty()
    } else if ns.len() == 1 {
        formatted(ns[0], name_style())
    } else {
        names_text(ns.drop_last()) + seq![',', ' '] + formatted(ns.last(), name_style())
    }
}

/// The branch names of a commit in parentheses; empty when there are none.
pub open spec fn refs_text(ns: Seq<Seq<char>>) -> Seq<char> {
    if ns.len() == 0 {
        Seq::empty()
    } else {
        formatted(seq![' ', '('], paren_style()) + names_text(ns) + formatted(
            seq![')'],
            paren_style(),
        )
    }
}

/// One commit of a history: a header line with the hash and the branches,
/// then the indented message.
pub open spec fn entry_text(e: EntryView) -> Seq<char> {
    formatted(seq!['c', 'o', 'm', 'm', 'i', 't', ' '] + e.0, header_style()) + refs_text(e.2)
        + seq!['\n'] + indented(e.1)
}

/// A whole history, commits separated by a blank line.
pub open spec fn log_text(es: Seq<EntryView>) -> Seq<char>
    decreases es.len(),
{
    if es.len() == 0 {
        Seq::empty()
    } else if es.len() == 1 {
        entry_text(es[0])
    } else {
        log_text(es.drop_last()) + seq!['\n', '\n'] + entry_text(es.last())
    }
}

fn lit_newline_indent() -> (r: &'static str)
    ensures
        r@ == seq!['\n', ' ', ' ', ' ', ' '],
{
    proof {
        reveal_strlit("\n    ");
    }
    let s = "\n    ";
    assert(s@ =~= seq!['\n', ' ', ' ', ' ', ' ']);
    s
}

/// Indents every line of `message` by four spaces.
pub fn indent_message(message: &str) -> (r: String)
    ensures
        r@ == indented(message@),
{
    let lead = "    ";
    proof {
        reveal_strlit("    ");
    }
    assert(lead@ =~= seq![' ', ' ', ' ', ' ']);
    let mut r = lead.to_owned();
    let n = message.unicode_len();
    let mut i: usize = 0;
    assert(message@.subrange(0, 0) =~= Seq::<char>::empty());
    while i < n
        invariant
            n == message@.len(),
            i <= n,
            r@ == seq![' ', ' ', ' ', ' '] + indent_body(message@.subrange(0, i as int)),
        decreases n - i,
    {
        let ghost before = r@;
        assert(message@.subrange(0, i + 1).drop_last() =~= message@.subrange(0, i as int));
        if message.get_char(i) == '\n' {
            r.append(lit_newline_indent());
            assert(r@ =~= seq![' ', ' ', ' ', ' '] + indent_body(message@.subrange(0, i + 1)));
        } else {
            r.append(message.substring_char(i, i + 1));
            assert(r@ =~= seq![' ', ' ', ' ', ' '] + indent_body(message@.subrange(0, i + 1)));
        }
        i += 1;
    }
    assert(message@.subrange(0, n as int) =~= message@);
    r
}

fn yellow() -> (r: TerminalFormatting)
    ensures
        r == paren_style(),
{
    TerminalFormatting { color: Some(Color::Yellow), bold: false }
}

/// The parenthesised branch names of a commit, empty when there are none.
fn render_refs(names: &Vec<String>) -> (r: String)
    ensures
        r@ == refs_text(names_view(names@)),
{
    let ghost ns = names_view(names@);
    if names.len() == 0 {
        return String::new();
    }
    let open = " (";
    let close = ")";
    let sep = ", ";
    proof {
        reveal_strlit(" (");
        reveal_strlit(")");
        reveal_strlit(", ");
    }
    assert(open@ =~= seq![' ', '(']);
    assert(close@ =~= seq![')']);
    assert(sep@ =~= seq![',', ' ']);
    let green = TerminalFormatting { color: Some(Color::Green), bold: true };
    let mut body = terminal_format(names[0].as_str(), green);
    let mut i: usize = 1;
    assert(ns.subrange(0, 1) =~= seq![ns[0]]);
    while i < names.len()
        invariant
            1 <= i <= names@.len(),
            ns == names_view(names@),
            green == name_style(),
            sep@ == seq![',', ' '],
            body@ == names_text(ns.subrange(0, i as int)),
        decreases names@.len() - i,
    {
        assert(ns.subrange(0, i + 1).drop_last() =~= ns.subrange(0, i as int));
        body.append(sep);
        let f = terminal_format(names[i].as_str(), green);
        body.append(f.as_str());
        assert(body@ =~= names_text(ns.subrange(0, i + 1)));
        i += 1;
    }
    assert(ns.subrange(0, i as int) =~= ns);
    let mut r = terminal_format(open, yellow());
    r.append(body.as_str());
    let c = terminal_format(close, yellow());
    r.append(c.as_str());
    r
}

/// Renders one commit of a history.
pub fn render_entry(e: &LogEntry) -> (r: String)
    ensures
        r@ == entry_text(entry_view(*e)),
{
    let head = "commit ";
    let nl = "\n";
    proof {
        reveal_strlit("commit ");
        reveal_strlit("\n");
    }
    assert(head@ =~= seq!['c', 'o', 'm', 'm', 'i', 't', ' ']);
    assert(nl@ =~= seq!['\n']);
    let title = join2(head, e.hash.as_str());
    let mut r = terminal_format(
        title.as_str(),
        TerminalFormatting { color: Some(Color::Yellow), bold: true },
    );
    let refs = render_refs(&e.branches);
    r.append(refs.as_str());
    r.append(nl);
    let body = indent_message(e.message.as_str());
    r.append(body.as_str());
    r
}

/// Renders a history for a terminal, newest commit first.
pub fn render_log(entries: &Vec<LogEntry>) -> (r: String)
    ensures
        r@ == log_text(entries@.map_values(|e: LogEntry| entry_view(e))),
{
    let ghost es = entries@.map_values(|e: LogEntry| entry_view(e));
    let sep = "\n\n";
    proof {
        reveal_strlit("\n\n");
    }
    assert(sep@ =~= seq!['\n', '\n']);
    let mut r = String::new();
    let mut i: usize = 0;
    assert(es.subrange(0, 0) =~= Seq::<EntryView>::empty());
    while i < entries.len()
        invariant
            i <= entries@.len(),
            es == entries@.map_values(|e: LogEntry| entry_view(e)),
            sep@ == seq!['\n', '\n'],
            r@ == log_text(es.subrange(0, i as int)),
        decreases entries@.len() - i,
    {
        assert(es.subrange(0, i + 1).drop_last() =~= es.subrange(0, i as int));
        if i > 0 {
            r.append(sep);
        }
        let t = render_entry(&entries[i]);
        r.append(t.as_str());
        assert(r@ =~= log_text(es.subrange(0, i + 1)));
        i += 1;
    }
    assert(es.subrange(0, i as int) =~= es);
    r
}

} // verus!
