use vstd::prelude::*;
use crate::text::{find_char, has_prefix, is_first_at, join2, slice_chars, starts_with};

verus! {

/// The key that opens a commit's metadata: `parent `.
pub open spec fn parent_key() -> Seq<char> {
    seq!['p', 'a', 'r', 'e', 'n', 't', ' ']
}

/// The metadata stored for a commit: `parent <hash>\n\n<message>`.
pub open spec fn metadata_of(parent: Seq<char>, message: Seq<char>) -> Seq<char> {
    parent_key() + parent + seq!['\n', '\n'] + message
}

/// A parent field holds one line.
pub open spec fn is_one_line(s: Seq<char>) -> bool {
    forall|i: int| 0 <= i < s.len() ==> s[i] != '\n'
}

/// Whether `text` is the metadata of some parent (one line) and message.
pub open spec fn is_metadata(text: Seq<char>) -> bool {
    exists|p: Seq<char>, m: Seq<char>| is_one_line(p) && text == #[trigger] metadata_of(p, m)
}

fn key_str() -> (r: &'static str)
    ensures
        r@ == parent_key(),
{
    let k = "parent ";
    proof {
        reveal_strlit("parent ");
    }
    assert(k@ =~= parent_key());
    k
}

/// Writes the metadata of a commit.
pub fn render_metadata(parent: &str, message: &str) -> (r: String)
    ensures
        r@ == metadata_of(parent@, message@),
{
    let sep = "\n\n";
    proof {
        reveal_strlit("\n\n");
    }
    assert(sep@ =~= seq!['\n', '\n']);
    let a = join2(key_str(), parent);
    let b = join2(a.as_str(), sep);
    join2(b.as_str(), message)
}

proof fn lemma_metadata_parts(p: Seq<char>, m: Seq<char>)
    requires
        is_one_line(p),
    ensures
        has_prefix(metadata_of(p, m), parent_key()),
        is_first_at(metadata_of(p, m), '\n', 7, 7 + p.len() as int),
        metadata_of(p, m)[8 + p.len() as int] == '\n',
        metadata_of(p, m).subrange(7, 7 + p.len() as int) == p,
        metadata_of(p, m).subrange(9 + p.len() as int, metadata_of(p, m).len() as int) == m,
{
    let t = metadata_of(p, m);
    assert(t.subrange(0, 7) =~= parent_key());
    assert(t.subrange(7, 7 + p.len() as int) =~= p);
    assert(t.subrange(9 + p.len() as int, t.len() as int) =~= m);
    assert forall|j: int| 7 <= j < 7 + p.len() as int implies t[j] != '\n' by {
        assert(t[j] == p[j - 7]);
    }
}

/// Splits commit metadata into its parent hash and its message. The message
/// is kept verbatim, embedded newlines included.
pub fn parse_metadata(text: &str) -> (r: Option<(String, String)>)
    ensures
        r is Some <==> is_metadata(text@),
        r matches Some((p, m)) ==> is_one_line(p@) && text@ == metadata_of(p@, m@),
{
    let len = text.unicode_len();
    let k = key_str();
    if !starts_with(text, k) {
        proof {
            assert forall|p: Seq<char>, m: Seq<char>| is_one_line(p) implies text@
                != #[trigger] metadata_of(p, m) by {
                lemma_metadata_parts(p, m);
            }
        }
        return None;
    }
    let nl = find_char(text, '\n', 7);
    match nl {
        None => {
            proof {
                assert forall|p: Seq<char>, m: Seq<char>| is_one_line(p) implies text@
                    != #[trigger] metadata_of(p, m) by {
                    lemma_metadata_parts(p, m);
                }
            }
            None
        },
        Some(i) => {
            if i + 1 >= len || text.get_char(i + 1) != '\n' {
                proof {
                    assert forall|p: Seq<char>, m: Seq<char>| is_one_line(p) implies text@
                        != #[trigger] metadata_of(p, m) by {
                        lemma_metadata_parts(p, m);
                        if text@ == metadata_of(p, m) {
                            assert(i == 7 + p.len() as int);
                        }
                    }
                }
                None
            } else {
                let parent = slice_chars(text, 7, i);
                let message = slice_chars(text, i + 2, len);
                proof {
                    assert(text@ =~= metadata_of(parent@, message@)) by {
                        assert(text@.subrange(0, 7) == parent_key());
                    }
                    assert(is_one_line(parent@));
                }
                Some((parent, message))
            }
        },
    }
}

} // verus!
