//! The message of an entry, as given on the command line.
use vstd::prelude::*;

verus! {

broadcast use vstd::string::group_string_axioms;

/// What `str::trim` makes of a text.
pub uninterp spec fn trimmed(s: Seq<char>) -> Seq<char>;

/// Relies on `str::trim`: the text without its leading and trailing white space, as a
/// function of the text alone.
#[verifier::external_body]
fn trim_text(s: &str) -> (r: &str)
    ensures
        r@ == trimmed(s@),
{
    s.trim()
}

/// Lines joined by newlines.
pub open spec fn joined_lines(parts: Seq<Seq<char>>) -> Seq<char>
    decreases parts.len(),
{
    if parts.len() == 0 {
        Seq::empty()
    } else if parts.len() == 1 {
        parts[0]
    } else {
        joined_lines(parts.drop_last()) + "\n"@ + parts.last()
    }
}

/// The text starts with the continuation marker `...`.
pub open spec fn has_marker(t: Seq<char>) -> bool {
    t.len() >= 3 && t[0] == '.' && t[1] == '.' && t[2] == '.'
}

/// A message: its text, and whether it continues the entry before it.
pub struct Message {
    pub is_continuation: bool,
    pub content: String,
}

/// The words of a message, joined by newlines.
pub fn join_lines(parts: &Vec<String>) -> (r: String)
    ensures
        r@ == joined_lines(parts@.map_values(|p: String| p@)),
{
    let ghost views = parts@.map_values(|p: String| p@);
    let mut out = String::new();
    let mut i: usize = 0;
    while i < parts.len()
        invariant
            i <= parts@.len(),
            views == parts@.map_values(|p: String| p@),
            out@ == joined_lines(views.subrange(0, i as int)),
        decreases parts@.len() - i,
    {
        if i > 0 {
            out.append("\n");
        }
        out.append(parts[i].as_str());
        proof {
            let s = views.subrange(0, i + 1);
            assert(s.drop_last() =~= views.subrange(0, i as int));
            if i == 0 {
                assert(out@ =~= joined_lines(s));
            }
        }
        i = i + 1;
    }
    assert(views.subrange(0, i as int) =~= views);
    out
}

/// The message of an already trimmed text: a leading `...` marks a continuation and is
/// taken off.
pub fn message_from_trimmed(t: &str) -> (r: Message)
    ensures
        r.is_continuation == has_marker(t@),
        r.content@ == if has_marker(t@) { t@.subrange(3, t@.len() as int) } else { t@ },
{
    let n = t.unicode_len();
    if n >= 3 && t.get_char(0) == '.' && t.get_char(1) == '.' && t.get_char(2) == '.' {
        Message { is_continuation: true, content: String::from_str(t.substring_char(3, n)) }
    } else {
        Message { is_continuation: false, content: String::from_str(t) }
    }
}

/// The message of a text as given: trimmed, then read as `message_from_trimmed` does.
pub fn parse_message(body: &str) -> (r: Message)
    ensures
        r.is_continuation == has_marker(trimmed(body@)),
        r.content@ == if has_marker(trimmed(body@)) {
            trimmed(body@).subrange(3, trimmed(body@).len() as int)
        } else {
            trimmed(body@)
        },
{
    message_from_trimmed(trim_text(body))
}

} // verus!
