//! What holds of note files across entries.
use crate::date::friday_of;
use crate::note::{
    day_block, day_header, date_text, entry_text, ends_with_newline, file_after, header_line,
    holds_today, week_title, without_final_newline, Timestamp,
};
use crate::text::{decimal, has_line_with_prefix, line_starts_with_at, padded, signed_padded};
use vstd::prelude::*;

verus! {

proof fn lemma_decimal_no_newline(n: nat)
    ensures
        !decimal(n).contains('\n'),
    decreases n,
{
    if n >= 10 {
        lemma_decimal_no_newline(n / 10);
        let d = decimal(n / 10);
        let e = decimal(n);
        assert forall|i: int| 0 <= i < e.len() implies e[i] != '\n' by {
            if i < d.len() {
                assert(e[i] == d[i]);
            }
        }
    }
}

proof fn lemma_padded_no_newline(n: nat, w: nat)
    ensures
        !padded(n, w).contains('\n'),
{
    lemma_decimal_no_newline(n);
    let s = decimal(n);
    let p = padded(n, w);
    if s.len() < w {
        let z = Seq::new((w - s.len()) as nat, |i: int| '0');
        assert forall|i: int| 0 <= i < p.len() implies p[i] != '\n' by {
            if i >= z.len() {
                assert(p[i] == s[i - z.len()]);
            }
        }
    }
}

proof fn lemma_concat_no_newline(a: Seq<char>, b: Seq<char>)
    requires
        !a.contains('\n'),
        !b.contains('\n'),
    ensures
        !(a + b).contains('\n'),
{
    assert forall|i: int| 0 <= i < (a + b).len() implies (a + b)[i] != '\n' by {
        if i < a.len() {
            assert((a + b)[i] == a[i]);
        } else {
            assert((a + b)[i] == b[i - a.len()]);
        }
    }
}

proof fn lemma_day_header_one_line(n: int)
    ensures
        !day_header(n).contains('\n'),
        day_header(n).len() > 0,
        day_header(n)[0] == '#',
{
    reveal_strlit("## ");
    reveal_strlit("-");
    let t = crate::date::civil_of(n);
    lemma_padded_no_newline(t.1 as nat, 2);
    lemma_padded_no_newline(t.2 as nat, 2);
    let y = signed_padded(t.0, 4);
    if t.0 >= 0 {
        lemma_padded_no_newline(t.0 as nat, 4);
    } else {
        lemma_padded_no_newline((-t.0) as nat, 3);
        lemma_concat_no_newline(seq!['-'], padded((-t.0) as nat, 3));
    }
    lemma_concat_no_newline(y, "-"@);
    lemma_concat_no_newline(y + "-"@, padded(t.1 as nat, 2));
    lemma_concat_no_newline(y + "-"@ + padded(t.1 as nat, 2), "-"@);
    lemma_concat_no_newline(y + "-"@ + padded(t.1 as nat, 2) + "-"@, padded(t.2 as nat, 2));
    lemma_concat_no_newline("## "@, date_text(n));
}

/// A line that starts with `p` stays one after the trailing newline is overwritten
/// and text is added.
proof fn lemma_line_kept(t: Seq<char>, p: Seq<char>, s: Seq<char>)
    requires
        has_line_with_prefix(t, p),
        p.len() > 0,
    ensures
        has_line_with_prefix(without_final_newline(t) + s, p),
{
    let i = choose|i: int| line_starts_with_at(t, i, p);
    let k = without_final_newline(t);
    let u = k + s;
    if ends_with_newline(t) {
        if i + p.len() == t.len() {
            assert(t.subrange(i, i + p.len())[p.len() - 1] == t.last());
            assert(p.contains(p[p.len() - 1]));
        }
    }
    assert(i + p.len() <= k.len());
    assert(u.subrange(i, i + p.len()) =~= t.subrange(i, i + p.len()));
    if i > 0 {
        assert(u[i - 1] == t[i - 1]);
    }
    assert(line_starts_with_at(u, i, p));
}

/// A day block holds its day's header at the start of a line.
proof fn lemma_day_block_found(b: Seq<char>, n: int, s: Seq<char>)
    ensures
        has_line_with_prefix(b + day_block(n) + s, day_header(n)),
{
    reveal_strlit("\n\n");
    lemma_day_header_one_line(n);
    let h = day_header(n);
    let u = b + day_block(n) + s;
    let i: int = b.len() as int + 2;
    assert(u =~= b + "\n\n"@ + h + (" - "@ + crate::note::weekday_name(crate::date::weekday_of(n)) + "\n"@ + s));
    assert(u[i - 1] == '\n');
    assert(u.subrange(i, i + h.len()) =~= h);
    assert(line_starts_with_at(u, i, h));
}

/// After any entry, the note file holds the header of the entry's day.
proof fn lemma_today_after_entry(
    existing: Option<Seq<char>>,
    at: Timestamp,
    header: Option<Seq<char>>,
    message: Seq<char>,
    is_continuation: bool,
)
    ensures
        holds_today(Some(file_after(existing, at, header, message, is_continuation)), at),
{
    let n = at.date.day_number();
    let text = entry_text(existing, at, header, message, is_continuation);
    let f = file_after(existing, at, header, message, is_continuation);
    lemma_day_header_one_line(n);
    if holds_today(existing, at) {
        let t = existing->0;
        if text.len() > 0 {
            lemma_line_kept(t, day_header(n), text);
        }
    } else {
        let title = if existing is None { week_title(friday_of(n)) } else { Seq::empty() };
        let rest = text.subrange((title.len() + day_block(n).len()) as int, text.len() as int);
        assert(text =~= title + day_block(n) + rest);
        match existing {
            None => {
                lemma_day_block_found(title, n, rest);
            },
            Some(t) => {
                assert(f =~= without_final_newline(t) + title + day_block(n) + rest);
                lemma_day_block_found(without_final_newline(t) + title, n, rest);
            },
        }
    }
}

/// After an entry with a message, the note file ends with a newline.
proof fn lemma_ends_with_newline_after_message(
    existing: Option<Seq<char>>,
    at: Timestamp,
    header: Option<Seq<char>>,
    message: Seq<char>,
    is_continuation: bool,
)
    requires
        message.len() > 0,
    ensures
        ends_with_newline(file_after(existing, at, header, message, is_continuation)),
{
    reveal_strlit("\n");
    let text = entry_text(existing, at, header, message, is_continuation);
    assert(text.last() == '\n');
}

/// A new week's file starts with the week title, then the day block, then the
/// sub-header if one is given and the message on a line of its own.
pub proof fn lemma_new_week_file(
    at: Timestamp,
    header: Option<Seq<char>>,
    message: Seq<char>,
    is_continuation: bool,
)
    ensures
        file_after(None, at, header, message, is_continuation) == week_title(
            friday_of(at.date.day_number()),
        ) + day_block(at.date.day_number()) + match header {
            Some(h) => "\n"@ + header_line(at, h),
            None => Seq::empty(),
        } + if message.len() == 0 {
            Seq::empty()
        } else {
            "\n"@ + message + "\n"@
        },
{
    assert(file_after(None, at, header, message, is_continuation) =~= week_title(
        friday_of(at.date.day_number()),
    ) + day_block(at.date.day_number()) + match header {
        Some(h) => "\n"@ + header_line(at, h),
        None => Seq::empty(),
    } + if message.len() == 0 {
        Seq::empty()
    } else {
        "\n"@ + message + "\n"@
    });
}

/// Writing the same plain message twice on a day whose header the file lacks adds
/// the day header once and the message on two lines, one after the other.
pub proof fn lemma_same_message_twice(
    existing: Option<Seq<char>>,
    at: Timestamp,
    later: Timestamp,
    message: Seq<char>,
)
    requires
        at.date == later.date,
        message.len() > 0,
        !holds_today(existing, at),
    ensures
        ({
            let first = file_after(existing, at, None, message, false);
            let before = match existing {
                Some(t) => without_final_newline(t),
                None => week_title(friday_of(at.date.day_number())),
            };
            file_after(Some(first), later, None, message, false) == before + day_block(
                at.date.day_number(),
            ) + "\n"@ + message + "\n"@ + message + "\n"@
        }),
{
    reveal_strlit("\n");
    let n = at.date.day_number();
    let first = file_after(existing, at, None, message, false);
    let before = match existing {
        Some(t) => without_final_newline(t),
        None => week_title(friday_of(n)),
    };
    assert(first =~= before + day_block(n) + "\n"@ + message + "\n"@);
    lemma_today_after_entry(existing, at, None, message, false);
    assert(holds_today(Some(first), later));
    lemma_ends_with_newline_after_message(existing, at, None, message, false);
    let second = file_after(Some(first), later, None, message, false);
    assert(entry_text(Some(first), later, None, message, false) =~= "\n"@ + message + "\n"@);
    assert(first.drop_last() =~= before + day_block(n) + "\n"@ + message);
    assert(second =~= before + day_block(n) + "\n"@ + message + "\n"@ + message + "\n"@);
}

/// A continuation message right after a plain message of the same day goes on the
/// same line, after one space.
pub proof fn lemma_continuation_joins_line(
    existing: Option<Seq<char>>,
    at: Timestamp,
    later: Timestamp,
    message: Seq<char>,
    continuation: Seq<char>,
)
    requires
        at.date == later.date,
        message.len() > 0,
        continuation.len() > 0,
    ensures
        ({
            let first = file_after(existing, at, None, message, false);
            file_after(Some(first), later, None, continuation, true) == first.drop_last() + " "@
                + continuation + "\n"@
        }),
{
    let first = file_after(existing, at, None, message, false);
    lemma_today_after_entry(existing, at, None, message, false);
    assert(holds_today(Some(first), later));
    lemma_ends_with_newline_after_message(existing, at, None, message, false);
    reveal_strlit(" ");
    reveal_strlit("\n");
    assert(entry_text(Some(first), later, None, continuation, true) =~= " "@ + continuation
        + "\n"@);
}

/// A continuation message given with a sub-header does not join the line before: it
/// goes on a new line under the sub-header.
pub proof fn lemma_header_breaks_continuation(
    existing: Option<Seq<char>>,
    at: Timestamp,
    later: Timestamp,
    message: Seq<char>,
    header: Seq<char>,
    continuation: Seq<char>,
)
    requires
        at.date == later.date,
        message.len() > 0,
        continuation.len() > 0,
    ensures
        ({
            let first = file_after(existing, at, None, message, false);
            file_after(Some(first), later, Some(header), continuation, true) == first.drop_last()
                + "\n\n"@ + header_line(later, header) + "\n"@ + continuation + "\n"@
        }),
{
    let first = file_after(existing, at, None, message, false);
    lemma_today_after_entry(existing, at, None, message, false);
    assert(holds_today(Some(first), later));
    lemma_ends_with_newline_after_message(existing, at, None, message, false);
    assert(entry_text(Some(first), later, Some(header), continuation, true) =~= "\n\n"@
        + header_line(later, header) + "\n"@ + continuation + "\n"@);
}

/// Where the existing file ends with a newline, new text goes over that newline, and
/// what comes after the old last line opens with at most one blank line, which is
/// followed by a header line.
pub proof fn lemma_single_separator(
    t: Seq<char>,
    at: Timestamp,
    header: Option<Seq<char>>,
    message: Seq<char>,
    is_continuation: bool,
)
    requires
        ends_with_newline(t),
        entry_text(Some(t), at, header, message, is_continuation).len() > 0,
        message.len() == 0 || message[0] != '\n',
    ensures
        ({
            let text = entry_text(Some(t), at, header, message, is_continuation);
            &&& file_after(Some(t), at, header, message, is_continuation) == t.drop_last() + text
            &&& text[0] == ' ' || text[0] == '\n'
            &&& text.len() >= 2 && text[0] == '\n' && text[1] == '\n' ==> text.len() >= 3
                && text[2] == '#'
        }),
{
    let n = at.date.day_number();
    let text = entry_text(Some(t), at, header, message, is_continuation);
    reveal_strlit("\n\n");
    reveal_strlit("### ");
    reveal_strlit("\n");
    reveal_strlit(" ");
    lemma_day_header_one_line(n);
    if !holds_today(Some(t), at) {
        assert(text[0] == '\n' && text[1] == '\n' && text[2] == day_header(n)[0]);
    } else if header is Some {
        assert(text[0] == '\n' && text[1] == '\n' && text[2] == '#');
    } else {
        assert(text[1] == message[0]);
    }
}

} // verus!
