//! Weekly note files: where an entry goes and the exact text that it adds.
use crate::date::{
    civil_of, days_till_friday, friday_of, this_friday, weekday_of, Date, MAX_DAYS, MIN_DAYS,
};
use crate::text::{
    append_padded, append_signed_padded, has_line_starting_with, has_line_with_prefix, padded,
    signed_padded,
};
use vstd::prelude::*;

verus! {

/// `YYYY-MM-DD` of day number `n`.
pub open spec fn date_text(n: int) -> Seq<char> {
    let t = civil_of(n);
    signed_padded(t.0, 4) + "-"@ + padded(t.1 as nat, 2) + "-"@ + padded(t.2 as nat, 2)
}

/// `HH:MM` of an hour and a minute.
pub open spec fn time_text(hour: int, minute: int) -> Seq<char> {
    padded(hour as nat, 2) + ":"@ + padded(minute as nat, 2)
}

/// Short English name of a day of the week, Monday being 1.
pub open spec fn weekday_name(w: int) -> Seq<char> {
    if w == 1 { "Mon"@ }
    else if w == 2 { "Tue"@ }
    else if w == 3 { "Wed"@ }
    else if w == 4 { "Thu"@ }
    else if w == 5 { "Fri"@ }
    else if w == 6 { "Sat"@ }
    else { "Sun"@ }
}

/// The line that opens the entries of day number `n`, as searched for.
pub open spec fn day_header(n: int) -> Seq<char> {
    "## "@ + date_text(n)
}

/// Name of the note file of the week that ends on day number `friday`.
pub open spec fn note_file_name_of(friday: int) -> Seq<char> {
    date_text(friday) + " journal.md"@
}

/// First line of the note file of the week that ends on day number `friday`.
pub open spec fn week_title(friday: int) -> Seq<char> {
    "# Journal for week ending at "@ + date_text(friday)
}

/// Blank line, then the header line of day number `n` with its day of the week.
pub open spec fn day_block(n: int) -> Seq<char> {
    "\n\n"@ + day_header(n) + " - "@ + weekday_name(weekday_of(n)) + "\n"@
}

/// A sub-header line stamped with the time of `at`.
pub open spec fn header_line(at: Timestamp, header: Seq<char>) -> Seq<char> {
    "### "@ + time_text(at.hour as int, at.minute as int) + " - "@ + header + "\n"@
}

/// A blank line, then the sub-header line; right after a new day block, that block's
/// blank line is shared.
pub open spec fn header_block(at: Timestamp, header: Seq<char>, after_day_block: bool) -> Seq<char> {
    (if after_day_block { "\n"@ } else { "\n\n"@ }) + header_line(at, header)
}

/// Whether an existing note file already holds the header of the day of `at`.
pub open spec fn holds_today(existing: Option<Seq<char>>, at: Timestamp) -> bool {
    match existing {
        Some(t) => has_line_with_prefix(t, day_header(at.date.day_number())),
        None => false,
    }
}

/// Everything that one entry adds to its note file, in order: the week title for a
/// new file, the day block where the day has none yet, the sub-header where one is
/// given, and the message on a new line, or after a space on the line before where it
/// continues the last entry and nothing else was added.
pub open spec fn entry_text(
    existing: Option<Seq<char>>,
    at: Timestamp,
    header: Option<Seq<char>>,
    message: Seq<char>,
    is_continuation: bool,
) -> Seq<char> {
    let n = at.date.day_number();
    let has_today = holds_today(existing, at);
    let title = if existing is None { week_title(friday_of(n)) } else { Seq::empty() };
    let day = if has_today { Seq::empty() } else { day_block(n) };
    let sub = match header {
        Some(h) => header_block(at, h, !has_today),
        None => Seq::empty(),
    };
    let joins = is_continuation && existing is Some && has_today && header is None;
    let line = if message.len() == 0 {
        Seq::empty()
    } else {
        (if joins { " "@ } else { "\n"@ }) + message + "\n"@
    };
    title + day + sub + line
}

/// Whether `t` ends with a newline.
pub open spec fn ends_with_newline(t: Seq<char>) -> bool {
    t.len() > 0 && t.last() == '\n'
}

/// `t` without its trailing newline, if it has one.
pub open spec fn without_final_newline(t: Seq<char>) -> Seq<char> {
    if ends_with_newline(t) { t.drop_last() } else { t }
}

/// The note file after writing `text` to it: text is written over a trailing newline,
/// so entries do not drift apart; where there is nothing to write the file stays as it is.
pub open spec fn written(existing: Option<Seq<char>>, text: Seq<char>) -> Seq<char> {
    match existing {
        None => text,
        Some(t) => if text.len() == 0 { t } else { without_final_newline(t) + text },
    }
}

/// The note file after one entry.
pub open spec fn file_after(
    existing: Option<Seq<char>>,
    at: Timestamp,
    header: Option<Seq<char>>,
    message: Seq<char>,
    is_continuation: bool,
) -> Seq<char> {
    written(existing, entry_text(existing, at, header, message, is_continuation))
}

/// Whether the week of `d` ends on a day that chrono can hold.
pub open spec fn week_in_range(d: Date) -> bool {
    d.wf() && friday_of(d.day_number()) <= MAX_DAYS
}

/// A moment of local time, to the minute.
#[derive(Clone, Copy, Debug, PartialEq, Eq, Structural)]
pub struct Timestamp {
    pub date: Date,
    pub hour: u32,
    pub minute: u32,
}

impl Timestamp {
    pub open spec fn wf(self) -> bool {
        week_in_range(self.date) && self.hour < 24 && self.minute < 60
    }

    /// The moment `hour:minute` of `date`, where that is a time of day and the week of
    /// `date` ends within chrono's range.
    pub fn new(date: Date, hour: u32, minute: u32) -> (r: Option<Timestamp>)
        ensures
            r is Some <==> (Timestamp { date, hour, minute }).wf(),
            r matches Some(t) ==> t == (Timestamp { date, hour, minute }),
    {
        if hour < 24 && minute < 60 && date.days() >= MIN_DAYS && date.days() as i64 + days_till_friday(date.weekday()) as i64 <= MAX_DAYS as i64 {
            Some(Timestamp { date, hour, minute })
        } else {
            None
        }
    }
}

/// Why a note folder cannot be used.
#[derive(Clone, Copy, Debug, PartialEq, Eq, Structural)]
pub enum ConfigError {
    /// The folder is not an absolute path.
    NotAbsolute,
}

/// Where the note files live.
pub struct Config {
    note_folder: String,
}

/// The path of `name` inside `folder`.
pub open spec fn joined_path(folder: Seq<char>, name: Seq<char>) -> Seq<char> {
    if folder.len() > 0 && folder.last() == '/' {
        folder + name
    } else {
        folder + "/"@ + name
    }
}

/// A path that starts at the root.
pub open spec fn is_absolute_path(p: Seq<char>) -> bool {
    p.len() > 0 && p[0] == '/'
}

impl Config {
    /// The note folder.
    pub closed spec fn folder(&self) -> Seq<char> {
        self.note_folder@
    }

    pub open spec fn wf(&self) -> bool {
        is_absolute_path(self.folder())
    }

    /// A configuration for the folder `note_folder`, which must be absolute.
    pub fn new(note_folder: &str) -> (r: Result<Config, ConfigError>)
        ensures
            r is Ok <==> is_absolute_path(note_folder@),
            r matches Ok(c) ==> c.wf() && c.folder() == note_folder@,
            r matches Err(e) ==> e == ConfigError::NotAbsolute,
    {
        if note_folder.unicode_len() > 0 && note_folder.get_char(0) == '/' {
            Ok(Config { note_folder: String::from_str(note_folder) })
        } else {
            Err(ConfigError::NotAbsolute)
        }
    }

    pub fn note_folder(&self) -> (r: &str)
        ensures
            r@ == self.folder(),
    {
        self.note_folder.as_str()
    }

    /// The note file of the week that holds `d`.
    pub fn get_note_file(&self, d: &Date) -> (r: NoteFile)
        requires
            week_in_range(*d),
        ensures
            r.friday.wf(),
            r.friday.day_number() == friday_of(d.day_number()),
            r.note_path@ == joined_path(self.folder(), note_file_name_of(friday_of(d.day_number()))),
    {
        let friday = this_friday(d);
        let name = note_file_name(&friday);
        let mut note_path = String::from_str(self.note_folder.as_str());
        let n = note_path.as_str().unicode_len();
        if n == 0 || note_path.as_str().get_char(n - 1) != '/' {
            note_path.append("/");
        }
        note_path.append(name.as_str());
        NoteFile { friday, note_path }
    }
}

/// The note file of one week.
pub struct NoteFile {
    /// Last day of the week.
    pub friday: Date,
    pub note_path: String,
}

/// What to write to a note file for one entry.
pub struct WritePlan {
    /// Write over the trailing newline of the existing file rather than after it.
    pub over_final_newline: bool,
    /// The text to write.
    pub text: String,
}

/// `YYYY-MM-DD` of a date.
pub fn format_date(d: &Date) -> (r: String)
    requires
        d.wf(),
    ensures
        r@ == date_text(d.day_number()),
{
    let (y, m, day) = d.ymd();
    let mut s = String::new();
    append_signed_padded(&mut s, y, 4);
    s.append("-");
    append_padded(&mut s, m, 2);
    s.append("-");
    append_padded(&mut s, day, 2);
    s
}

/// `HH:MM` of a time of day.
pub fn format_time(hour: u32, minute: u32) -> (r: String)
    ensures
        r@ == time_text(hour as int, minute as int),
{
    let mut s = String::new();
    append_padded(&mut s, hour, 2);
    s.append(":");
    append_padded(&mut s, minute, 2);
    s
}

/// Short English name of the day of the week of `d`.
pub fn weekday_abbrev(d: &Date) -> (r: &'static str)
    ensures
        r@ == weekday_name(weekday_of(d.day_number())),
{
    let w = d.weekday();
    if w == 1 { "Mon" }
    else if w == 2 { "Tue" }
    else if w == 3 { "Wed" }
    else if w == 4 { "Thu" }
    else if w == 5 { "Fri" }
    else if w == 6 { "Sat" }
    else { "Sun" }
}

/// Name of the note file of the week that ends on `friday`.
pub fn note_file_name(friday: &Date) -> (r: String)
    requires
        friday.wf(),
    ensures
        r@ == note_file_name_of(friday.day_number()),
{
    let mut s = format_date(friday);
    s.append(" journal.md");
    s
}

/// The line that opens the entries of the day `d`, as searched for.
pub fn format_day_header(d: &Date) -> (r: String)
    requires
        d.wf(),
    ensures
        r@ == day_header(d.day_number()),
{
    let mut s = String::from_str("## ");
    let date = format_date(d);
    s.append(date.as_str());
    s
}

fn append_day_block(text: &mut String, d: &Date, header_line: &str)
    requires
        d.wf(),
        header_line@ == day_header(d.day_number()),
    ensures
        final(text)@ == old(text)@ + day_block(d.day_number()),
{
    let ghost start = text@;
    text.append("\n\n");
    text.append(header_line);
    text.append(" - ");
    text.append(weekday_abbrev(d));
    text.append("\n");
    assert(text@ =~= start + day_block(d.day_number()));
}

fn append_header_block(text: &mut String, at: &Timestamp, header: &str, after_day_block: bool)
    ensures
        final(text)@ == old(text)@ + header_block(*at, header@, after_day_block),
{
    let ghost start = text@;
    if after_day_block {
        text.append("\n");
    } else {
        text.append("\n\n");
    }
    text.append("### ");
    let time = format_time(at.hour, at.minute);
    text.append(time.as_str());
    text.append(" - ");
    text.append(header);
    text.append("\n");
    assert(text@ =~= start + header_block(*at, header@, after_day_block));
}

fn append_message_line(text: &mut String, message: &str, joins: bool)
    requires
        message@.len() > 0,
    ensures
        final(text)@ == old(text)@ + (if joins { " "@ } else { "\n"@ }) + message@ + "\n"@,
{
    let ghost start = text@;
    if joins {
        text.append(" ");
    } else {
        text.append("\n");
    }
    text.append(message);
    text.append("\n");
    assert(text@ =~= start + (if joins { " "@ } else { "\n"@ }) + message@ + "\n"@);
}

/// What one entry writes to its note file, given the file's content (`None` where
/// the file was just created): see `entry_text` and `written`.
pub fn enter_message(
    existing: Option<&str>,
    at: &Timestamp,
    header: Option<&str>,
    message: &str,
    is_continuation: bool,
) -> (r: WritePlan)
    requires
        at.wf(),
    ensures
        r.text@ == entry_text(
            match existing { Some(t) => Some(t@), None => None },
            *at,
            match header { Some(h) => Some(h@), None => None },
            message@,
            is_continuation,
        ),
        r.over_final_newline == (existing matches Some(t) && ends_with_newline(t@) && r.text@.len() > 0),
{
    let ghost ex = match existing { Some(t) => Some(t@), None => None };
    let ghost hd = match header { Some(h) => Some(h@), None => None };
    let n = at.date;
    let header_line = format_day_header(&n);
    let mut text = String::new();
    let mut has_today = false;
    match existing {
        Some(t) => {
            has_today = has_line_starting_with(t, header_line.as_str());
        },
        None => {
            let friday = this_friday(&n);
            text.append("# Journal for week ending at ");
            let f = format_date(&friday);
            text.append(f.as_str());
        },
    }
    assert(has_today == holds_today(ex, *at));
    let ghost title = text@;
    assert(title =~= (if ex is None { week_title(friday_of(n.day_number())) } else { Seq::empty() }));
    if !has_today {
        append_day_block(&mut text, &n, header_line.as_str());
    }
    match header {
        Some(h) => append_header_block(&mut text, at, h, !has_today),
        None => {},
    }
    if message.unicode_len() > 0 {
        let joins = is_continuation && existing.is_some() && has_today && header.is_none();
        append_message_line(&mut text, message, joins);
    }
    assert(text@ =~= entry_text(ex, *at, hd, message@, is_continuation));
    let over_final_newline = match existing {
        Some(t) => {
            let len = t.unicode_len();
            len > 0 && t.get_char(len - 1) == '\n' && text.as_str().unicode_len() > 0
        },
        None => false,
    };
    WritePlan { over_final_newline, text }
}

} // verus!
