//! The results surface: its colour theme, the line formatter, and the model
//! of what has been rendered into the surface. The host's own screen is the
//! caller's business; each printing method returns the rendered text and
//! records it here, so the caller can hand it to the host unaltered.

use crate::text::{
    copy_range, expand_tabs, from_chars, join_from, push_char, spec_clean, spec_count, spec_join,
    spec_split, spec_trim, split_all, to_chars, trim_chars, lemma_split_len, lemma_split_no_sep,
    lemma_split_concat, lemma_join_split,
};
use vstd::prelude::*;
use vstd::string::StringExecFns;

verus! {

/// The colour escape sequences the surface renders with. The host supplies
/// them; the formatter only concatenates them.
pub struct Theme {
    /// Colour of the timestamp field.
    pub date_color: String,
    /// Colour of the author field.
    pub nick_color: String,
    /// Colour of the brackets around the status tag.
    pub delimiter_color: String,
    /// Colour of the status tag itself.
    pub tag_color: String,
    /// The sequence that returns to unstyled text.
    pub reset: String,
}

/// A theme at the specification level.
pub struct ThemeView {
    pub date_color: Seq<char>,
    pub nick_color: Seq<char>,
    pub delimiter_color: Seq<char>,
    pub tag_color: Seq<char>,
    pub reset: Seq<char>,
}

impl View for Theme {
    type V = ThemeView;

    open spec fn view(&self) -> ThemeView {
        ThemeView {
            date_color: self.date_color@,
            nick_color: self.nick_color@,
            delimiter_color: self.delimiter_color@,
            tag_color: self.tag_color@,
            reset: self.reset@,
        }
    }
}

/// A theme with no control sequences at all.
pub open spec fn spec_plain_theme() -> ThemeView {
    ThemeView {
        date_color: Seq::empty(),
        nick_color: Seq::empty(),
        delimiter_color: Seq::empty(),
        tag_color: Seq::empty(),
        reset: Seq::empty(),
    }
}

impl Theme {
    /// A theme whose every colour is the empty sequence.
    pub fn plain() -> (t: Theme)
        ensures
            t@ == spec_plain_theme(),
    {
        Theme {
            date_color: String::new(),
            nick_color: String::new(),
            delimiter_color: String::new(),
            tag_color: String::new(),
            reset: String::new(),
        }
    }

    /// A theme rendering with the same colours as this one.
    pub fn duplicate(&self) -> (t: Theme)
        ensures
            t@ == self@,
    {
        Theme {
            date_color: self.date_color.clone(),
            nick_color: self.nick_color.clone(),
            delimiter_color: self.delimiter_color.clone(),
            tag_color: self.tag_color.clone(),
            reset: self.reset.clone(),
        }
    }
}

/// The fixed name that identifies the results surface to the host; every
/// search reports into the surface of this name.
pub fn surface_name() -> (s: &'static str)
    ensures
        s@ == "ripgrep"@,
{
    "ripgrep"
}

/// The fixed descriptive title the results surface is created with.
pub fn surface_title() -> (s: &'static str)
    ensures
        s@ == "ripgrep output buffer"@,
{
    "ripgrep output buffer"
}

/// The glyphs that mark an author's role; a leading one is rendered unstyled
/// ahead of the coloured author name.
pub open spec fn is_role_prefix(c: char) -> bool {
    c == '&' || c == '@' || c == '!' || c == '+' || c == '%'
}

fn role_prefix(c: char) -> (b: bool)
    ensures
        b == is_role_prefix(c),
{
    c == '&' || c == '@' || c == '!' || c == '+' || c == '%'
}

/// The (date, author, message) reading of a raw matched line: with at least
/// two tabs, the first two tab-separated fields, trimmed, are the date and
/// the author, and the rest — trimmed, its remaining tabs expanded to runs
/// of four spaces — is the message; with fewer than two tabs, date and
/// author are empty and the entire line, unaltered, is the message.
pub open spec fn spec_split_line(line: Seq<char>) -> (Seq<char>, Seq<char>, Seq<char>) {
    let fields = spec_split(line, '\t');
    if fields.len() >= 3 {
        (spec_trim(fields[0]), spec_trim(fields[1]), spec_clean(spec_join(fields.skip(2), '\t')))
    } else {
        (Seq::empty(), Seq::empty(), line)
    }
}

/// The author's display form: a role glyph kept unstyled, then the name in
/// the author colour, then the reset. An empty author renders as nothing.
pub open spec fn spec_colorize_nick(theme: ThemeView, nick: Seq<char>) -> Seq<char> {
    if nick.len() == 0 {
        Seq::empty()
    } else if is_role_prefix(nick[0]) {
        seq![nick[0]] + theme.nick_color + nick.drop_first() + theme.reset
    } else {
        theme.nick_color + nick + theme.reset
    }
}

/// A matched line's display form: coloured date, a space, the author's
/// display form, a space, and the unstyled message.
pub open spec fn spec_format_line(theme: ThemeView, line: Seq<char>) -> Seq<char> {
    theme.date_color + spec_split_line(line).0 + theme.reset + seq![' '] + spec_colorize_nick(
        theme,
        spec_split_line(line).1,
    ) + seq![' '] + spec_split_line(line).2
}

/// A status line's display form: the bracketed tag in the delimiter and tag
/// colours, a reset, a tab, and the status text.
pub open spec fn spec_status_line(theme: ThemeView, text: Seq<char>) -> Seq<char> {
    theme.delimiter_color + seq!['['] + theme.tag_color + "grep"@ + theme.delimiter_color + seq![
        ']',
    ] + theme.reset + seq!['\t'] + text
}

/// The results surface: the theme it renders with, every line rendered into
/// it in order, and whether focus has been requested for it.
pub struct GrepBuffer {
    theme: Theme,
    lines: Vec<String>,
    switched: bool,
}

/// A results surface at the specification level.
pub struct BufferModel {
    pub theme: ThemeView,
    pub lines: Seq<Seq<char>>,
    pub switched: bool,
}

impl View for GrepBuffer {
    type V = BufferModel;

    closed spec fn view(&self) -> BufferModel {
        BufferModel { theme: self.theme@, lines: self.lines.deep_view(), switched: self.switched }
    }
}

impl GrepBuffer {
    /// A fresh, empty surface rendering with the given theme.
    pub fn new(theme: &Theme) -> (b: GrepBuffer)
        ensures
            b@ == (BufferModel { theme: theme@, lines: Seq::empty(), switched: false }),
    {
        let b = GrepBuffer { theme: theme.duplicate(), lines: Vec::new(), switched: false };
        proof {
            assert(b@.lines =~= Seq::<Seq<char>>::empty());
        }
        b
    }

    /// Splits a raw matched line into date, author and message.
    pub fn split_line(line: &str) -> (r: (String, String, String))
        ensures
            r.0@ == spec_split_line(line@).0,
            r.1@ == spec_split_line(line@).1,
            r.2@ == spec_split_line(line@).2,
    {
        let chars = to_chars(line);
        let fields = split_all(&chars, '\t');
        proof {
            assert(fields.deep_view().len() == fields@.len());
        }
        if fields.len() >= 3 {
            proof {
                assert(fields@[0].deep_view() =~= fields@[0]@);
                assert(fields@[1].deep_view() =~= fields@[1]@);
            }
            let date = trim_chars(&fields[0]);
            let nick = trim_chars(&fields[1]);
            let joined = join_from(&fields, 2, '\t');
            let trimmed = trim_chars(&joined);
            let msg = expand_tabs(&trimmed);
            (from_chars(&date), from_chars(&nick), from_chars(&msg))
        } else {
            (String::new(), String::new(), line.to_owned())
        }
    }

    /// The author's display form under this surface's theme.
    pub fn colorize_nick(&self, nick: &str) -> (r: String)
        ensures
            r@ == spec_colorize_nick(self@.theme, nick@),
    {
        let chars = to_chars(nick);
        let mut out = String::new();
        if chars.len() == 0 {
            return out;
        }
        let c = chars[0];
        if role_prefix(c) {
            push_char(&mut out, c);
            out.append(self.theme.nick_color.as_str());
            let rest = copy_range(&chars, 1, chars.len());
            let rest_str = from_chars(&rest);
            out.append(rest_str.as_str());
            out.append(self.theme.reset.as_str());
            proof {
                assert(rest@ =~= nick@.drop_first());
                assert(out@ =~= spec_colorize_nick(self@.theme, nick@));
            }
        } else {
            out.append(self.theme.nick_color.as_str());
            out.append(nick);
            out.append(self.theme.reset.as_str());
            proof {
                assert(out@ =~= spec_colorize_nick(self@.theme, nick@));
            }
        }
        out
    }

    /// A raw matched line's display form under this surface's theme.
    pub fn format_line(&self, line: &str) -> (r: String)
        ensures
            r@ == spec_format_line(self@.theme, line@),
    {
        let parts = GrepBuffer::split_line(line);
        let colored = self.colorize_nick(parts.1.as_str());
        let mut out = String::new();
        out.append(self.theme.date_color.as_str());
        out.append(parts.0.as_str());
        out.append(self.theme.reset.as_str());
        push_char(&mut out, ' ');
        out.append(colored.as_str());
        push_char(&mut out, ' ');
        out.append(parts.2.as_str());
        proof {
            assert(out@ =~= spec_format_line(self@.theme, line@));
        }
        out
    }

    /// Renders one matched line into the surface and returns its display
    /// form for the host.
    pub fn print(&mut self, line: &str) -> (rendered: String)
        ensures
            rendered@ == spec_format_line(old(self)@.theme, line@),
            final(self)@ == (BufferModel {
                theme: old(self)@.theme,
                lines: old(self)@.lines.push(rendered@),
                switched: old(self)@.switched,
            }),
    {
        let rendered = self.format_line(line);
        let ghost pre = self.lines.deep_view();
        self.lines.push(rendered.clone());
        proof {
            assert(self.lines.deep_view() =~~= pre.push(rendered@));
        }
        rendered
    }

    /// Renders one status line into the surface and returns its display form
    /// for the host.
    pub fn print_status(&mut self, text: &str) -> (rendered: String)
        ensures
            rendered@ == spec_status_line(old(self)@.theme, text@),
            final(self)@ == (BufferModel {
                theme: old(self)@.theme,
                lines: old(self)@.lines.push(rendered@),
                switched: old(self)@.switched,
            }),
    {
        let mut out = String::new();
        out.append(self.theme.delimiter_color.as_str());
        push_char(&mut out, '[');
        out.append(self.theme.tag_color.as_str());
        out.append("grep");
        out.append(self.theme.delimiter_color.as_str());
        push_char(&mut out, ']');
        out.append(self.theme.reset.as_str());
        push_char(&mut out, '\t');
        out.append(text);
        proof {
            assert(out@ =~= spec_status_line(self@.theme, text@));
        }
        let ghost pre = self.lines.deep_view();
        self.lines.push(out.clone());
        proof {
            assert(self.lines.deep_view() =~~= pre.push(out@));
        }
        out
    }

    /// Records the request to bring this surface into focus.
    pub fn switch_to(&mut self)
        ensures
            final(self)@ == (BufferModel {
                theme: old(self)@.theme,
                lines: old(self)@.lines,
                switched: true,
            }),
    {
        self.switched = true;
    }

    /// Every line rendered into the surface, in order.
    pub fn rendered_lines(&self) -> (r: &Vec<String>)
        ensures
            r.deep_view() == self@.lines,
    {
        &self.lines
    }

    /// Whether focus has been requested for the surface.
    pub fn was_switched(&self) -> (b: bool)
        ensures
            b == self@.switched,
    {
        self.switched
    }
}

/// A line with fewer than two tabs carries no metadata: it splits into an
/// empty date, an empty author, and the entire line, unaltered, as the
/// message.
pub proof fn lemma_split_line_no_metadata(line: Seq<char>)
    requires
        spec_count(line, '\t') < 2,
    ensures
        spec_split_line(line) == (Seq::<char>::empty(), Seq::<char>::empty(), line),
{
    lemma_split_len(line, '\t');
}

/// A line with at least two tabs splits exactly at the first two: the fields
/// before them become the date and the author, and everything after them,
/// tabs included, becomes the message.
pub proof fn lemma_split_line_metadata(date: Seq<char>, nick: Seq<char>, msg: Seq<char>)
    requires
        !date.contains('\t'),
        !nick.contains('\t'),
    ensures
        spec_split_line(date + seq!['\t'] + nick + seq!['\t'] + msg) == (
            spec_trim(date),
            spec_trim(nick),
            spec_clean(msg),
        ),
{
    let line = date + seq!['\t'] + nick + seq!['\t'] + msg;
    let tail = nick + seq!['\t'] + msg;
    assert(forall|k: int| 0 <= k < date.len() ==> date[k] != '\t') by {
        assert(!date.contains('\t'));
    }
    assert(forall|k: int| 0 <= k < nick.len() ==> nick[k] != '\t') by {
        assert(!nick.contains('\t'));
    }
    lemma_split_prefix(date, tail);
    lemma_split_prefix(nick, msg);
    lemma_split_len(msg, '\t');
    let sm = spec_split(msg, '\t');
    assert(line =~= date + seq!['\t'] + tail);
    assert(spec_split(line, '\t') =~= seq![date, nick] + sm);
    let fields = spec_split(line, '\t');
    assert(fields.len() >= 3);
    assert(fields[0] == date);
    assert(fields[1] == nick);
    assert(fields.skip(2) =~= sm);
    lemma_join_split(msg, '\t');
}

/// Splitting `field + tab + rest` at tabs, where `field` is tab-free, yields
/// `field` and then the fields of `rest`.
proof fn lemma_split_prefix(field: Seq<char>, rest: Seq<char>)
    requires
        forall|k: int| 0 <= k < field.len() ==> field[k] != '\t',
    ensures
        spec_split(field + seq!['\t'] + rest, '\t') == seq![field] + spec_split(rest, '\t'),
{
    lemma_split_no_sep(field, '\t');
    assert(spec_split(field + seq!['\t'], '\t') == spec_split(field, '\t').push(
        Seq::<char>::empty(),
    )) by {
        assert((field + seq!['\t']).last() == '\t');
        assert((field + seq!['\t']).drop_last() =~= field);
        assert((field + seq!['\t']).len() > 0);
    }
    lemma_split_concat(field + seq!['\t'], rest, '\t');
    lemma_split_len(rest, '\t');
    let su = spec_split(field + seq!['\t'], '\t');
    let sr = spec_split(rest, '\t');
    assert(su == seq![field, Seq::<char>::empty()]) by {
        assert(spec_split(field, '\t').push(Seq::<char>::empty()) =~= seq![
            field,
            Seq::<char>::empty(),
        ]);
    }
    assert((field + seq!['\t']) + rest =~= field + seq!['\t'] + rest);
    assert(su.drop_last() + seq![su.last() + sr.first()] + sr.drop_first() =~= seq![field] + sr);
}

} // verus!
