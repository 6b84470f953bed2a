//! The markup model: HTML text held as a string that is already escaped,
//! the escaping of text that goes into it, and the shapes of tags and
//! attributes.

use vstd::prelude::*;

verus! {

/// What one character becomes in escaped HTML text: the four characters
/// `&`, `<`, `>` and `"` become entities, every other character stays.
pub open spec fn escape_char(c: char) -> Seq<char> {
    if c == '&' {
        seq!['&', 'a', 'm', 'p', ';']
    } else if c == '<' {
        seq!['&', 'l', 't', ';']
    } else if c == '>' {
        seq!['&', 'g', 't', ';']
    } else if c == '"' {
        seq!['&', 'q', 'u', 'o', 't', ';']
    } else {
        seq![c]
    }
}

/// Escaped HTML text: each character of `s` replaced by `escape_char` of it.
pub open spec fn escape(s: Seq<char>) -> Seq<char>
    decreases s.len(),
{
    if s.len() == 0 {
        seq![]
    } else {
        escape_char(s[0]) + escape(s.drop_first())
    }
}

/// Reads escaped HTML text back: the entities `&amp;`, `&lt;`, `&gt;` and
/// `&quot;` become `&`, `<`, `>` and `"`, every other character stays.
pub open spec fn unescape(s: Seq<char>) -> Seq<char>
    decreases s.len(),
{
    if s.len() == 0 {
        seq![]
    } else if s.len() >= 5 && s.take(5) == escape_char('&') {
        seq!['&'] + unescape(s.skip(5))
    } else if s.len() >= 4 && s.take(4) == escape_char('<') {
        seq!['<'] + unescape(s.skip(4))
    } else if s.len() >= 4 && s.take(4) == escape_char('>') {
        seq!['>'] + unescape(s.skip(4))
    } else if s.len() >= 6 && s.take(6) == escape_char('"') {
        seq!['"'] + unescape(s.skip(6))
    } else {
        seq![s[0]] + unescape(s.drop_first())
    }
}

/// Whether `c` is one of the four characters that escaping replaces.
pub open spec fn is_special(c: char) -> bool {
    c == '&' || c == '<' || c == '>' || c == '"'
}

/// Escaping works character by character: the escaped text of two texts
/// one after the other is their escaped texts one after the other.
pub proof fn lemma_escape_concat(a: Seq<char>, b: Seq<char>)
    ensures
        escape(a + b) == escape(a) + escape(b),
    decreases a.len(),
{
    if a.len() == 0 {
        assert(a + b =~= b);
        assert(escape(a) + escape(b) =~= escape(b));
    } else {
        lemma_escape_concat(a.drop_first(), b);
        assert((a + b).drop_first() =~= a.drop_first() + b);
        assert((a + b)[0] == a[0]);
        assert(escape(a + b) =~= escape_char(a[0]) + (escape(a.drop_first()) + escape(b)));
    }
}

/// Escaped text holds no `<`, `>` or `"`: text spliced into markup can
/// neither open or close a tag nor end an attribute value.
pub proof fn lemma_escape_has_no_markup(s: Seq<char>)
    ensures
        forall|i: int|
            0 <= i < escape(s).len() ==> #[trigger] escape(s)[i] != '<' && escape(s)[i] != '>'
                && escape(s)[i] != '"',
    decreases s.len(),
{
    if s.len() > 0 {
        lemma_escape_has_no_markup(s.drop_first());
        let head = escape_char(s[0]);
        let tail = escape(s.drop_first());
        assert forall|i: int| 0 <= i < escape(s).len() implies #[trigger] escape(s)[i] != '<'
            && escape(s)[i] != '>' && escape(s)[i] != '"' by {
            if i < head.len() {
                assert(escape(s)[i] == head[i]);
            } else {
                assert(escape(s)[i] == tail[i - head.len()]);
            }
        }
    }
}

/// Text without `&`, `<`, `>` or `"` is its own escaped text.
pub proof fn lemma_escape_plain(s: Seq<char>)
    requires
        forall|i: int| 0 <= i < s.len() ==> !is_special(#[trigger] s[i]),
    ensures
        escape(s) == s,
    decreases s.len(),
{
    if s.len() > 0 {
        assert(!is_special(s[0]));
        assert forall|i: int| 0 <= i < s.drop_first().len() implies !is_special(
            #[trigger] s.drop_first()[i],
        ) by {
            assert(s.drop_first()[i] == s[i + 1]);
        }
        lemma_escape_plain(s.drop_first());
        assert(escape(s) =~= s);
    }
}

/// Escaping loses nothing: reading escaped text back gives the text.
pub proof fn lemma_unescape_escape(s: Seq<char>)
    ensures
        unescape(escape(s)) == s,
    decreases s.len(),
{
    if s.len() > 0 {
        let c = s[0];
        let rest = s.drop_first();
        lemma_unescape_escape(rest);
        let e = escape(s);
        let head = escape_char(c);
        assert(e == head + escape(rest));
        assert(e.take(head.len() as int) =~= head);
        assert(e.skip(head.len() as int) =~= escape(rest));
        assert(forall|k: int| 0 <= k < head.len() ==> e[k] == #[trigger] head[k]);
        if c == '&' {
            assert(unescape(e) == seq!['&'] + unescape(escape(rest)));
        } else {
            assert(!(e.len() >= 5 && e.take(5) == escape_char('&'))) by {
                if e.len() >= 5 && e.take(5) == escape_char('&') {
                    if c == '<' || c == '>' || c == '"' {
                        assert(e.take(5)[1] == head[1]);
                    } else {
                        assert(e.take(5)[0] == head[0]);
                    }
                }
            }
            if c == '<' {
                assert(unescape(e) == seq!['<'] + unescape(escape(rest)));
            } else {
                assert(!(e.len() >= 4 && e.take(4) == escape_char('<'))) by {
                    if e.len() >= 4 && e.take(4) == escape_char('<') {
                        if c == '>' || c == '"' {
                            assert(e.take(4)[1] == head[1]);
                        } else {
                            assert(e.take(4)[0] == head[0]);
                        }
                    }
                }
                if c == '>' {
                    assert(unescape(e) == seq!['>'] + unescape(escape(rest)));
                } else {
                    assert(!(e.len() >= 4 && e.take(4) == escape_char('>'))) by {
                        if e.len() >= 4 && e.take(4) == escape_char('>') {
                            if c == '"' {
                                assert(e.take(4)[1] == head[1]);
                            } else {
                                assert(e.take(4)[0] == head[0]);
                            }
                        }
                    }
                    if c == '"' {
                        assert(unescape(e) == seq!['"'] + unescape(escape(rest)));
                    } else {
                        assert(!(e.len() >= 6 && e.take(6) == escape_char('"'))) by {
                            if e.len() >= 6 && e.take(6) == escape_char('"') {
                                assert(e.take(6)[0] == head[0]);
                            }
                        }
                        assert(e.drop_first() =~= escape(rest));
                        assert(unescape(e) == seq![c] + unescape(escape(rest)));
                    }
                }
            }
        }
        assert(s =~= seq![c] + rest);
    }
}

/// Appends `text` to `buffer` through maud's `Escaper`.
///
/// `maud::Escaper::write_str` hands the text to maud's `escape_to_string`,
/// which replaces `&`, `<`, `>` and `"` by `&amp;`, `&lt;`, `&gt;` and
/// `&quot;`, copies every other byte, and always returns `Ok`. The contract
/// states that per character (the four are ASCII, so no other character's
/// UTF-8 bytes can match them).
#[verifier::external_body]
fn escape_into(buffer: &mut String, text: &str)
    ensures
        final(buffer)@ == old(buffer)@ + escape(text@),
{
    let _ = std::fmt::Write::write_str(&mut maud::Escaper::new(buffer), text);
}

/// maud's `DOCTYPE`, the text `<!DOCTYPE html>`.
pub open spec fn doctype_html() -> Seq<char> {
    seq!['<', '!', 'D', 'O', 'C', 'T', 'Y', 'P', 'E', ' ', 'h', 't', 'm', 'l', '>']
}

/// The text of `maud::DOCTYPE`.
///
/// maud declares `DOCTYPE` as `PreEscaped("<!DOCTYPE html>")`; the contract
/// states that literal.
#[verifier::external_body]
fn maud_doctype() -> (s: &'static str)
    ensures
        s@ == doctype_html(),
{
    maud::DOCTYPE.0
}

/// What `markdown::to_html` makes of a markdown text (CommonMark to HTML).
pub uninterp spec fn markdown_html(md: Seq<char>) -> Seq<char>;

/// Calls `markdown::to_html`.
///
/// The result is a function of the text alone, named `markdown_html`; the
/// HTML it builds (the whole of CommonMark) is left unstated. The call does not
/// panic: with default options, which allow no MDX, the `unwrap` inside it
/// never meets an error.
#[verifier::external_body]
pub(crate) fn markdown_to_html(md: &str) -> (html: String)
    ensures
        html@ == markdown_html(md@),
{
    ::markdown::to_html(md)
}

/// A start tag: `<name` and the rendered attributes, then `>`.
pub open spec fn start_tag(name: Seq<char>, attrs: Seq<char>) -> Seq<char> {
    seq!['<'] + name + attrs + seq!['>']
}

/// An end tag: `</name>`.
pub open spec fn end_tag(name: Seq<char>) -> Seq<char> {
    seq!['<', '/'] + name + seq!['>']
}

/// An element with a body: start tag, body, end tag.
pub open spec fn element(name: Seq<char>, attrs: Seq<char>, body: Seq<char>) -> Seq<char> {
    start_tag(name, attrs) + body + end_tag(name)
}

/// A void element (written with `;` in maud): the start tag alone.
pub open spec fn void_element(name: Seq<char>, attrs: Seq<char>) -> Seq<char> {
    start_tag(name, attrs)
}

/// One attribute as maud writes it: ` name="value"`, where `value` is already
/// rendered (escaped where it came from a splice).
pub open spec fn attribute(name: Seq<char>, value: Seq<char>) -> Seq<char> {
    seq![' '] + name + seq!['=', '"'] + value + seq!['"']
}

/// The digit character of `d` (for `d < 10`).
pub open spec fn digit_char(d: nat) -> char {
    if d == 0 { '0' }
    else if d == 1 { '1' }
    else if d == 2 { '2' }
    else if d == 3 { '3' }
    else if d == 4 { '4' }
    else if d == 5 { '5' }
    else if d == 6 { '6' }
    else if d == 7 { '7' }
    else if d == 8 { '8' }
    else { '9' }
}

/// The decimal writing of `n`, as `format!("{}", n)` gives it.
pub open spec fn decimal(n: nat) -> Seq<char>
    decreases n,
{
    if n < 10 {
        seq![digit_char(n)]
    } else {
        decimal(n / 10) + seq![digit_char(n % 10)]
    }
}

/// The decimal writing of a number is made of the digits `0` to `9` alone.
pub proof fn lemma_decimal_digits(n: nat)
    ensures
        decimal(n).len() > 0,
        forall|i: int| 0 <= i < decimal(n).len() ==> '0' <= #[trigger] decimal(n)[i] <= '9',
    decreases n,
{
    if n >= 10 {
        lemma_decimal_digits(n / 10);
        let d = decimal(n / 10);
        assert forall|i: int| 0 <= i < decimal(n).len() implies '0' <= #[trigger] decimal(n)[i]
            <= '9' by {
            if i < d.len() {
                assert(decimal(n)[i] == d[i]);
            }
        }
    }
}

/// The one-character string of the digit `d`.
fn digit_str(d: usize) -> (s: &'static str)
    requires
        d < 10,
    ensures
        s@ == seq![digit_char(d as nat)],
{
    if d == 0 {
        proof {
            reveal_strlit("0");
        }
        "0"
    } else if d == 1 {
        proof {
            reveal_strlit("1");
        }
        "1"
    } else if d == 2 {
        proof {
            reveal_strlit("2");
        }
        "2"
    } else if d == 3 {
        proof {
            reveal_strlit("3");
        }
        "3"
    } else if d == 4 {
        proof {
            reveal_strlit("4");
        }
        "4"
    } else if d == 5 {
        proof {
            reveal_strlit("5");
        }
        "5"
    } else if d == 6 {
        proof {
            reveal_strlit("6");
        }
        "6"
    } else if d == 7 {
        proof {
            reveal_strlit("7");
        }
        "7"
    } else if d == 8 {
        proof {
            reveal_strlit("8");
        }
        "8"
    } else {
        proof {
            reveal_strlit("9");
        }
        "9"
    }
}

/// Appends the decimal writing of `n` to `out`.
pub fn push_decimal(out: &mut String, n: usize)
    ensures
        final(out)@ == old(out)@ + decimal(n as nat),
    decreases n,
{
    if n >= 10 {
        push_decimal(out, n / 10);
    }
    let ghost mid = out@;
    out.append(digit_str(n % 10));
    proof {
        if n >= 10 {
            assert(out@ =~= old(out)@ + decimal(n as nat));
        } else {
            assert(out@ =~= old(out)@ + decimal(n as nat));
        }
    }
}

/// A block of HTML whose text is already escaped (maud's `Markup`).
pub struct Markup {
    html: String,
}

impl View for Markup {
    type V = Seq<char>;

    closed spec fn view(&self) -> Seq<char> {
        self.html@
    }
}

impl Markup {
    /// Empty markup.
    pub fn new() -> (m: Markup)
        ensures
            m@ == Seq::<char>::empty(),
    {
        Markup { html: String::new() }
    }

    /// Markup that holds `html` as it is, with no escaping (maud's `PreEscaped`).
    pub fn pre_escaped(html: String) -> (m: Markup)
        ensures
            m@ == html@,
    {
        Markup { html }
    }

    /// The HTML text.
    pub fn into_string(self) -> (s: String)
        ensures
            s@ == self@,
    {
        self.html
    }

    /// The HTML text, borrowed.
    pub fn as_str(&self) -> (s: &str)
        ensures
            s@ == self@,
    {
        self.html.as_str()
    }

    /// Appends `html` unescaped.
    pub fn push_raw(&mut self, html: &str)
        ensures
            final(self)@ == old(self)@ + html@,
    {
        self.html.append(html);
    }

    /// Appends another block of markup.
    pub fn push_markup(&mut self, other: &Markup)
        ensures
            final(self)@ == old(self)@ + other@,
    {
        self.html.append(other.html.as_str());
    }

    /// Appends `<!DOCTYPE html>` (maud's `DOCTYPE`).
    pub fn push_doctype(&mut self)
        ensures
            final(self)@ == old(self)@ + doctype_html(),
    {
        self.html.append(maud_doctype());
    }

    /// Appends the first part of a start tag: `<name`.
    pub fn open_start(&mut self, name: &str)
        ensures
            final(self)@ == old(self)@ + seq!['<'] + name@,
    {
        proof {
            reveal_strlit("<");
        }
        self.html.append("<");
        self.html.append(name);
    }

    /// Closes a start tag: `>`.
    pub fn close_start(&mut self)
        ensures
            final(self)@ == old(self)@ + seq!['>'],
    {
        proof {
            reveal_strlit(">");
        }
        self.html.append(">");
    }

    /// Appends a whole start tag without attributes: `<name>`.
    pub fn push_start(&mut self, name: &str)
        ensures
            final(self)@ == old(self)@ + start_tag(name@, Seq::<char>::empty()),
    {
        self.open_start(name);
        self.close_start();
        assert(final(self)@ =~= old(self)@ + start_tag(name@, Seq::<char>::empty()));
    }

    /// Appends an end tag: `</name>`.
    pub fn push_end(&mut self, name: &str)
        ensures
            final(self)@ == old(self)@ + end_tag(name@),
    {
        proof {
            reveal_strlit("</");
            reveal_strlit(">");
        }
        let ghost before = self@;
        self.html.append("</");
        self.html.append(name);
        self.html.append(">");
        assert(self@ =~= before + end_tag(name@));
    }

    /// Appends an attribute whose value is written as it stands (a literal
    /// of the template, which has nothing to escape).
    pub fn push_attr_raw(&mut self, name: &str, value: &str)
        ensures
            final(self)@ == old(self)@ + attribute(name@, value@),
    {
        proof {
            reveal_strlit(" ");
            reveal_strlit("=\"");
            reveal_strlit("\"");
        }
        let ghost before = self@;
        self.html.append(" ");
        self.html.append(name);
        self.html.append("=\"");
        self.html.append(value);
        self.html.append("\"");
        assert(self@ =~= before + attribute(name@, value@));
    }

    /// Appends an attribute whose value is spliced in, and so escaped.
    pub fn push_attr(&mut self, name: &str, value: &str)
        ensures
            final(self)@ == old(self)@ + attribute(name@, escape(value@)),
    {
        proof {
            reveal_strlit(" ");
            reveal_strlit("=\"");
            reveal_strlit("\"");
        }
        let ghost before = self@;
        self.html.append(" ");
        self.html.append(name);
        self.html.append("=\"");
        escape_into(&mut self.html, value);
        self.html.append("\"");
        assert(self@ =~= before + attribute(name@, escape(value@)));
    }

    /// Appends `text` escaped.
    pub fn push_text(&mut self, text: &str)
        ensures
            final(self)@ == old(self)@ + escape(text@),
    {
        escape_into(&mut self.html, text);
    }
}

} // verus!
