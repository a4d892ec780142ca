pub mod message;
pub mod parse;
pub mod strings;
pub mod wrap;

use vstd::prelude::*;
use self::strings::{all_ascii, ascii_lower_char, concat2, str_lowercase, to_lowercase};
use self::wrap::{spec_wrap_text, wrap_fits, wrap_str};

verus! {

/// A piece of text together with the terminal colour it is shown in.
#[derive(Debug)]
pub enum Color {
    Red(String),
    Green(String),
    Yellow(String),
    Blue(String),
    Magenta(String),
    Cyan(String),
    White(String),
}

/// The escape-sequence body that selects a colour.
pub open spec fn spec_color_code(c: Color) -> Seq<char> {
    match c {
        Color::Red(_) => seq!['[', '3', '1', 'm'],
        Color::Green(_) => seq!['[', '3', '2', 'm'],
        Color::Yellow(_) => seq!['[', '3', '3', 'm'],
        Color::Blue(_) => seq!['[', '3', '4', 'm'],
        Color::Magenta(_) => seq!['[', '3', '5', 'm'],
        Color::Cyan(_) => seq!['[', '3', '6', 'm'],
        Color::White(_) => seq!['[', '3', '7', 'm'],
    }
}

/// The text that a colour wraps.
pub open spec fn spec_color_text(c: Color) -> Seq<char> {
    match c {
        Color::Red(s) => s@,
        Color::Green(s) => s@,
        Color::Yellow(s) => s@,
        Color::Blue(s) => s@,
        Color::Magenta(s) => s@,
        Color::Cyan(s) => s@,
        Color::White(s) => s@,
    }
}

/// The escape character.
pub open spec fn esc() -> char {
    '\u{1b}'
}

/// Text in a colour as the terminal receives it: the colour's code, the
/// text, then the code of white.
pub open spec fn spec_paint(code: Seq<char>, text: Seq<char>) -> Seq<char> {
    seq![esc()] + code + text + seq![esc()] + seq!['[', '3', '7', 'm']
}

/// The code of green.
pub open spec fn green_code() -> Seq<char> {
    seq!['[', '3', '2', 'm']
}

/// The code of yellow.
pub open spec fn yellow_code() -> Seq<char> {
    seq!['[', '3', '3', 'm']
}

/// The code of cyan.
pub open spec fn cyan_code() -> Seq<char> {
    seq!['[', '3', '6', 'm']
}

/// Coloured text as the terminal receives it.
pub open spec fn spec_render(c: Color) -> Seq<char> {
    spec_paint(spec_color_code(c), spec_color_text(c))
}

impl Color {
    pub fn to_code(&self) -> (r: &'static str)
        ensures
            r@ == spec_color_code(*self),
    {
        match self {
            Color::Red(_) => {
                proof { reveal_strlit("[31m"); }
                "[31m"
            },
            Color::Green(_) => {
                proof { reveal_strlit("[32m"); }
                "[32m"
            },
            Color::Yellow(_) => {
                proof { reveal_strlit("[33m"); }
                "[33m"
            },
            Color::Blue(_) => {
                proof { reveal_strlit("[34m"); }
                "[34m"
            },
            Color::Magenta(_) => {
                proof { reveal_strlit("[35m"); }
                "[35m"
            },
            Color::Cyan(_) => {
                proof { reveal_strlit("[36m"); }
                "[36m"
            },
            Color::White(_) => {
                proof { reveal_strlit("[37m"); }
                "[37m"
            },
        }
    }

    pub fn safe_unwrap(&self) -> (r: &str)
        ensures
            r@ == spec_color_text(*self),
    {
        match self {
            Color::Red(s) => s.as_str(),
            Color::Green(s) => s.as_str(),
            Color::Yellow(s) => s.as_str(),
            Color::Blue(s) => s.as_str(),
            Color::Magenta(s) => s.as_str(),
            Color::Cyan(s) => s.as_str(),
            Color::White(s) => s.as_str(),
        }
    }

    /// The coloured text as it is written to a terminal.
    pub fn render(&self) -> (r: String)
        ensures
            r@ == spec_render(*self),
    {
        proof {
            reveal_strlit("\u{1b}");
            reveal_strlit("\u{1b}[37m");
        }
        let mut r = String::from_str("\u{1b}");
        r.append(self.to_code());
        r.append(self.safe_unwrap());
        r.append("\u{1b}[37m");
        proof {
            assert(r@ =~= spec_render(*self));
        }
        r
    }
}

/// Text that can be broken into lines.
pub trait Wrap {
    spec fn wrap_text(&self) -> Seq<char>;

    /// Breaks the text into lines of at most `line_length` bytes, cutting
    /// at the last newline, else the last space, of each window; the cuts
    /// must fall between characters.
    fn wrap(&self, line_length: usize) -> (r: String)
        requires
            line_length > 0,
            wrap_fits(self.wrap_text(), line_length as int),
        ensures
            r@ == spec_wrap_text(self.wrap_text(), line_length as int),
    ;
}

impl Wrap for String {
    open spec fn wrap_text(&self) -> Seq<char> {
        self@
    }

    fn wrap(&self, line_length: usize) -> (r: String) {
        wrap_str(self.as_str(), line_length)
    }
}

impl<'a> Wrap for &'a str {
    open spec fn wrap_text(&self) -> Seq<char> {
        (*self)@
    }

    fn wrap(&self, line_length: usize) -> (r: String) {
        wrap_str(*self, line_length)
    }
}

pub open spec fn is_vowel(c: char) -> bool {
    c == 'a' || c == 'e' || c == 'i' || c == 'o' || c == 'u'
}

/// "an" before a noun whose lower-case form starts with a vowel, else "a".
pub open spec fn spec_article(noun: Seq<char>) -> Seq<char> {
    let lower = str_lowercase(noun);
    let suffix = if lower.len() > 0 && is_vowel(lower[0]) { seq!['n'] } else { Seq::<char>::empty() };
    seq!['a'] + suffix + seq![' '] + noun
}

/// The indefinite article: "an " before a noun whose lower-case form
/// starts with one of a, e, i, o, u, and "a " before any other noun
/// (including the empty one).
pub proof fn law_article(noun: Seq<char>)
    ensures
        ({
            let l = str_lowercase(noun);
            l.len() > 0 && (l[0] == 'a' || l[0] == 'e' || l[0] == 'i' || l[0] == 'o' || l[0] == 'u')
        }) ==> spec_article(noun) == "an "@ + noun,
        !({
            let l = str_lowercase(noun);
            l.len() > 0 && (l[0] == 'a' || l[0] == 'e' || l[0] == 'i' || l[0] == 'o' || l[0] == 'u')
        }) ==> spec_article(noun) == "a "@ + noun,
{
    reveal_strlit("an ");
    reveal_strlit("a ");
    assert(seq!['a'] + seq!['n'] + seq![' '] + noun =~= "an "@ + noun);
    assert(seq!['a'] + Seq::<char>::empty() + seq![' '] + noun =~= "a "@ + noun);
}

/// The noun with its indefinite article in front.
pub fn article(noun: &str) -> (r: String)
    ensures
        r@ == spec_article(noun@),
        all_ascii(noun@) ==> r@ == if noun@.len() > 0 && ({
            let c = ascii_lower_char(noun@[0]);
            c == 'a' || c == 'e' || c == 'i' || c == 'o' || c == 'u'
        }) {
            "an "@ + noun@
        } else {
            "a "@ + noun@
        },
{
    let lower = to_lowercase(noun);
    let l = lower.as_str();
    let vowel = if l.unicode_len() > 0 {
        let c = l.get_char(0);
        c == 'a' || c == 'e' || c == 'i' || c == 'o' || c == 'u'
    } else {
        false
    };
    proof {
        reveal_strlit("an ");
        reveal_strlit("a ");
    }
    let head = if vowel { "an " } else { "a " };
    let r = concat2(head, noun);
    proof {
        assert(r@ =~= spec_article(noun@));
        law_article(noun@);
        if all_ascii(noun@) && noun@.len() > 0 {
            assert(lower@[0] == ascii_lower_char(noun@[0]));
        }
    }
    r
}

} // verus!
