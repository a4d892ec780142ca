//! Reading commands typed by players.
use vstd::prelude::*;
use crate::attribute::{remove_first, Attribute};
use crate::text::strings::{all_ascii, ascii_lower_char, is_prefix, starts_with, str_lowercase, to_lowercase};

verus! {

/// The commands that a player can give.
#[derive(Copy, Clone, Debug, PartialEq, Eq, Hash, Structural)]
pub enum CommandKind {
    North,
    South,
    East,
    West,
    Look,
    Take,
    Drop,
    Give,
    Wear,
    Remove,
    Chat,
    Say,
    Eval,
    Inventory,
    NotFound,
    Ouch,
    Open,
    Unlock,
    Hit,
    Sleep,
    Stand,
    Wake,
    Quit,
    Whisper,
    Blank,
}

/// What a command needs of the player who gives it.
#[derive(Copy, Clone, Debug, PartialEq, Eq, Structural)]
pub enum CommandQuality {
    /// The player must be awake.
    Awake,
    /// The player must stand.
    Motion,
}

/// The qualities of a command: moving north needs the player awake and
/// standing; no other command has any.
pub open spec fn spec_command_qualities(c: CommandKind) -> Seq<CommandQuality> {
    match c {
        CommandKind::North => seq![CommandQuality::Awake, CommandQuality::Motion],
        _ => Seq::empty(),
    }
}

impl Attribute<CommandQuality> for CommandKind {
    open spec fn attr_view(&self) -> Seq<CommandQuality> {
        spec_command_qualities(*self)
    }

    /// The qualities of a command are fixed.
    open spec fn holds_attrs(&self) -> bool {
        false
    }

    fn attr(&self) -> (r: Vec<CommandQuality>) {
        match self {
            CommandKind::North => {
                let v = vec![CommandQuality::Awake, CommandQuality::Motion];
                assert(v@ =~= seq![CommandQuality::Awake, CommandQuality::Motion]);
                v
            },
            _ => {
                let v: Vec<CommandQuality> = Vec::new();
                assert(v@ =~= spec_command_qualities(*self));
                v
            },
        }
    }

    fn set_attr(&mut self, q: CommandQuality) {
    }

    fn unset_attr(&mut self, q: CommandQuality) {
    }

    fn is(&self, a: CommandQuality) -> (r: bool) {
        match self {
            CommandKind::North => {
                assert(spec_command_qualities(*self)[0] == CommandQuality::Awake);
                assert(spec_command_qualities(*self)[1] == CommandQuality::Motion);
                true
            },
            _ => false,
        }
    }

    fn is_all(&self, ats: &[CommandQuality]) -> (r: bool) {
        let mut i: usize = 0;
        while i < ats.len()
            invariant
                i <= ats@.len(),
                forall|j: int| 0 <= j < i ==> spec_command_qualities(*self).contains(#[trigger] ats@[j]),
            decreases ats@.len() - i,
        {
            if !self.is(ats[i]) {
                return false;
            }
            i = i + 1;
        }
        true
    }
}

/// The command that a (lower-case) word names: the first command whose
/// name starts with the word, in the order north, south, east, west, look,
/// take, get (take), drop, give, wear, chat, say, open, unlock, remove,
/// inventory, evaluate, ouch, sleep, stand, wake, hit, quit. The empty
/// word and any other word name no command.
pub open spec fn spec_resolve(w: Seq<char>) -> CommandKind {
    if w.len() == 0 {
        CommandKind::NotFound
    } else if is_prefix(w, "north"@) {
        CommandKind::North
    } else if is_prefix(w, "south"@) {
        CommandKind::South
    } else if is_prefix(w, "east"@) {
        CommandKind::East
    } else if is_prefix(w, "west"@) {
        CommandKind::West
    } else if is_prefix(w, "look"@) {
        CommandKind::Look
    } else if is_prefix(w, "take"@) {
        CommandKind::Take
    } else if is_prefix(w, "get"@) {
        CommandKind::Take
    } else if is_prefix(w, "drop"@) {
        CommandKind::Drop
    } else if is_prefix(w, "give"@) {
        CommandKind::Give
    } else if is_prefix(w, "wear"@) {
        CommandKind::Wear
    } else if is_prefix(w, "chat"@) {
        CommandKind::Chat
    } else if is_prefix(w, "say"@) {
        CommandKind::Say
    } else if is_prefix(w, "open"@) {
        CommandKind::Open
    } else if is_prefix(w, "unlock"@) {
        CommandKind::Unlock
    } else if is_prefix(w, "remove"@) {
        CommandKind::Remove
    } else if is_prefix(w, "inventory"@) {
        CommandKind::Inventory
    } else if is_prefix(w, "evaluate"@) {
        CommandKind::Eval
    } else if is_prefix(w, "ouch"@) {
        CommandKind::Ouch
    } else if is_prefix(w, "sleep"@) {
        CommandKind::Sleep
    } else if is_prefix(w, "stand"@) {
        CommandKind::Stand
    } else if is_prefix(w, "wake"@) {
        CommandKind::Wake
    } else if is_prefix(w, "hit"@) {
        CommandKind::Hit
    } else if is_prefix(w, "quit"@) {
        CommandKind::Quit
    } else {
        CommandKind::NotFound
    }
}

/// The command words, in the order in which a typed word is tried against
/// them, with the command each names.
pub open spec fn command_words() -> Seq<(Seq<char>, CommandKind)> {
    seq![
        ("north"@, CommandKind::North),
        ("south"@, CommandKind::South),
        ("east"@, CommandKind::East),
        ("west"@, CommandKind::West),
        ("look"@, CommandKind::Look),
        ("take"@, CommandKind::Take),
        ("get"@, CommandKind::Take),
        ("drop"@, CommandKind::Drop),
        ("give"@, CommandKind::Give),
        ("wear"@, CommandKind::Wear),
        ("chat"@, CommandKind::Chat),
        ("say"@, CommandKind::Say),
        ("open"@, CommandKind::Open),
        ("unlock"@, CommandKind::Unlock),
        ("remove"@, CommandKind::Remove),
        ("inventory"@, CommandKind::Inventory),
        ("evaluate"@, CommandKind::Eval),
        ("ouch"@, CommandKind::Ouch),
        ("sleep"@, CommandKind::Sleep),
        ("stand"@, CommandKind::Stand),
        ("wake"@, CommandKind::Wake),
        ("hit"@, CommandKind::Hit),
        ("quit"@, CommandKind::Quit),
    ]
}

/// A typed (lower-case) word names the command of the first command word,
/// in the order of `command_words`, that begins with it.
pub proof fn law_resolve_first_match(w: Seq<char>, i: int)
    requires
        w.len() > 0,
        0 <= i < command_words().len(),
        is_prefix(w, command_words()[i].0),
        forall|j: int| 0 <= j < i ==> !is_prefix(w, #[trigger] command_words()[j].0),
    ensures
        spec_resolve(w) == command_words()[i].1,
{
    let ws = command_words();
    if i > 0 {
        assert(!is_prefix(w, ws[0].0));
    }
    if i > 1 {
        assert(!is_prefix(w, ws[1].0));
    }
    if i > 2 {
        assert(!is_prefix(w, ws[2].0));
    }
    if i > 3 {
        assert(!is_prefix(w, ws[3].0));
    }
    if i > 4 {
        assert(!is_prefix(w, ws[4].0));
    }
    if i > 5 {
        assert(!is_prefix(w, ws[5].0));
    }
    if i > 6 {
        assert(!is_prefix(w, ws[6].0));
    }
    if i > 7 {
        assert(!is_prefix(w, ws[7].0));
    }
    if i > 8 {
        assert(!is_prefix(w, ws[8].0));
    }
    if i > 9 {
        assert(!is_prefix(w, ws[9].0));
    }
    if i > 10 {
        assert(!is_prefix(w, ws[10].0));
    }
    if i > 11 {
        assert(!is_prefix(w, ws[11].0));
    }
    if i > 12 {
        assert(!is_prefix(w, ws[12].0));
    }
    if i > 13 {
        assert(!is_prefix(w, ws[13].0));
    }
    if i > 14 {
        assert(!is_prefix(w, ws[14].0));
    }
    if i > 15 {
        assert(!is_prefix(w, ws[15].0));
    }
    if i > 16 {
        assert(!is_prefix(w, ws[16].0));
    }
    if i > 17 {
        assert(!is_prefix(w, ws[17].0));
    }
    if i > 18 {
        assert(!is_prefix(w, ws[18].0));
    }
    if i > 19 {
        assert(!is_prefix(w, ws[19].0));
    }
    if i > 20 {
        assert(!is_prefix(w, ws[20].0));
    }
    if i > 21 {
        assert(!is_prefix(w, ws[21].0));
    }
    if i > 22 {
        assert(!is_prefix(w, ws[22].0));
    }
}

/// A word that no command word begins with, and the empty word, name no
/// command.
pub proof fn law_resolve_no_match(w: Seq<char>)
    requires
        w.len() == 0 || forall|j: int| 0 <= j < command_words().len() ==> !is_prefix(w, #[trigger] command_words()[j].0),
    ensures
        spec_resolve(w) == CommandKind::NotFound,
{
    let ws = command_words();
    if w.len() > 0 {
        assert(!is_prefix(w, ws[0].0));
        assert(!is_prefix(w, ws[1].0));
        assert(!is_prefix(w, ws[2].0));
        assert(!is_prefix(w, ws[3].0));
        assert(!is_prefix(w, ws[4].0));
        assert(!is_prefix(w, ws[5].0));
        assert(!is_prefix(w, ws[6].0));
        assert(!is_prefix(w, ws[7].0));
        assert(!is_prefix(w, ws[8].0));
        assert(!is_prefix(w, ws[9].0));
        assert(!is_prefix(w, ws[10].0));
        assert(!is_prefix(w, ws[11].0));
        assert(!is_prefix(w, ws[12].0));
        assert(!is_prefix(w, ws[13].0));
        assert(!is_prefix(w, ws[14].0));
        assert(!is_prefix(w, ws[15].0));
        assert(!is_prefix(w, ws[16].0));
        assert(!is_prefix(w, ws[17].0));
        assert(!is_prefix(w, ws[18].0));
        assert(!is_prefix(w, ws[19].0));
        assert(!is_prefix(w, ws[20].0));
        assert(!is_prefix(w, ws[21].0));
        assert(!is_prefix(w, ws[22].0));
    }
}

/// The four compass directions come before every other command: a
/// non-empty word that begins `north`, `south`, `east` or `west` names
/// that direction (so `n`, `s`, `e`, `w` are the compass moves).
pub proof fn law_resolve_compass(w: Seq<char>)
    requires
        w.len() > 0,
    ensures
        is_prefix(w, "north"@) ==> spec_resolve(w) == CommandKind::North,
        is_prefix(w, "south"@) ==> spec_resolve(w) == CommandKind::South,
        is_prefix(w, "east"@) ==> spec_resolve(w) == CommandKind::East,
        is_prefix(w, "west"@) ==> spec_resolve(w) == CommandKind::West,
{
    reveal_strlit("north");
    reveal_strlit("south");
    reveal_strlit("east");
    reveal_strlit("west");
    if is_prefix(w, "north"@) {
        assert(w[0] == "north"@.subrange(0, w.len() as int)[0]);
    }
    if is_prefix(w, "south"@) {
        assert(w[0] == "south"@.subrange(0, w.len() as int)[0]);
    }
    if is_prefix(w, "east"@) {
        assert(w[0] == "east"@.subrange(0, w.len() as int)[0]);
    }
    if is_prefix(w, "west"@) {
        assert(w[0] == "west"@.subrange(0, w.len() as int)[0]);
    }
}

/// The command that an already lower-case word names.
pub fn resolve_lower(s: &str) -> (r: CommandKind)
    ensures
        r == spec_resolve(s@),
{
    if s.unicode_len() == 0 {
        return CommandKind::NotFound;
    }
    if starts_with("north", s) {
        CommandKind::North
    } else if starts_with("south", s) {
        CommandKind::South
    } else if starts_with("east", s) {
        CommandKind::East
    } else if starts_with("west", s) {
        CommandKind::West
    } else if starts_with("look", s) {
        CommandKind::Look
    } else if starts_with("take", s) {
        CommandKind::Take
    } else if starts_with("get", s) {
        CommandKind::Take
    } else if starts_with("drop", s) {
        CommandKind::Drop
    } else if starts_with("give", s) {
        CommandKind::Give
    } else if starts_with("wear", s) {
        CommandKind::Wear
    } else if starts_with("chat", s) {
        CommandKind::Chat
    } else if starts_with("say", s) {
        CommandKind::Say
    } else if starts_with("open", s) {
        CommandKind::Open
    } else if starts_with("unlock", s) {
        CommandKind::Unlock
    } else if starts_with("remove", s) {
        CommandKind::Remove
    } else if starts_with("inventory", s) {
        CommandKind::Inventory
    } else if starts_with("evaluate", s) {
        CommandKind::Eval
    } else if starts_with("ouch", s) {
        CommandKind::Ouch
    } else if starts_with("sleep", s) {
        CommandKind::Sleep
    } else if starts_with("stand", s) {
        CommandKind::Stand
    } else if starts_with("wake", s) {
        CommandKind::Wake
    } else if starts_with("hit", s) {
        CommandKind::Hit
    } else if starts_with("quit", s) {
        CommandKind::Quit
    } else {
        CommandKind::NotFound
    }
}

/// The command that a word names, in any case.
pub fn resolve_str(s: &str) -> (r: CommandKind)
    ensures
        r == spec_resolve(str_lowercase(s@)),
        all_ascii(s@) ==> r == spec_resolve(s@.map_values(|c: char| ascii_lower_char(c))),
{
    let lower = to_lowercase(s);
    resolve_lower(lower.as_str())
}

/// The characters that Unicode calls white space.
pub open spec fn is_white(c: char) -> bool {
    ('\u{9}' <= c && c <= '\u{d}') || c == ' ' || c == '\u{85}' || c == '\u{a0}' || c == '\u{1680}'
        || ('\u{2000}' <= c && c <= '\u{200a}') || c == '\u{2028}' || c == '\u{2029}'
        || c == '\u{202f}' || c == '\u{205f}' || c == '\u{3000}'
}

fn white(c: char) -> (r: bool)
    ensures
        r == is_white(c),
{
    ('\u{9}' <= c && c <= '\u{d}') || c == ' ' || c == '\u{85}' || c == '\u{a0}' || c == '\u{1680}'
        || ('\u{2000}' <= c && c <= '\u{200a}') || c == '\u{2028}' || c == '\u{2029}'
        || c == '\u{202f}' || c == '\u{205f}' || c == '\u{3000}'
}

/// The words of a text: its longest runs of characters that are not
/// white space, in order.
pub open spec fn spec_words(s: Seq<char>) -> Seq<Seq<char>>
    decreases s.len(),
{
    if s.len() == 0 {
        Seq::empty()
    } else {
        let r = spec_words(s.drop_last());
        let c = s.last();
        if is_white(c) {
            r
        } else if s.len() >= 2 && !is_white(s[s.len() - 2]) {
            r.update(r.len() - 1, r.last().push(c))
        } else {
            r.push(seq![c])
        }
    }
}

/// The texts of a list of string slices.
pub open spec fn strs_view<'a>(v: Seq<&'a str>) -> Seq<Seq<char>> {
    v.map_values(|x: &'a str| x@)
}

/// Splits a text at white space, as `str::split_whitespace` does.
pub fn split_words<'a>(s: &'a str) -> (r: Vec<&'a str>)
    ensures
        strs_view(r@) == spec_words(s@),
{
    let n = s.unicode_len();
    let mut out: Vec<&'a str> = Vec::new();
    let mut start: Option<usize> = None;
    let mut i: usize = 0;
    while i < n
        invariant
            n == s@.len(),
            i <= n,
            match start {
                None => {
                    &&& strs_view(out@) == spec_words(s@.subrange(0, i as int))
                    &&& (i == 0 || is_white(s@[i - 1]))
                },
                Some(st) => {
                    &&& st < i
                    &&& strs_view(out@).push(s@.subrange(st as int, i as int)) == spec_words(s@.subrange(0, i as int))
                    &&& (i >= 1 && !is_white(s@[i - 1]))
                },
            },
        decreases n - i,
    {
        let c = s.get_char(i);
        let ghost p = s@.subrange(0, i as int);
        let ghost q = s@.subrange(0, i + 1);
        proof {
            assert(q.drop_last() =~= p);
            assert(q.last() == c);
        }
        if white(c) {
            match start {
                Some(st) => {
                    let w = s.substring_char(st, i);
                    let ghost before = out@;
                    out.push(w);
                    proof {
                        assert(strs_view(out@) =~= strs_view(before).push(w@));
                    }
                },
                None => {},
            }
            start = None;
            proof {
                assert(spec_words(q) == spec_words(p));
            }
        } else {
            match start {
                Some(st) => {
                    proof {
                        assert(q.len() >= 2 && q[q.len() - 2] == s@[i - 1]);
                        let r = spec_words(p);
                        assert(r.last() == s@.subrange(st as int, i as int));
                        assert(r.last().push(c) =~= s@.subrange(st as int, i + 1));
                        assert(spec_words(q) =~= strs_view(out@).push(s@.subrange(st as int, i + 1)));
                    }
                },
                None => {
                    proof {
                        assert(i == 0 || q[q.len() - 2] == s@[i - 1]);
                        assert(!(q.len() >= 2 && !is_white(q[q.len() - 2])));
                        assert(spec_words(q) == spec_words(p).push(seq![c]));
                        assert(s@.subrange(i as int, i + 1) =~= seq![c]);
                        assert(spec_words(q) =~= strs_view(out@).push(s@.subrange(i as int, i + 1)));
                    }
                    start = Some(i);
                },
            }
        }
        i = i + 1;
    }
    match start {
        Some(st) => {
            let w = s.substring_char(st, n);
            let ghost before = out@;
            out.push(w);
            proof {
                assert(strs_view(out@) =~= strs_view(before).push(w@));
            }
        },
        None => {},
    }
    assert(s@.subrange(0, n as int) =~= s@);
    proof {
        assert(strs_view(out@) =~= spec_words(s@));
    }
    out
}

/// Splits a command into the command its first word names and the other
/// words.
pub fn process_string_command<'a>(s: &'a str) -> (r: (CommandKind, Vec<&'a str>))
    ensures
        spec_words(s@).len() == 0 ==> r.0 == spec_resolve(str_lowercase(Seq::empty())) && r.1@.len() == 0,
        spec_words(s@).len() > 0 ==> r.0 == spec_resolve(str_lowercase(spec_words(s@)[0]))
            && strs_view(r.1@) == spec_words(s@).drop_first(),
{
    let mut words = split_words(s);
    if words.len() == 0 {
        proof {
            reveal_strlit("");
            assert(""@ =~= Seq::<char>::empty());
        }
        let cmd = resolve_str("");
        return (cmd, words);
    }
    let first = words.remove(0);
    proof {
        assert(strs_view(words@) =~= spec_words(s@).drop_first());
    }
    (resolve_str(first), words)
}

} // verus!
