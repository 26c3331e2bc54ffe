//! Report data and the report text buffer.
//!
//! A report is a list of lines collected while an event is handled and then
//! joined into one message for the log and the chat room.  In short mode the
//! optional lines are suppressed.  The structs here carry the data a report
//! is rendered from.

use vstd::prelude::*;

use crate::account::AccountId;
use crate::hooks::Hook;

verus! {

/// Data for the start-of-run report section.
pub struct Init {
    pub block_number: u32,
    pub now: u64,
}

/// The chain the run is connected to.
pub struct Network {
    pub name: String,
    pub token_symbol: String,
    pub token_decimals: u8,
}

impl Network {
    /// A network built from the chain name and its reported properties: a
    /// missing token symbol reads as `ND`, missing token decimals as 12.
    pub fn from_properties(name: String, token_symbol: Option<String>, token_decimals: Option<
        u64,
    >) -> (r: Network)
        requires
            token_decimals matches Some(d) ==> d <= 255,
        ensures
            r.name@ == name@,
            r.token_symbol@ == match token_symbol {
                Some(s) => s@,
                None => "ND"@,
            },
            r.token_decimals == match token_decimals {
                Some(d) => d as u8,
                None => 12u8,
            },
    {
        let symbol = match token_symbol {
            Some(s) => s,
            None => String::from_str("ND"),
        };
        let decimals: u8 = match token_decimals {
            Some(d) => d as u8,
            None => 12,
        };
        Network { name, token_symbol: symbol, token_decimals: decimals }
    }
}

/// Where the chain stands: era, session, and the session's position in the
/// era.
pub struct Session {
    pub active_era_index: u32,
    pub current_session_index: u32,
    pub eras_session_index: u32,
    pub queued_session_keys_changed: bool,
}

/// One watched validator's collected state for a report.
pub struct Validator {
    pub stash: AccountId,
    pub name: String,
    pub is_active: bool,
    pub is_queued: bool,
    pub queued_session_keys: Vec<u8>,
    pub is_slashed: bool,
    pub is_chilled: bool,
    pub is_offline: bool,
    pub hooks: Vec<Hook>,
}

impl Validator {
    /// A validator known only by its stash: every flag off, nothing queued,
    /// no hooks run.
    pub fn new(stash: AccountId) -> (r: Validator)
        ensures
            r.stash@ == stash@,
            r.name@.len() == 0,
            r.is_active == false,
            r.is_queued == false,
            r.queued_session_keys@.len() == 0,
            r.is_slashed == false,
            r.is_chilled == false,
            r.is_offline == false,
            r.hooks@.len() == 0,
    {
        Validator {
            stash,
            name: String::new(),
            is_active: false,
            is_queued: false,
            queued_session_keys: Vec::new(),
            is_slashed: false,
            is_chilled: false,
            is_offline: false,
            hooks: Vec::new(),
        }
    }
}

/// A referendum that has begun.
pub struct Referendum {
    pub ref_index: u32,
    pub vote_threshold: String,
    pub hook: Hook,
}

/// A slash that occurred.
pub struct Slash {
    pub who: AccountId,
    pub amount_value: u128,
    pub hook: Hook,
}

/// Which report section an event renders into.
#[derive(Clone, Copy, PartialEq, Eq, Structural)]
pub enum Section {
    Init,
    Session,
    Slash,
    Chill,
    Offline,
    Democracy,
}

impl Default for Section {
    /// The ordinary case: a session report.
    fn default() -> (r: Section)
        ensures
            r == Section::Session,
    {
        Section::Session
    }
}

/// Everything an event handler collected for one report.
pub struct RawData {
    pub init: Init,
    pub network: Network,
    pub validators: Vec<Validator>,
    pub session: Session,
    pub referendum: Referendum,
    pub slash: Slash,
    pub section: Section,
}

/// The lines joined with the separator between consecutive lines.
pub open spec fn joined(lines: Seq<Seq<char>>, sep: Seq<char>) -> Seq<char>
    decreases lines.len(),
{
    if lines.len() == 0 {
        Seq::empty()
    } else if lines.len() == 1 {
        lines[0]
    } else {
        (joined(lines.drop_last(), sep) + sep) + lines.last()
    }
}

/// A report under construction: its lines, and whether optional lines are
/// suppressed.
pub struct Report {
    body: Vec<String>,
    is_short: bool,
}

impl Report {
    /// The lines collected so far.
    pub closed spec fn lines(&self) -> Seq<Seq<char>> {
        self.body.deep_view()
    }

    /// Whether the report suppresses optional lines.
    pub closed spec fn is_short(&self) -> bool {
        self.is_short
    }

    /// An empty report; `is_short` says whether optional lines are kept.
    pub fn new(is_short: bool) -> (r: Report)
        ensures
            r.lines().len() == 0,
            r.is_short() == is_short,
    {
        Report { body: Vec::new(), is_short }
    }

    /// Append a line unconditionally.
    pub fn add_raw_text(&mut self, t: String)
        ensures
            final(self).lines() == old(self).lines().push(t@),
            final(self).is_short() == old(self).is_short(),
    {
        self.body.push(t);
        proof {
            assert(self.lines() =~= old(self).lines().push(t@));
        }
    }

    /// Append an optional line: kept in full reports, dropped in short ones.
    pub fn add_text(&mut self, t: String)
        ensures
            final(self).lines() == if old(self).is_short() {
                old(self).lines()
            } else {
                old(self).lines().push(t@)
            },
            final(self).is_short() == old(self).is_short(),
    {
        if !self.is_short {
            self.add_raw_text(t);
        }
    }

    /// Append an empty line.
    pub fn add_break(&mut self)
        ensures
            final(self).lines() == old(self).lines().push(Seq::<char>::empty()),
            final(self).is_short() == old(self).is_short(),
    {
        self.add_raw_text(String::new());
    }

    /// The report as plain text: the lines joined by newlines.
    pub fn message(&self) -> (r: String)
        ensures
            r@ == joined(self.lines(), "\n"@),
    {
        self.join_with("\n")
    }

    /// The report as chat markup: the lines joined by `<br/>`.
    pub fn formatted_message(&self) -> (r: String)
        ensures
            r@ == joined(self.lines(), "<br/>"@),
    {
        self.join_with("<br/>")
    }

    fn join_with(&self, sep: &str) -> (r: String)
        ensures
            r@ == joined(self.lines(), sep@),
    {
        let mut out = String::new();
        let n = self.body.len();
        let mut i: usize = 0;
        while i < n
            invariant
                n == self.body@.len(),
                i <= n,
                out@ == joined(self.lines().take(i as int), sep@),
            decreases n - i,
        {
            if i > 0 {
                out.append(sep);
            }
            out.append(self.body[i].as_str());
            proof {
                let prefix = self.lines().take(i as int);
                let next = self.lines().take(i as int + 1);
                assert(next.drop_last() =~= prefix);
                assert(next.last() == self.lines()[i as int]);
                if i == 0 {
                    assert(out@ =~= joined(next, sep@));
                } else {
                    assert(out@ =~= joined(next, sep@));
                }
            }
            i = i + 1;
        }
        proof {
            assert(self.lines().take(n as int) =~= self.lines());
        }
        out
    }
}

/// The decimal digits of `n`, most significant first.
pub open spec fn dec_digits(n: int) -> Seq<char>
    decreases n,
{
    if n < 10 {
        seq![digit_char(n)]
    } else {
        dec_digits(n / 10).push(digit_char(n % 10))
    }
}

/// The character for one decimal digit.
pub open spec fn digit_char(d: int) -> char {
    if d == 0 {
        '0'
    } else if d == 1 {
        '1'
    } else if d == 2 {
        '2'
    } else if d == 3 {
        '3'
    } else if d == 4 {
        '4'
    } else if d == 5 {
        '5'
    } else if d == 6 {
        '6'
    } else if d == 7 {
        '7'
    } else if d == 8 {
        '8'
    } else {
        '9'
    }
}

fn digit_str(d: u32) -> (r: &'static str)
    requires
        d < 10,
    ensures
        r@ == seq![digit_char(d as int)],
{
    proof {
        reveal_strlit("0");
        reveal_strlit("1");
        reveal_strlit("2");
        reveal_strlit("3");
        reveal_strlit("4");
        reveal_strlit("5");
        reveal_strlit("6");
        reveal_strlit("7");
        reveal_strlit("8");
        reveal_strlit("9");
    }
    match d {
        0 => "0",
        1 => "1",
        2 => "2",
        3 => "3",
        4 => "4",
        5 => "5",
        6 => "6",
        7 => "7",
        8 => "8",
        _ => "9",
    }
}

/// `n` rendered in decimal.
pub fn u32_to_decimal(n: u32) -> (r: String)
    ensures
        r@ == dec_digits(n as int),
    decreases n,
{
    if n < 10 {
        String::from_str(digit_str(n))
    } else {
        let mut s = u32_to_decimal(n / 10);
        s.append(digit_str(n % 10));
        proof {
            assert(s@ =~= dec_digits(n as int));
        }
        s
    }
}

/// The flag shown for a session's position in its era: chequered for the
/// first session, white for the last (sixth), red otherwise.
pub fn session_flag(index: u32) -> (r: String)
    ensures
        r@ == if index == 1 {
            "\u{1f3c1}"@
        } else if index == 6 {
            "\u{1f3f3}\u{fe0f}"@
        } else {
            "\u{1f6a9}"@
        },
{
    if index == 1 {
        String::from_str("\u{1f3c1}")
    } else if index == 6 {
        String::from_str("\u{1f3f3}\u{fe0f}")
    } else {
        String::from_str("\u{1f6a9}")
    }
}

/// The ordinal label of a session within its era: `1st`, `2nd`, `3rd`, the
/// sixth is `<b>last</b>`, and anything else is the number followed by `th`.
pub fn session_ordinal_number(index: u32) -> (r: String)
    ensures
        r@ == if index == 1 {
            "1st"@
        } else if index == 2 {
            "2nd"@
        } else if index == 3 {
            "3rd"@
        } else if index == 6 {
            "<b>last</b>"@
        } else {
            dec_digits(index as int) + "th"@
        },
{
    if index == 1 {
        String::from_str("1st")
    } else if index == 2 {
        String::from_str("2nd")
    } else if index == 3 {
        String::from_str("3rd")
    } else if index == 6 {
        String::from_str("<b>last</b>")
    } else {
        u32_to_decimal(index).concat("th")
    }
}

} // verus!
