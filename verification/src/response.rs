//! Response lines of the control protocol: the status-line grammar and the
//! `Key=Value` line grammar shared by all commands.

use vstd::prelude::*;
use vstd::string::StrSliceExecFns;
use crate::text::first_index;
use crate::text::is_ascii_digit;
use crate::text::lemma_first_index;

verus! {

/// A line is status-shaped when it begins with three digits followed by a
/// space or by the end of the line.
pub open spec fn is_status_line(s: Seq<char>) -> bool {
    &&& s.len() >= 3
    &&& is_ascii_digit(s[0])
    &&& is_ascii_digit(s[1])
    &&& is_ascii_digit(s[2])
    &&& s.len() > 3 ==> s[3] == ' '
}

/// The error message embedded in a line, if any: a status-shaped line whose
/// code is not `250` carries the text after the code as an error message.
pub open spec fn status_error_spec(s: Seq<char>) -> Option<Seq<char>> {
    if is_status_line(s) {
        if s[0] == '2' && s[1] == '5' && s[2] == '0' {
            None
        } else if s.len() == 3 {
            Some(Seq::empty())
        } else {
            Some(s.skip(4))
        }
    } else {
        None
    }
}

/// The key and value of a `Key=Value` line, split at the first `=`. A line
/// without `=` is a bare key with an empty value.
pub open spec fn split_key_value(line: Seq<char>) -> (Seq<char>, Seq<char>) {
    match first_index(line, '=') {
        Some(i) => (line.take(i as int), line.skip(i as int + 1)),
        None => (line, Seq::empty()),
    }
}

/// One line of a command's response, as handed over by the transport.
#[derive(Clone, Debug, PartialEq, Eq)]
pub struct ResponseLine {
    /// The text of the line, without its terminator.
    pub value: String,
}

impl View for ResponseLine {
    type V = Seq<char>;

    open spec fn view(&self) -> Seq<char> {
        self.value@
    }
}

impl DeepView for ResponseLine {
    type V = Seq<char>;

    open spec fn deep_view(&self) -> Seq<char> {
        self.value@
    }
}

impl ResponseLine {
    /// Wraps one received line.
    pub fn new(value: String) -> (r: ResponseLine)
        ensures
            r@ == value@,
    {
        ResponseLine { value }
    }

    /// The error message this line embeds, if it is a status-shaped line
    /// whose code is not `250`.
    pub fn err(&self) -> (r: Option<String>)
        ensures
            match r {
                Some(m) => status_error_spec(self@) == Some(m@),
                None => status_error_spec(self@) is None,
            },
    {
        let s = self.value.as_str();
        let n = s.unicode_len();
        if n < 3 {
            return None;
        }
        let c0 = s.get_char(0);
        let c1 = s.get_char(1);
        let c2 = s.get_char(2);
        if !(digit(c0) && digit(c1) && digit(c2)) {
            return None;
        }
        if n > 3 && s.get_char(3) != ' ' {
            return None;
        }
        if c0 == '2' && c1 == '5' && c2 == '0' {
            return None;
        }
        if n == 3 {
            Some(String::new())
        } else {
            Some(s.substring_char(4, n).to_owned())
        }
    }
}

/// Whether `c` is a decimal digit character.
fn digit(c: char) -> (r: bool)
    ensures
        r == is_ascii_digit(c),
{
    match c {
        '0' | '1' | '2' | '3' | '4' | '5' | '6' | '7' | '8' | '9' => true,
        _ => false,
    }
}

/// Splits a `Key=Value` line at the first `=`; a line without `=` is a bare
/// key with an empty value. Shared by all commands' response parsing.
pub fn key_value(line: &str) -> (r: (String, String))
    ensures
        r.0@ == split_key_value(line@).0,
        r.1@ == split_key_value(line@).1,
{
    let n = line.unicode_len();
    match crate::text::find_char(line, '=') {
        Some(i) => {
            proof {
                lemma_first_index(line@, '=');
            }
            let key = line.substring_char(0, i).to_owned();
            let value = line.substring_char(i + 1, n).to_owned();
            proof {
                assert(key@ =~= line@.take(i as int));
                assert(value@ =~= line@.skip(i as int + 1));
            }
            (key, value)
        },
        None => {
            let key = line.to_owned();
            (key, String::new())
        },
    }
}

} // verus!
