//! One pending timesheet entry, and the parser that builds it from the two
//! text fragments scraped out of an entry container: the combined
//! `id - date` text, and the positional pair customer / project number.

use vstd::prelude::*;
use crate::date::{Date, date_valid, spec_parse_date};
use crate::error::EntryParseError;

verus! {

/// The mathematical content of an `Entry`.
pub struct EntryModel {
    pub id: Seq<char>,
    pub date: Date,
    pub customer: Seq<char>,
    pub project_number: Seq<char>,
}

/// One timesheet-reportable unit of work. Immutable once constructed;
/// built only by `Entry::new` from scraped text.
#[derive(Clone, Debug, PartialEq)]
pub struct Entry {
    pub id: String,
    pub date: Date,
    pub customer: String,
    pub project_number: String,
}

impl View for Entry {
    type V = EntryModel;

    open spec fn view(&self) -> EntryModel {
        EntryModel {
            id: self.id@,
            date: self.date,
            customer: self.customer@,
            project_number: self.project_number@,
        }
    }
}

/// A ` - ` separator stands at position `i`.
pub open spec fn sep_at(s: Seq<char>, i: int) -> bool {
    s[i] == ' ' && s[i + 1] == '-' && s[i + 2] == ' '
}

/// The position of the first ` - ` separator at or after `i`.
pub open spec fn find_sep_from(s: Seq<char>, i: int) -> Option<int>
    decreases s.len() - i when 0 <= i <= s.len()
{
    if i + 3 > s.len() {
        None
    } else if sep_at(s, i) {
        Some(i)
    } else {
        find_sep_from(s, i + 1)
    }
}

pub proof fn lemma_find_sep_props(s: Seq<char>, i: int)
    requires
        0 <= i <= s.len(),
    ensures
        match find_sep_from(s, i) {
            Some(j) => i <= j && j + 3 <= s.len() && sep_at(s, j),
            None => true,
        },
    decreases s.len() - i,
{
    if i + 3 > s.len() {
    } else if sep_at(s, i) {
    } else {
        lemma_find_sep_props(s, i + 1);
    }
}

/// A character that may stand in an id used inside a URL path or query.
pub open spec fn url_safe_char(c: char) -> bool {
    ||| 'a' <= c && c <= 'z'
    ||| 'A' <= c && c <= 'Z'
    ||| '0' <= c && c <= '9'
    ||| c == '-'
    ||| c == '_'
    ||| c == '.'
    ||| c == '~'
}

/// An id as extracted must be non-empty and URL-safe.
pub open spec fn valid_id(s: Seq<char>) -> bool {
    s.len() > 0 && forall|i: int| 0 <= i < s.len() ==> url_safe_char(#[trigger] s[i])
}

/// What `Entry::new` returns for given scraped texts: the parsed entry, or
/// the first of these failures: no ` - ` separator; a date that does not
/// parse; a fragment count other than two; an invalid id.
pub open spec fn spec_parse_entry(id_date: Seq<char>, info: Seq<Seq<char>>) -> Result<
    EntryModel,
    EntryParseError,
> {
    match find_sep_from(id_date, 0) {
        None => Err(EntryParseError::MissingSeparator),
        Some(i) => match spec_parse_date(id_date.subrange(i + 3, id_date.len() as int)) {
            None => Err(EntryParseError::InvalidDate),
            Some(date) => if info.len() != 2 {
                Err(EntryParseError::WrongProjectInfoCount { found: info.len() as usize })
            } else if !valid_id(id_date.subrange(0, i)) {
                Err(EntryParseError::InvalidId)
            } else {
                Ok(
                    EntryModel {
                        id: id_date.subrange(0, i),
                        date,
                        customer: info[0],
                        project_number: info[1],
                    },
                )
            },
        },
    }
}

/// A parsed entry always carries a valid calendar date and a valid id.
pub proof fn lemma_parsed_entry_valid(id_date: Seq<char>, info: Seq<Seq<char>>)
    ensures
        match spec_parse_entry(id_date, info) {
            Ok(m) => date_valid(m.date) && valid_id(m.id),
            Err(_) => true,
        },
{
}

fn find_separator(s: &str) -> (r: Option<usize>)
    ensures
        match r {
            Some(j) => find_sep_from(s@, 0) == Some(j as int),
            None => find_sep_from(s@, 0) is None,
        },
{
    let n: usize = s.unicode_len();
    let mut i: usize = 0;
    while n >= 3 && i <= n - 3
        invariant
            n == s@.len(),
            i <= n,
            find_sep_from(s@, 0) == find_sep_from(s@, i as int),
        decreases n - i,
    {
        if s.get_char(i) == ' ' && s.get_char(i + 1) == '-' && s.get_char(i + 2) == ' ' {
            return Some(i);
        }
        i = i + 1;
    }
    None
}

fn url_safe_exec(c: char) -> (r: bool)
    ensures
        r == url_safe_char(c),
{
    let u: u32 = c as u32;
    (97 <= u && u <= 122) || (65 <= u && u <= 90) || (48 <= u && u <= 57) || c == '-' || c == '_'
        || c == '.' || c == '~'
}

fn id_ok(s: &str) -> (r: bool)
    ensures
        r == valid_id(s@),
{
    let n: usize = s.unicode_len();
    if n == 0 {
        return false;
    }
    let mut i: usize = 0;
    while i < n
        invariant
            n == s@.len(),
            i <= n,
            n > 0,
            forall|k: int| 0 <= k < i ==> url_safe_char(#[trigger] s@[k]),
        decreases n - i,
    {
        if !url_safe_exec(s.get_char(i)) {
            return false;
        }
        i = i + 1;
    }
    true
}

impl Entry {
    /// Builds an entry from the combined `id - date` text and the two
    /// project info fragments (customer, then project number), or reports
    /// the first malformation found.
    pub fn new(id_date: &str, project_info: Vec<String>) -> (r: Result<Entry, EntryParseError>)
        ensures
            match spec_parse_entry(id_date@, project_info.deep_view()) {
                Ok(m) => r matches Ok(e) && e@ == m,
                Err(f) => r matches Err(g) && g == f,
            },
    {
        proof {
            lemma_find_sep_props(id_date@, 0);
        }
        match find_separator(id_date) {
            None => Err(EntryParseError::MissingSeparator),
            Some(i) => {
                let n: usize = id_date.unicode_len();
                let date_part: &str = id_date.substring_char(i + 3, n);
                match Date::parse(date_part) {
                    None => Err(EntryParseError::InvalidDate),
                    Some(date) => if project_info.len() != 2 {
                        Err(EntryParseError::WrongProjectInfoCount { found: project_info.len() })
                    } else {
                        let id_part: &str = id_date.substring_char(0, i);
                        if !id_ok(id_part) {
                            Err(EntryParseError::InvalidId)
                        } else {
                            let mut info = project_info;
                            let project_number = info.pop().unwrap();
                            let customer = info.pop().unwrap();
                            Ok(
                                Entry {
                                    id: id_part.to_owned(),
                                    date,
                                    customer,
                                    project_number,
                                },
                            )
                        }
                    },
                }
            },
        }
    }
}

} // verus!
