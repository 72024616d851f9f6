use vstd::prelude::*;
use vstd::utf8::is_ascii_chars;

use crate::domain::date::{valid_ymd, CalendarDate};

use crate::domain::task::{Priority, Status};
use crate::text::{
    ascii_lower, concat2, concat3, int_to_string, is_blank, is_blank_str, spec_int_digits, lowercase,
    str_chars, str_eq, string_of_range, to_lowercase,
};

verus! {

/// What a filter condition restricts.
#[derive(Debug, Clone, Copy, PartialEq, Eq, Structural)]
pub enum FilterKey {
    /// The task's status.
    Status,
    /// The task's priority.
    Priority,
    /// A tag of the task.
    Tag,
}

/// A filter condition written `key:value` on the command line.
#[derive(Debug, Clone)]
pub struct Filter {
    pub key: FilterKey,
    pub value: String,
}

/// The filter key that a (lowercased) key word names.
pub open spec fn filter_key_of(w: Seq<char>) -> Option<FilterKey> {
    if w == "status"@ {
        Some(FilterKey::Status)
    } else if w == "priority"@ {
        Some(FilterKey::Priority)
    } else if w == "tag"@ {
        Some(FilterKey::Tag)
    } else {
        None
    }
}

/// Whether position `k` holds the first ':' of `s`.
pub open spec fn is_first_colon(s: Seq<char>, k: int) -> bool {
    &&& 0 <= k < s.len()
    &&& s[k] == ':'
    &&& forall|j: int| 0 <= j < k ==> s[j] != ':'
}

/// The position of the first ':' in `s`, if it has one.
pub open spec fn first_colon(s: Seq<char>) -> Option<int> {
    if exists|k: int| is_first_colon(s, k) {
        Some(choose|k: int| is_first_colon(s, k))
    } else {
        None
    }
}

/// The message for a filter text without ':'.
pub open spec fn invalid_filter_message(s: Seq<char>) -> Seq<char> {
    "Invalid filter format: '"@ + s + "'. Expected 'key:value'"@
}

/// The message for a filter key word that names no key.
pub open spec fn unknown_filter_key_message(k: Seq<char>) -> Seq<char> {
    "Unknown filter key: '"@ + k + "'"@
}

/// What reading `s` as a filter gives: the text splits at its first ':';
/// the part before it, lowercased, names the key, and the rest is the value.
pub open spec fn filter_parse(s: Seq<char>) -> Result<(FilterKey, Seq<char>), Seq<char>> {
    match first_colon(s) {
        None => Err(invalid_filter_message(s)),
        Some(k) => match filter_key_of(lowercase(s.take(k))) {
            Some(key) => Ok((key, s.skip(k + 1))),
            None => Err(unknown_filter_key_message(s.take(k))),
        },
    }
}

proof fn lemma_first_colon_at(s: Seq<char>, k: int)
    requires
        is_first_colon(s, k),
    ensures
        first_colon(s) == Some(k),
{
    let c = choose|c: int| is_first_colon(s, c);
    assert(is_first_colon(s, c));
    if c < k {
        assert(s[c] != ':');
    } else if c > k {
        assert(s[k] != ':');
    }
}

fn find_colon(v: &Vec<char>) -> (r: Option<usize>)
    ensures
        match r {
            Some(k) => is_first_colon(v@, k as int),
            None => forall|j: int| 0 <= j < v@.len() ==> v@[j] != ':',
        },
{
    let mut i: usize = 0;
    while i < v.len()
        invariant
            i <= v.len(),
            forall|j: int| 0 <= j < i ==> v@[j] != ':',
        decreases v.len() - i,
    {
        if v[i] == ':' {
            return Some(i);
        }
        i += 1;
    }
    None
}

impl Filter {
    /// Reads a filter from `key:value`. The key word is matched without regard
    /// to case; the value is everything after the first ':'.
    pub fn parse(s: &str) -> (r: Result<Filter, String>)
        ensures
            match r {
                Ok(f) => filter_parse(s@) == Ok::<(FilterKey, Seq<char>), Seq<char>>(
                    (f.key, f.value@),
                ),
                Err(e) => filter_parse(s@) == Err::<(FilterKey, Seq<char>), Seq<char>>(e@),
            },
    {
        let v = str_chars(s);
        match find_colon(&v) {
            None => {
                proof {
                    if exists|k: int| is_first_colon(s@, k) {
                        let k = choose|k: int| is_first_colon(s@, k);
                        assert(v@[k] == ':');
                    }
                }
                Err(concat3("Invalid filter format: '", s, "'. Expected 'key:value'"))
            },
            Some(k) => {
                proof {
                    lemma_first_colon_at(s@, k as int);
                }
                let word = string_of_range(&v, 0, k);
                let value = string_of_range(&v, k + 1, v.len());
                assert(word@ =~= s@.take(k as int));
                assert(value@ =~= s@.skip(k + 1));
                let lower = to_lowercase(word.as_str());
                if str_eq(lower.as_str(), "status") {
                    Ok(Filter { key: FilterKey::Status, value })
                } else if str_eq(lower.as_str(), "priority") {
                    Ok(Filter { key: FilterKey::Priority, value })
                } else if str_eq(lower.as_str(), "tag") {
                    Ok(Filter { key: FilterKey::Tag, value })
                } else {
                    Err(concat3("Unknown filter key: '", word.as_str(), "'"))
                }
            },
        }
    }
}

impl std::str::FromStr for Filter {
    type Err = String;

    /// Reads a filter as `Filter::parse` does.
    fn from_str(s: &str) -> (r: Result<Filter, String>)
        ensures
            match r {
                Ok(f) => filter_parse(s@) == Ok::<(FilterKey, Seq<char>), Seq<char>>(
                    (f.key, f.value@),
                ),
                Err(e) => filter_parse(s@) == Err::<(FilterKey, Seq<char>), Seq<char>>(e@),
            },
    {
        Filter::parse(s)
    }
}

/// What a task list is ordered by.
#[derive(Debug, Clone, Copy, PartialEq, Eq, Structural)]
pub enum SortKey {
    /// By priority.
    Priority,
    /// By due date.
    DueDate,
    /// By creation time.
    CreatedAt,
}

/// The sort key that a (lowercased) word names.
pub open spec fn sort_key_of(w: Seq<char>) -> Option<SortKey> {
    if w == "priority"@ {
        Some(SortKey::Priority)
    } else if w == "due_date"@ {
        Some(SortKey::DueDate)
    } else if w == "created_at"@ {
        Some(SortKey::CreatedAt)
    } else {
        None
    }
}

impl SortKey {
    /// Reads a sort key, without regard to case.
    pub fn parse(s: &str) -> (r: Result<SortKey, String>)
        ensures
            match r {
                Ok(k) => sort_key_of(lowercase(s@)) == Some(k),
                Err(e) => sort_key_of(lowercase(s@)) is None && e@ == "Unknown sort key: '"@
                    + s@ + "'"@,
            },
    {
        let lower = to_lowercase(s);
        if str_eq(lower.as_str(), "priority") {
            Ok(SortKey::Priority)
        } else if str_eq(lower.as_str(), "due_date") {
            Ok(SortKey::DueDate)
        } else if str_eq(lower.as_str(), "created_at") {
            Ok(SortKey::CreatedAt)
        } else {
            Err(concat3("Unknown sort key: '", s, "'"))
        }
    }
}

impl std::str::FromStr for SortKey {
    type Err = String;

    /// Reads a sort key as `SortKey::parse` does.
    fn from_str(s: &str) -> (r: Result<SortKey, String>)
        ensures
            match r {
                Ok(k) => sort_key_of(lowercase(s@)) == Some(k),
                Err(e) => sort_key_of(lowercase(s@)) is None && e@ == "Unknown sort key: '"@
                    + s@ + "'"@,
            },
    {
        SortKey::parse(s)
    }
}

/// The direction of a sort.
#[derive(Debug, Clone, Copy, PartialEq, Eq, Structural)]
pub enum Order {
    /// Smallest first.
    Asc,
    /// Largest first.
    Desc,
}

/// The order that a (lowercased) word names.
pub open spec fn order_of(w: Seq<char>) -> Option<Order> {
    if w == "asc"@ {
        Some(Order::Asc)
    } else if w == "desc"@ {
        Some(Order::Desc)
    } else {
        None
    }
}

impl Order {
    /// Reads a sort direction, without regard to case.
    pub fn parse(s: &str) -> (r: Result<Order, String>)
        ensures
            match r {
                Ok(o) => order_of(lowercase(s@)) == Some(o),
                Err(e) => order_of(lowercase(s@)) is None && e@ == "Unknown order: '"@ + s@
                    + "'"@,
            },
    {
        let lower = to_lowercase(s);
        if str_eq(lower.as_str(), "asc") {
            Ok(Order::Asc)
        } else if str_eq(lower.as_str(), "desc") {
            Ok(Order::Desc)
        } else {
            Err(concat3("Unknown order: '", s, "'"))
        }
    }
}

impl std::str::FromStr for Order {
    type Err = String;

    /// Reads a sort direction as `Order::parse` does.
    fn from_str(s: &str) -> (r: Result<Order, String>)
        ensures
            match r {
                Ok(o) => order_of(lowercase(s@)) == Some(o),
                Err(e) => order_of(lowercase(s@)) is None && e@ == "Unknown order: '"@ + s@
                    + "'"@,
            },
    {
        Order::parse(s)
    }
}


/// Whether a character is an ASCII decimal digit.
pub open spec fn is_digit(c: char) -> bool {
    '0' <= c && c <= '9'
}

/// The value of an ASCII decimal digit.
pub open spec fn digit_value(c: char) -> int {
    (c as int) - ('0' as int)
}

/// The value of a string of decimal digits, most significant first.
pub open spec fn digits_value(s: Seq<char>) -> int
    decreases s.len(),
{
    if s.len() == 0 {
        0
    } else {
        10 * digits_value(s.drop_last()) + digit_value(s.last())
    }
}

/// Whether `s` starts with '+' or '-'.
pub open spec fn has_sign(s: Seq<char>) -> bool {
    s.len() > 0 && (s[0] == '+' || s[0] == '-')
}

/// `s` without its leading sign, if it has one.
pub open spec fn unsigned_part(s: Seq<char>) -> Seq<char> {
    if has_sign(s) {
        s.skip(1)
    } else {
        s
    }
}

/// Whether every character of `d` is an ASCII digit.
pub open spec fn all_digits(d: Seq<char>) -> bool {
    forall|i: int| 0 <= i < d.len() ==> is_digit(#[trigger] d[i])
}

/// The integer that `s` spells as `str::parse` reads integers: an optional
/// '+' or '-', then one or more ASCII digits and nothing else.
pub open spec fn integer_value(s: Seq<char>) -> Option<int> {
    let d = unsigned_part(s);
    if d.len() > 0 && all_digits(d) {
        Some(
            if s[0] == '-' {
                -digits_value(d)
            } else {
                digits_value(d)
            },
        )
    } else {
        None
    }
}

/// The `i32` that `s` spells, if it spells one in range.
pub open spec fn i32_value(s: Seq<char>) -> Option<int> {
    match integer_value(s) {
        Some(v) => if i32::MIN <= v <= i32::MAX {
            Some(v)
        } else {
            None
        },
        None => None,
    }
}

proof fn lemma_digits_step(v: Seq<char>, lo: int, i: int)
    requires
        0 <= lo <= i < v.len(),
    ensures
        digits_value(v.subrange(lo, i + 1)) == 10 * digits_value(v.subrange(lo, i)) + digit_value(
            v[i],
        ),
{
    assert(v.subrange(lo, i + 1).drop_last() =~= v.subrange(lo, i));
}

/// Reads an `i32` as `str::parse::<i32>` does.
pub fn parse_i32(s: &str) -> (r: Option<i32>)
    ensures
        match r {
            Some(n) => i32_value(s@) == Some(n as int),
            None => i32_value(s@) is None,
        },
{
    let v = str_chars(s);
    let n = v.len();
    if n == 0 {
        return None;
    }
    let neg = v[0] == '-';
    let start: usize = if v[0] == '+' || v[0] == '-' {
        1
    } else {
        0
    };
    let ghost digits = unsigned_part(s@);
    assert(digits =~= v@.subrange(start as int, n as int));
    if start >= n {
        assert(digits.len() == 0);
        assert(integer_value(s@) is None);
        return None;
    }
    let mut acc: i64 = 0;
    let mut big = false;
    let mut i: usize = start;
    while i < n
        invariant
            n == v@.len(),
            v@ == s@,
            start <= i <= n,
            digits == v@.subrange(start as int, n as int),
            n > 0,
            digits == unsigned_part(s@),
            (start == 1) == has_sign(s@),
            neg == (s@[0] == '-'),
            forall|j: int| start <= j < i ==> is_digit(#[trigger] v@[j]),
            !big ==> acc == digits_value(v@.subrange(start as int, i as int)) && 0 <= acc
                <= 2147483648,
            big ==> digits_value(v@.subrange(start as int, i as int)) > 2147483648,
        decreases n - i,
    {
        let c = v[i];
        if !('0' <= c && c <= '9') {
            proof {
                assert(digits[i - start] == c);
                assert(!is_digit(digits[i - start]));
                assert(!all_digits(digits));
            }
            return None;
        }
        proof {
            lemma_digits_step(v@, start as int, i as int);
        }
        let d: i64 = (c as u32 - '0' as u32) as i64;
        if !big {
            let next = acc * 10 + d;
            if next > 2147483648 {
                big = true;
            } else {
                acc = next;
            }
        }
        i += 1;
    }
    assert forall|j: int| 0 <= j < digits.len() implies is_digit(#[trigger] digits[j]) by {
        assert(digits[j] == v@[start + j]);
    }
    assert(all_digits(digits));
    assert(v@.subrange(start as int, n as int) == digits);
    if big {
        None
    } else if neg {
        Some((0 - acc) as i32)
    } else if acc <= 2147483647 {
        Some(acc as i32)
    } else {
        None
    }
}

/// Reads an ID: an integer of at least 1.
pub fn parse_positive_id(s: &str) -> (r: Result<i32, String>)
    ensures
        match i32_value(s@) {
            None => r matches Err(e) && e@ == "ID must be an integer: "@ + s@,
            Some(v) => if v <= 0 {
                r matches Err(e) && e@ == "ID must be a positive integer (>= 1): "@
                    + spec_int_digits(v)
            } else {
                r == Ok::<i32, String>(v as i32)
            },
        },
{
    match parse_i32(s) {
        None => Err(concat2("ID must be an integer: ", s)),
        Some(id) => {
            if id <= 0 {
                let digits = int_to_string(id as i64);
                Err(concat2("ID must be a positive integer (>= 1): ", digits.as_str()))
            } else {
                Ok(id)
            }
        },
    }
}

/// Accepts a text unless trimming it would leave nothing; the text is kept
/// as given, untrimmed.
pub fn parse_non_empty_string(s: &str) -> (r: Result<String, String>)
    ensures
        is_blank(s@) ==> (r matches Err(e) && e@ == "Empty string is not allowed"@),
        !is_blank(s@) ==> (r matches Ok(t) && t@ == s@),
{
    if is_blank_str(s) {
        Err("Empty string is not allowed".to_string())
    } else {
        Ok(s.to_string())
    }
}


/// What chrono's `NaiveDate::parse_from_str(s, "%Y-%m-%d")` makes of `s`:
/// the date's (year, month, day) when it accepts the text, else the text of
/// its `ParseError`. A function of `s` alone.
pub uninterp spec fn ymd_parse(s: Seq<char>) -> Result<(int, int, int), Seq<char>>;

/// Calls chrono's `NaiveDate::parse_from_str` with the format `%Y-%m-%d`; an
/// accepted text comes back as the date's year, month and day (read with
/// `Datelike`), which name a valid day as every `NaiveDate` does, and an
/// error as the text that `ParseError`'s `Display` writes. Both are
/// `ymd_parse` of the input.
#[verifier::external_body]
fn parse_ymd(s: &str) -> (r: Result<(i32, u32, u32), String>)
    ensures
        match r {
            Ok(t) => ymd_parse(s@) == Ok::<(int, int, int), Seq<char>>(
                (t.0 as int, t.1 as int, t.2 as int),
            ) && valid_ymd(t.0 as int, t.1 as int, t.2 as int),
            Err(e) => ymd_parse(s@) == Err::<(int, int, int), Seq<char>>(e@),
        },
{
    match chrono::NaiveDate::parse_from_str(s, "%Y-%m-%d") {
        Ok(d) => Ok((chrono::Datelike::year(&d), chrono::Datelike::month(&d), chrono::Datelike::day(&d))),
        Err(e) => Err(e.to_string()),
    }
}

/// The message for a date that does not parse, given the parser's own text.
pub open spec fn date_error_message(err: Seq<char>) -> Seq<char> {
    "Failed to parse date: "@ + err + ". Please use YYYY-MM-DD format"@
}

/// Builds the message for a date that does not parse from the parser's text.
pub fn date_parse_message(err: &str) -> (r: String)
    ensures
        r@ == date_error_message(err@),
{
    concat3("Failed to parse date: ", err, ". Please use YYYY-MM-DD format")
}

/// Reads a date written `YYYY-MM-DD`.
pub fn parse_date(s: &str) -> (r: Result<CalendarDate, String>)
    ensures
        match r {
            Ok(d) => ymd_parse(s@) == Ok::<(int, int, int), Seq<char>>(d@),
            Err(m) => ymd_parse(s@) matches Err(e) && m@ == date_error_message(e),
        },
{
    match parse_ymd(s) {
        Ok((y, m, d)) => Ok(CalendarDate::from_ymd(y, m, d).unwrap()),
        Err(e) => Err(date_parse_message(e.as_str())),
    }
}

/// Which text a keyword search looks in.
#[derive(Debug, Clone, Copy, PartialEq, Eq, Structural)]
pub enum SearchFieldArg {
    /// The title only.
    Title,
    /// The description only.
    Description,
    /// Both the title and the description.
    All,
}

/// The command line as a whole: a subcommand, or none for the interactive view.
#[derive(Debug)]
pub struct Args {
    pub command: Option<Commands>,
}

/// The top-level subcommands.
#[derive(Debug)]
pub enum Commands {
    /// Task management.
    Task { command: TaskCommands },
    /// Tag management.
    Tag { command: TagCommands },
}

/// The task subcommands and their arguments.
#[derive(Debug)]
pub enum TaskCommands {
    /// List tasks.
    List { filter: Option<Vec<Filter>>, sort: Option<SortKey>, order: Option<Order> },
    /// Show one task.
    Show { id: i32 },
    /// Add a task; without a title it is asked for interactively.
    Add {
        title: Option<String>,
        description: Option<String>,
        status: Option<Status>,
        priority: Option<Priority>,
        tags: Option<Vec<i32>>,
        due_date: Option<CalendarDate>,
    },
    /// Delete a task.
    Delete { id: i32 },
    /// Edit a task; without any change given it is edited interactively.
    Edit {
        id: i32,
        title: Option<String>,
        description: Option<String>,
        status: Option<Status>,
        priority: Option<Priority>,
        tags: Option<Vec<i32>>,
        due_date: Option<CalendarDate>,
        clear_due_date: bool,
    },
    /// Show task statistics.
    Stats,
    /// Search tasks by keywords.
    Search { keywords: Option<String>, field: SearchFieldArg },
}

/// The tag subcommands and their arguments.
#[derive(Debug)]
pub enum TagCommands {
    /// List tags.
    List,
    /// Show one tag.
    Show { id: i32 },
    /// Add a tag; without a name it is asked for interactively.
    Add { name: Option<String>, description: Option<String> },
    /// Delete a tag.
    Delete { id: i32 },
    /// Edit a tag.
    Edit { id: i32, name: Option<String>, description: Option<String> },
}


/// Writing a filter as `key:value` and reading it back gives the same key
/// and value, for any key word (without ':') that names a key and any value,
/// ':' in the value included.
pub proof fn law_filter_round_trip(word: Seq<char>, value: Seq<char>)
    requires
        forall|i: int| 0 <= i < word.len() ==> word[i] != ':',
        filter_key_of(lowercase(word)) is Some,
    ensures
        filter_parse(word + ":"@ + value) == Ok::<(FilterKey, Seq<char>), Seq<char>>(
            (filter_key_of(lowercase(word))->0, value),
        ),
{
    reveal_strlit(":");
    let s = word + ":"@ + value;
    let k = word.len() as int;
    assert(s[k] == ':');
    assert forall|j: int| 0 <= j < k implies s[j] != ':' by {
        assert(s[j] == word[j]);
    }
    assert(is_first_colon(s, k));
    lemma_first_colon_at(s, k);
    assert(s.take(k) =~= word);
    assert(s.skip(k + 1) =~= value);
}

/// For an ASCII key word, the round trip needs no more than the word's
/// ASCII lowercase form naming a key: "Status:x", "TAG:a:b" and the like
/// read back as they were written.
pub proof fn law_filter_round_trip_ascii(word: Seq<char>, value: Seq<char>)
    requires
        forall|i: int| 0 <= i < word.len() ==> word[i] != ':',
        is_ascii_chars(word),
        filter_key_of(ascii_lower(word)) is Some,
    ensures
        filter_parse(word + ":"@ + value) == Ok::<(FilterKey, Seq<char>), Seq<char>>(
            (filter_key_of(ascii_lower(word))->0, value),
        ),
{
    assert(lowercase(word) == ascii_lower(word));
    law_filter_round_trip(word, value);
}

/// A text with no ':' is never a filter.
pub proof fn law_filter_needs_colon(s: Seq<char>)
    requires
        forall|i: int| 0 <= i < s.len() ==> s[i] != ':',
    ensures
        filter_parse(s) == Err::<(FilterKey, Seq<char>), Seq<char>>(invalid_filter_message(s)),
{
    if exists|k: int| is_first_colon(s, k) {
        let k = choose|k: int| is_first_colon(s, k);
        assert(s[k] == ':');
    }
}

} // verus!
