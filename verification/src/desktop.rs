//! The desktop client: where it finds the address of the server.
use crate::step::text_view;
use crate::text::{
    char_is_white_space, chars_of, find_char, is_white_space, lemma_position_of_char,
    position_of_char,
};
use vstd::prelude::*;
use vstd::string::*;

verus! {

/// The name of the setting that holds the address of the server, with the
/// sign that follows it in a file of settings.
pub open spec fn url_setting() -> Seq<char> {
    "TEST_SPECTRA_API_URL="@
}

/// The first position from `from` up to `to` at which a character other
/// than white space stands, or `to` where there is none.
pub open spec fn after_blanks(s: Seq<char>, from: int, to: int) -> int
    decreases to - from,
{
    if from >= to {
        to
    } else if !is_white_space(s[from]) {
        from
    } else {
        after_blanks(s, from + 1, to)
    }
}

/// The position after the last character other than white space between
/// `from` and `to`, or `from` where there is none.
pub open spec fn before_blanks(s: Seq<char>, from: int, to: int) -> int
    decreases to - from,
{
    if from >= to {
        from
    } else if !is_white_space(s[to - 1]) {
        to
    } else {
        before_blanks(s, from, to - 1)
    }
}

/// The first position from `from` up to `to` at which a character other
/// than a double quote stands, or `to` where there is none.
pub open spec fn after_quotes(s: Seq<char>, from: int, to: int) -> int
    decreases to - from,
{
    if from >= to {
        to
    } else if s[from] != '"' {
        from
    } else {
        after_quotes(s, from + 1, to)
    }
}

/// The position after the last character other than a double quote between
/// `from` and `to`, or `from` where there is none.
pub open spec fn before_quotes(s: Seq<char>, from: int, to: int) -> int
    decreases to - from,
{
    if from >= to {
        from
    } else if s[to - 1] != '"' {
        to
    } else {
        before_quotes(s, from, to - 1)
    }
}

/// Whether `prefix` stands in `s` at the position `at`, before `to`.
pub open spec fn stands_at(s: Seq<char>, prefix: Seq<char>, at: int, to: int) -> bool {
    at + prefix.len() <= to && s.subrange(at, at + prefix.len()) == prefix
}

/// The value of a setting that stands between `from` and `to`: what is left
/// of it without the white space around it and without the double quotes
/// around that.
pub open spec fn setting_value(s: Seq<char>, from: int, to: int) -> Seq<char> {
    let start = after_blanks(s, from, to);
    let end = before_blanks(s, start, to);
    let inner_start = after_quotes(s, start, end);
    let inner_end = before_quotes(s, inner_start, end);
    s.subrange(inner_start, inner_end)
}

/// The address of the server that the lines of `content` from position
/// `from` on set, if one of them sets it: the value of the first line that,
/// without the white space around it, begins with the name of the setting.
/// Empty lines and lines that begin with `#` say nothing.
pub open spec fn api_url_from(content: Seq<char>, from: int) -> Option<Seq<char>>
    decreases content.len() - from,
{
    if from < 0 || from > content.len() {
        None
    } else {
        let end = position_of_char(content, '\n', from);
        let start = after_blanks(content, from, end);
        let stop = before_blanks(content, start, end);
        if start < stop && 0 <= start < content.len() && content[start] != '#' && stands_at(
            content,
            url_setting(),
            start,
            stop,
        ) {
            Some(setting_value(content, start + url_setting().len(), stop))
        } else if end < content.len() {
            proof {
                lemma_position_of_char(content, '\n', from);
            }
            api_url_from(content, end + 1)
        } else {
            None
        }
    }
}

/// Executable form of [`after_blanks`].
fn skip_blanks(chars: &Vec<char>, from: usize, to: usize) -> (at: usize)
    requires
        from <= to <= chars@.len(),
    ensures
        at == after_blanks(chars@, from as int, to as int),
        from <= at <= to,
{
    let mut i: usize = from;
    while i < to
        invariant
            from <= i <= to,
            to <= chars@.len(),
            after_blanks(chars@, from as int, to as int) == after_blanks(
                chars@,
                i as int,
                to as int,
            ),
        decreases to - i,
    {
        if !char_is_white_space(chars[i]) {
            return i;
        }
        i += 1;
    }
    i
}

/// Executable form of [`before_blanks`].
fn drop_blanks(chars: &Vec<char>, from: usize, to: usize) -> (at: usize)
    requires
        from <= to <= chars@.len(),
    ensures
        at == before_blanks(chars@, from as int, to as int),
        from <= at <= to,
{
    let mut i: usize = to;
    while i > from
        invariant
            from <= i <= to,
            to <= chars@.len(),
            before_blanks(chars@, from as int, to as int) == before_blanks(
                chars@,
                from as int,
                i as int,
            ),
        decreases i - from,
    {
        if !char_is_white_space(chars[i - 1]) {
            return i;
        }
        i -= 1;
    }
    i
}

/// Executable form of [`after_quotes`].
fn skip_quotes(chars: &Vec<char>, from: usize, to: usize) -> (at: usize)
    requires
        from <= to <= chars@.len(),
    ensures
        at == after_quotes(chars@, from as int, to as int),
        from <= at <= to,
{
    let mut i: usize = from;
    while i < to
        invariant
            from <= i <= to,
            to <= chars@.len(),
            after_quotes(chars@, from as int, to as int) == after_quotes(
                chars@,
                i as int,
                to as int,
            ),
        decreases to - i,
    {
        if chars[i] != '"' {
            return i;
        }
        i += 1;
    }
    i
}

/// Executable form of [`before_quotes`].
fn drop_quotes(chars: &Vec<char>, from: usize, to: usize) -> (at: usize)
    requires
        from <= to <= chars@.len(),
    ensures
        at == before_quotes(chars@, from as int, to as int),
        from <= at <= to,
{
    let mut i: usize = to;
    while i > from
        invariant
            from <= i <= to,
            to <= chars@.len(),
            before_quotes(chars@, from as int, to as int) == before_quotes(
                chars@,
                from as int,
                i as int,
            ),
        decreases i - from,
    {
        if chars[i - 1] != '"' {
            return i;
        }
        i -= 1;
    }
    i
}

/// Executable form of [`stands_at`].
fn prefix_stands_at(chars: &Vec<char>, prefix: &Vec<char>, at: usize, to: usize) -> (stands: bool)
    requires
        at <= to <= chars@.len(),
    ensures
        stands == stands_at(chars@, prefix@, at as int, to as int),
{
    if prefix.len() > to - at {
        return false;
    }
    let mut i: usize = 0;
    while i < prefix.len()
        invariant
            i <= prefix.len(),
            at + prefix.len() <= to <= chars@.len(),
            forall|k: int| 0 <= k < i ==> chars@[at + k] == prefix@[k],
        decreases prefix.len() - i,
    {
        if chars[at + i] != prefix[i] {
            assert(chars@.subrange(at as int, at + prefix.len())[i as int] != prefix@[i as int]);
            return false;
        }
        i += 1;
    }
    assert(chars@.subrange(at as int, at + prefix.len()) =~= prefix@);
    true
}

/// Reads the address of the server from the content of a file of
/// settings.
pub fn parse_api_url(content: &str) -> (url: Option<String>)
    ensures
        text_view(url) == api_url_from(content@, 0),
{
    let chars = chars_of(content);
    let name = chars_of("TEST_SPECTRA_API_URL=");
    let mut from: usize = 0;
    loop
        invariant
            from <= chars.len(),
            chars@ == content@,
            name@ == url_setting(),
            api_url_from(content@, 0) == api_url_from(content@, from as int),
        decreases chars.len() - from,
    {
        let end = find_char(&chars, '\n', from);
        let start = skip_blanks(&chars, from, end);
        let stop = drop_blanks(&chars, start, end);
        if start < stop && chars[start] != '#' && prefix_stands_at(&chars, &name, start, stop) {
            let value_from = start + name.len();
            let value_start = skip_blanks(&chars, value_from, stop);
            let value_end = drop_blanks(&chars, value_start, stop);
            let inner_start = skip_quotes(&chars, value_start, value_end);
            let inner_end = drop_quotes(&chars, inner_start, value_end);
            return Some(content.substring_char(inner_start, inner_end).to_owned());
        }
        if end < chars.len() {
            from = end + 1;
        } else {
            return None;
        }
    }
}

/// The address of the server: the one that the environment sets, else the
/// one that the file of settings sets, else none, which is the empty text.
pub fn choose_api_url(from_environment: Option<String>, from_file: Option<String>) -> (url: String)
    ensures
        url@ == match text_view(from_environment) {
            Some(address) => address,
            None => crate::users::or_else(text_view(from_file), Seq::empty()),
        },
{
    match from_environment {
        Some(address) => address,
        None => match from_file {
            Some(address) => address,
            None => String::new(),
        },
    }
}

} // verus!
