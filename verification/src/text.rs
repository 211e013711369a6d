//! Character classes and the small text operations of the pipeline:
//! trimming, quote swapping and the recognition of a JSONP call.
use vstd::prelude::*;

verus! {

broadcast use vstd::seq::group_seq_axioms;

/// Unicode's White_Space property on characters beyond ASCII.
pub uninterp spec fn unicode_white_space(c: char) -> bool;

/// Unicode's word characters (Alphabetic, Mark, Decimal_Number,
/// Connector_Punctuation, Join_Control) beyond ASCII.
pub uninterp spec fn unicode_word_char(c: char) -> bool;

/// Whitespace as Rust's `char::is_whitespace` and a regex's `\s` see it:
/// the ASCII space and the controls from tab to carriage return, and the
/// White_Space property beyond ASCII.
pub open spec fn is_white_space(c: char) -> bool {
    ||| c == ' '
    ||| (9 <= c as u32 && c as u32 <= 13)
    ||| (c as u32 > 0x7f && unicode_white_space(c))
}

/// The ASCII word characters: `[_0-9a-zA-Z]`.
pub open spec fn is_ascii_word_char(c: char) -> bool {
    ||| ('a' as u32 <= c as u32 && c as u32 <= 'z' as u32)
    ||| ('A' as u32 <= c as u32 && c as u32 <= 'Z' as u32)
    ||| ('0' as u32 <= c as u32 && c as u32 <= '9' as u32)
    ||| c == '_'
}

/// A regex's `\w`: the ASCII word characters, and the Unicode word
/// characters beyond ASCII.
pub open spec fn is_word_char(c: char) -> bool {
    is_ascii_word_char(c) || (c as u32 > 0x7f && unicode_word_char(c))
}

/// `char::is_whitespace`. Its source answers `' '` and `'\x09'..='\x0d'` with
/// `true`, and looks any other character beyond `'\x7f'` up in the
/// White_Space table; what that table holds is left to the name.
#[verifier::external_body]
fn char_is_whitespace(c: char) -> (b: bool)
    ensures
        b == (c == ' ' || (9 <= c as u32 && c as u32 <= 13) || (c as u32 > 0x7f
            && unicode_white_space(c))),
{
    c.is_whitespace()
}

/// `regex_syntax::is_word_character`, the class behind a regex's `\w`. Its
/// source accepts the bytes `[_0-9a-zA-Z]` at once and looks every other
/// character up in its table of word characters, whose ASCII part holds just
/// those bytes; what the table holds beyond ASCII is left to the name.
#[verifier::external_body]
fn char_is_word(c: char) -> (b: bool)
    ensures
        b == (is_ascii_word_char(c) || (c as u32 > 0x7f && unicode_word_char(c))),
{
    regex_syntax::is_word_character(c)
}

/// `String::push`: appends one character.
#[verifier::external_body]
fn push_char(s: &mut String, c: char)
    ensures
        final(s)@ == old(s)@.push(c),
{
    s.push(c)
}

/// The characters of `s`, one by one.
pub fn chars_of(s: &str) -> (r: Vec<char>)
    ensures
        r@ == s@,
{
    let mut out: Vec<char> = Vec::new();
    for c in it: s.chars()
        invariant
            it.seq() == s@,
            out@ == s@.take(it.index() as int),
    {
        out.push(c);
    }
    out
}

/// The string made of `chars[from..to]`.
pub fn string_of(chars: &Vec<char>, from: usize, to: usize) -> (r: String)
    requires
        from <= to <= chars.len(),
    ensures
        r@ == chars@.subrange(from as int, to as int),
{
    let mut out = String::new();
    let mut i = from;
    while i < to
        invariant
            from <= i <= to <= chars.len(),
            out@ == chars@.subrange(from as int, i as int),
        decreases to - i,
    {
        push_char(&mut out, chars[i]);
        assert(chars@.subrange(from as int, i + 1) =~= chars@.subrange(from as int, i as int).push(
            chars@[i as int],
        ));
        i += 1;
    }
    out
}

/// The first index at or after `i` that does not hold whitespace.
pub open spec fn skip_ws(s: Seq<char>, i: int) -> int
    decreases s.len() - i,
{
    if 0 <= i < s.len() && is_white_space(s[i]) {
        skip_ws(s, i + 1)
    } else {
        i
    }
}

/// The smallest `k <= j` such that `s[k..j]` is all whitespace.
pub open spec fn skip_ws_back(s: Seq<char>, j: int) -> int
    decreases j,
{
    if 0 < j <= s.len() && is_white_space(s[j - 1]) {
        skip_ws_back(s, j - 1)
    } else {
        j
    }
}

/// `s` without its leading and trailing whitespace.
pub open spec fn spec_trim(s: Seq<char>) -> Seq<char> {
    let start = skip_ws(s, 0);
    let end = skip_ws_back(s, s.len() as int);
    if start < end {
        s.subrange(start, end)
    } else {
        Seq::empty()
    }
}

/// What `skip_ws` finds: a run of whitespace, then a character that is not.
pub proof fn lemma_skip_ws(s: Seq<char>, i: int)
    requires
        0 <= i <= s.len(),
    ensures
        i <= skip_ws(s, i) <= s.len(),
        forall|k: int| i <= k < skip_ws(s, i) ==> is_white_space(#[trigger] s[k]),
        skip_ws(s, i) < s.len() ==> !is_white_space(s[skip_ws(s, i)]),
    decreases s.len() - i,
{
    if i < s.len() && is_white_space(s[i]) {
        lemma_skip_ws(s, i + 1);
    }
}

/// What `skip_ws_back` finds: a run of whitespace that does not follow whitespace.
pub proof fn lemma_skip_ws_back(s: Seq<char>, j: int)
    requires
        0 <= j <= s.len(),
    ensures
        0 <= skip_ws_back(s, j) <= j,
        forall|k: int| skip_ws_back(s, j) <= k < j ==> is_white_space(#[trigger] s[k]),
        skip_ws_back(s, j) > 0 ==> !is_white_space(s[skip_ws_back(s, j) - 1]),
    decreases j,
{
    if 0 < j && is_white_space(s[j - 1]) {
        lemma_skip_ws_back(s, j - 1);
    }
}

/// `skip_ws` stops at once where no whitespace stands.
proof fn lemma_skip_ws_none(s: Seq<char>, i: int)
    requires
        0 <= i <= s.len(),
        i < s.len() ==> !is_white_space(s[i]),
    ensures
        skip_ws(s, i) == i,
{
}

fn skip_whitespace(s: &Vec<char>, start: usize) -> (r: usize)
    requires
        start <= s.len(),
    ensures
        r == skip_ws(s@, start as int),
{
    let mut i = start;
    loop
        invariant
            start <= i <= s.len(),
            skip_ws(s@, i as int) == skip_ws(s@, start as int),
        decreases s.len() - i,
    {
        if i >= s.len() {
            return i;
        }
        if !char_is_whitespace(s[i]) {
            return i;
        }
        i += 1;
    }
}

fn skip_whitespace_back(s: &Vec<char>, end: usize) -> (r: usize)
    requires
        end <= s.len(),
    ensures
        r == skip_ws_back(s@, end as int),
{
    let mut j = end;
    loop
        invariant
            j <= end <= s.len(),
            skip_ws_back(s@, j as int) == skip_ws_back(s@, end as int),
        decreases j,
    {
        if j == 0 {
            return j;
        }
        if !char_is_whitespace(s[j - 1]) {
            return j;
        }
        j -= 1;
    }
}

/// `str::trim`: `text` without leading and trailing whitespace.
pub fn trim(text: &str) -> (r: String)
    ensures
        r@ == spec_trim(text@),
{
    let chars = chars_of(text);
    let start = skip_whitespace(&chars, 0);
    let end = skip_whitespace_back(&chars, chars.len());
    proof {
        lemma_skip_ws(chars@, 0);
        lemma_skip_ws_back(chars@, chars@.len() as int);
    }
    if start < end {
        string_of(&chars, start, end)
    } else {
        String::new()
    }
}

/// Trimming leaves no whitespace at either end.
pub proof fn law_trim_strips_whitespace(s: Seq<char>)
    ensures
        spec_trim(s).len() > 0 ==> !is_white_space(spec_trim(s)[0]) && !is_white_space(
            spec_trim(s).last(),
        ),
        spec_trim(s).len() <= s.len(),
{
    lemma_skip_ws(s, 0);
    lemma_skip_ws_back(s, s.len() as int);
}

/// Trimming twice trims no more than trimming once.
pub proof fn law_trim_idempotent(s: Seq<char>)
    ensures
        spec_trim(spec_trim(s)) == spec_trim(s),
{
    let t = spec_trim(s);
    law_trim_strips_whitespace(s);
    if t.len() > 0 {
        lemma_skip_ws_none(t, 0);
        assert(skip_ws_back(t, t.len() as int) == t.len());
        assert(t.subrange(0, t.len() as int) =~= t);
    } else {
        assert(skip_ws(t, 0) == 0);
    }
}

/// Single quotes turned into double quotes.
pub open spec fn spec_swap_quotes(s: Seq<char>) -> Seq<char> {
    s.map_values(|c: char| if c == '\'' { '"' } else { c })
}

/// `text.replace('\'', "\"")`: every single quote becomes a double quote.
pub fn swap_quotes(text: &str) -> (r: String)
    ensures
        r@ == spec_swap_quotes(text@),
{
    let mut out = String::new();
    for c in it: text.chars()
        invariant
            it.seq() == text@,
            out@ == spec_swap_quotes(text@.take(it.index() as int)),
    {
        let ghost i = it.index();
        if c == '\'' {
            push_char(&mut out, '"');
        } else {
            push_char(&mut out, c);
        }
        assert(spec_swap_quotes(text@.take(i + 1)) =~= spec_swap_quotes(text@.take(i)).push(
            if c == '\'' { '"' } else { c },
        ));
    }
    assert(text@.take(text@.len() as int) =~= text@);
    out
}

/// After swapping, no single quote is left, and the length is kept.
pub proof fn law_swap_quotes_leaves_no_single_quote(s: Seq<char>)
    ensures
        spec_swap_quotes(s).len() == s.len(),
        forall|i: int| 0 <= i < s.len() ==> #[trigger] spec_swap_quotes(s)[i] != '\'',
{
}

/// Swapping quotes twice swaps no more than once.
pub proof fn law_swap_quotes_idempotent(s: Seq<char>)
    ensures
        spec_swap_quotes(spec_swap_quotes(s)) == spec_swap_quotes(s),
{
    assert(spec_swap_quotes(spec_swap_quotes(s)) =~= spec_swap_quotes(s));
}

/// The characters of a JSONP callback's name: `[\w$_.]`.
pub open spec fn is_callback_char(c: char) -> bool {
    is_word_char(c) || c == '$' || c == '_' || c == '.'
}

/// The first index at or after `i` that does not hold a callback character.
pub open spec fn skip_callback(s: Seq<char>, i: int) -> int
    decreases s.len() - i,
{
    if 0 <= i < s.len() && is_callback_char(s[i]) {
        skip_callback(s, i + 1)
    } else {
        i
    }
}

/// Where the opening parenthesis of a JSONP call must stand: after leading
/// whitespace, the callback's name and more whitespace.
pub open spec fn jsonp_open(s: Seq<char>) -> int {
    skip_ws(s, skip_callback(s, skip_ws(s, 0)))
}

/// Where the closing parenthesis of a JSONP call must stand: before trailing
/// whitespace and an optional final semicolon.
pub open spec fn jsonp_close(s: Seq<char>) -> int {
    let end = if s.len() > 0 && s.last() == ';' {
        s.len() - 1
    } else {
        s.len() as int
    };
    skip_ws_back(s, end) - 1
}

/// The argument of a JSONP call `name(argument);`, as the pattern
/// `(?s)^\s*[\w$_.]+\s*\((?P<value>.+)\)\s*;?$` captures it: the text after the
/// opening parenthesis up to the last closing one, which may only be followed
/// by whitespace and one semicolon. `None` where `s` is no such call.
pub open spec fn spec_jsonp_argument(s: Seq<char>) -> Option<Seq<char>> {
    let name_start = skip_ws(s, 0);
    let name_end = skip_callback(s, name_start);
    let open = skip_ws(s, name_end);
    let close = jsonp_close(s);
    if name_start < name_end && open < s.len() && s[open] == '(' && open + 1 < close && s[close]
        == ')' {
        Some(s.subrange(open + 1, close))
    } else {
        None
    }
}

/// What `skip_callback` finds: a run of callback characters, then a character that is not.
pub proof fn lemma_skip_callback(s: Seq<char>, i: int)
    requires
        0 <= i <= s.len(),
    ensures
        i <= skip_callback(s, i) <= s.len(),
        forall|k: int| i <= k < skip_callback(s, i) ==> is_callback_char(#[trigger] s[k]),
        skip_callback(s, i) < s.len() ==> !is_callback_char(s[skip_callback(s, i)]),
    decreases s.len() - i,
{
    if i < s.len() && is_callback_char(s[i]) {
        lemma_skip_callback(s, i + 1);
    }
}

/// A run of callback characters ending where one that is not stands is skipped whole.
proof fn lemma_skip_callback_run(s: Seq<char>, i: int, j: int)
    requires
        0 <= i <= j <= s.len(),
        forall|k: int| i <= k < j ==> is_callback_char(#[trigger] s[k]),
        j < s.len() ==> !is_callback_char(s[j]),
    ensures
        skip_callback(s, i) == j,
    decreases j - i,
{
    if i < j {
        lemma_skip_callback_run(s, i + 1, j);
    }
}

fn skip_callback_chars(s: &Vec<char>, start: usize) -> (r: usize)
    requires
        start <= s.len(),
    ensures
        r == skip_callback(s@, start as int),
{
    let mut i = start;
    loop
        invariant
            start <= i <= s.len(),
            skip_callback(s@, i as int) == skip_callback(s@, start as int),
        decreases s.len() - i,
    {
        if i >= s.len() {
            return i;
        }
        let c = s[i];
        if !(char_is_word(c) || c == '$' || c == '_' || c == '.') {
            return i;
        }
        i += 1;
    }
}

/// The argument of the JSONP call that `text` holds, or `None` where `text`
/// is no JSONP call (see `spec_jsonp_argument`).
pub fn jsonp_argument(text: &str) -> (r: Option<String>)
    ensures
        match r {
            Some(arg) => spec_jsonp_argument(text@) == Some(arg@),
            None => spec_jsonp_argument(text@) is None,
        },
{
    let chars = chars_of(text);
    let n = chars.len();
    let name_start = skip_whitespace(&chars, 0);
    proof {
        lemma_skip_ws(chars@, 0);
    }
    let name_end = skip_callback_chars(&chars, name_start);
    proof {
        lemma_skip_callback(chars@, name_start as int);
    }
    let open = skip_whitespace(&chars, name_end);
    proof {
        lemma_skip_ws(chars@, name_end as int);
    }
    let end = if n > 0 && chars[n - 1] == ';' {
        n - 1
    } else {
        n
    };
    let after_close = skip_whitespace_back(&chars, end);
    proof {
        lemma_skip_ws_back(chars@, end as int);
    }
    if name_start < name_end && open < n && chars[open] == '(' && after_close >= 1 && open + 1
        < after_close - 1 && chars[after_close - 1] == ')' {
        Some(string_of(&chars, open + 1, after_close - 1))
    } else {
        None
    }
}

/// A JSONP call unwraps to its argument: for a callback name made of
/// callback characters that are not whitespace, and any non-empty argument,
/// `name(argument)` and `name(argument);` both give back the argument.
pub proof fn law_jsonp_unwraps_call(name: Seq<char>, argument: Seq<char>)
    requires
        name.len() > 0,
        argument.len() > 0,
        forall|i: int|
            0 <= i < name.len() ==> is_callback_char(#[trigger] name[i]) && !is_white_space(
                name[i],
            ),
    ensures
        spec_jsonp_argument(name + seq!['('] + argument + seq![')']) == Some(argument),
        spec_jsonp_argument(name + seq!['('] + argument + seq![')', ';']) == Some(argument),
{
    let a = name + seq!['('] + argument + seq![')'];
    let b = name + seq!['('] + argument + seq![')', ';'];
    assert(a.subrange(0, a.len() as int) =~= a);
    assert(b.subrange(0, b.len() - 1) =~= a);
    lemma_jsonp_call(name, argument, a, a.len() as int);
    lemma_jsonp_call(name, argument, b, b.len() - 1);
}

proof fn lemma_jsonp_call(name: Seq<char>, argument: Seq<char>, s: Seq<char>, end: int)
    requires
        name.len() > 0,
        argument.len() > 0,
        forall|i: int|
            0 <= i < name.len() ==> is_callback_char(#[trigger] name[i]) && !is_white_space(
                name[i],
            ),
        end == name.len() + argument.len() + 2,
        s.len() == end || s.len() == end + 1,
        s.subrange(0, end) == name + seq!['('] + argument + seq![')'],
        s.len() == end + 1 ==> s[end] == ';',
    ensures
        spec_jsonp_argument(s) == Some(argument),
{
    let t = name + seq!['('] + argument + seq![')'];
    assert forall|k: int| 0 <= k < end implies s[k] == t[k] by {
        assert(s.subrange(0, end)[k] == s[k]);
    }
    let open = name.len() as int;
    assert(s[open] == '(');
    assert(s[end - 1] == ')');
    assert(!is_white_space(s[0]));
    lemma_skip_ws_none(s, 0);
    assert forall|k: int| 0 <= k < open implies is_callback_char(#[trigger] s[k]) by {
        assert(s[k] == name[k]);
    }
    lemma_skip_callback_run(s, 0, open);
    lemma_skip_ws_none(s, open);
    assert(s.last() == ';' <==> s.len() == end + 1);
    assert(skip_ws_back(s, end) == end);
    assert(s.subrange(open + 1, end - 1) =~= argument);
}

} // verus!
