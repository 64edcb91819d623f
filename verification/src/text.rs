//! Text from files.

use vstd::prelude::*;
use vstd::string::*;
use vstd::utf8::{encode_utf8, valid_utf8};

verus! {

/// The text that `bytes` encode, if they are UTF-8: `core::str::from_utf8`
/// accepts exactly the valid encodings, and the text is encoded by the bytes.
#[verifier::external_body]
fn text_of(bytes: &[u8]) -> (r: Option<String>)
    ensures
        match r {
            Some(s) => encode_utf8(s@) == bytes@,
            None => !valid_utf8(bytes@),
        },
{
    core::str::from_utf8(bytes).ok().map(String::from)
}

/// The text of a terminated string: `bytes` up to their last one, which is the
/// only zero. `None` if there is another zero or none at the end, or if the
/// rest is not UTF-8.
pub fn terminated_text(bytes: &[u8]) -> (r: Option<String>)
    ensures
        ({
            let terminated = bytes@.len() > 0 && bytes@.last() == 0 && forall|i: int|
                0 <= i < bytes@.len() - 1 ==> bytes@[i] != 0;
            match r {
                Some(s) => terminated && encode_utf8(s@) == bytes@.drop_last(),
                None => !(terminated && valid_utf8(bytes@.drop_last())),
            }
        }),
{
    let n: usize = bytes.len();
    if n == 0 || bytes[n - 1] != 0 {
        return None;
    }
    let mut i: usize = 0;
    while i < n - 1
        invariant
            n == bytes@.len(),
            0 <= i <= n - 1,
            forall|k: int| 0 <= k < i ==> bytes@[k] != 0,
        decreases n - i,
    {
        if bytes[i] == 0 {
            return None;
        }
        i = i + 1;
    }
    let text = vstd::slice::slice_subrange(bytes, 0, n - 1);
    assert(text@ =~= bytes@.drop_last());
    text_of(text)
}

/// The characters that Unicode calls white space.
pub open spec fn is_white(c: char) -> bool {
    let u = c as u32;
    ||| 0x9 <= u <= 0xd
    ||| u == 0x20
    ||| u == 0x85
    ||| u == 0xa0
    ||| u == 0x1680
    ||| 0x2000 <= u <= 0x200a
    ||| u == 0x2028
    ||| u == 0x2029
    ||| u == 0x202f
    ||| u == 0x205f
    ||| u == 0x3000
}

/// The characters that are white space in ASCII: all but the vertical tab.
pub open spec fn is_ascii_white(c: char) -> bool {
    let u = c as u32;
    u == 0x9 || u == 0xa || u == 0xc || u == 0xd || u == 0x20
}

/// `c` is white space, of the ASCII kind if `ascii`.
pub open spec fn is_blank(c: char, ascii: bool) -> bool {
    if ascii {
        is_ascii_white(c)
    } else {
        is_white(c)
    }
}

/// Whether `c` is white space, of the ASCII kind if `ascii`.
fn blank(c: char, ascii: bool) -> (r: bool)
    ensures
        r == is_blank(c, ascii),
{
    let u: u32 = c as u32;
    if ascii {
        u == 0x9 || u == 0xa || u == 0xc || u == 0xd || u == 0x20
    } else {
        (0x9 <= u && u <= 0xd) || u == 0x20 || u == 0x85 || u == 0xa0 || u == 0x1680 || (0x2000
            <= u && u <= 0x200a) || u == 0x2028 || u == 0x2029 || u == 0x202f || u == 0x205f || u
            == 0x3000
    }
}

/// `s` without white space at its start.
pub open spec fn trim_start(s: Seq<char>, ascii: bool) -> Seq<char>
    decreases s.len(),
{
    if s.len() > 0 && is_blank(s[0], ascii) {
        trim_start(s.skip(1), ascii)
    } else {
        s
    }
}

/// `s` without white space at its end.
pub open spec fn trim_end(s: Seq<char>, ascii: bool) -> Seq<char>
    decreases s.len(),
{
    if s.len() > 0 && is_blank(s.last(), ascii) {
        trim_end(s.drop_last(), ascii)
    } else {
        s
    }
}

/// `s` without white space at its ends.
pub open spec fn trimmed(s: Seq<char>, ascii: bool) -> Seq<char> {
    trim_end(trim_start(s, ascii), ascii)
}

/// `s` without white space at its ends.
pub fn trim<'a>(s: &'a str, ascii: bool) -> (r: &'a str)
    ensures
        r@ == trimmed(s@, ascii),
{
    let n: usize = s.unicode_len();
    let mut from: usize = 0;
    assert(s@.skip(0) =~= s@);
    while from < n && blank(s.get_char(from), ascii)
        invariant
            n == s@.len(),
            from <= n,
            trim_start(s@, ascii) == trim_start(s@.skip(from as int), ascii),
        decreases n - from,
    {
        assert(s@.skip(from as int).skip(1) =~= s@.skip(from + 1));
        from = from + 1;
    }
    assert(trim_start(s@, ascii) == s@.skip(from as int));
    let mut to: usize = n;
    assert(s@.subrange(from as int, to as int) =~= s@.skip(from as int));
    while from < to && blank(s.get_char(to - 1), ascii)
        invariant
            n == s@.len(),
            from <= to <= n,
            trim_end(s@.skip(from as int), ascii) == trim_end(
                s@.subrange(from as int, to as int),
                ascii,
            ),
        decreases to,
    {
        assert(s@.subrange(from as int, to as int).drop_last() =~= s@.subrange(
            from as int,
            to - 1,
        ));
        to = to - 1;
    }
    s.substring_char(from, to)
}

/// The position of the first white space of the ASCII kind; the length if
/// there is none.
pub open spec fn first_blank(s: Seq<char>) -> int
    decreases s.len(),
{
    if s.len() == 0 || is_ascii_white(s[0]) {
        0
    } else {
        1 + first_blank(s.skip(1))
    }
}

/// The words that a script names after `#!`: the interpreter and, after white
/// space, all the rest as one argument.
pub open spec fn interpreter_words(line: Seq<char>) -> Seq<Seq<char>> {
    let t = trimmed(line, false);
    let i = first_blank(t);
    if i < t.len() {
        seq![trimmed(t.take(i), true), trimmed(t.skip(i + 1), true)]
    } else {
        seq![trimmed(t, true)]
    }
}

/// The words that a script names after `#!`.
pub fn split_interpreter_line(line: &str) -> (r: Vec<String>)
    ensures
        r@.map_values(|s: String| s@) == interpreter_words(line@),
{
    let t = trim(line, false);
    let n: usize = t.unicode_len();
    let mut i: usize = 0;
    assert(t@.skip(0) =~= t@);
    while i < n && !blank(t.get_char(i), true)
        invariant
            n == t@.len(),
            i <= n,
            first_blank(t@) == i + first_blank(t@.skip(i as int)),
        decreases n - i,
    {
        assert(t@.skip(i as int).skip(1) =~= t@.skip(i + 1));
        i = i + 1;
    }
    assert(first_blank(t@) == i);
    let mut words: Vec<String> = Vec::new();
    let first = trim(t.substring_char(0, i), true);
    words.push(String::from_str(first));
    if i < n {
        let rest = trim(t.substring_char(i + 1, n), true);
        words.push(String::from_str(rest));
    }
    proof {
        assert(t@.subrange(0, i as int) =~= t@.take(i as int));
        if i < n {
            assert(t@.subrange(i + 1, n as int) =~= t@.skip(i + 1));
        } else {
            assert(t@.take(i as int) =~= t@);
        }
        assert(words@.map_values(|s: String| s@) =~= interpreter_words(line@));
    }
    words
}

/// The position of the first line feed in `data`; its length if there is none.
pub open spec fn line_len(data: Seq<u8>) -> int
    decreases data.len(),
{
    if data.len() == 0 || data[0] == 0xa {
        0
    } else {
        1 + line_len(data.skip(1))
    }
}

/// The first line of `data`, without its line feed.
fn first_line(data: &[u8]) -> (r: &[u8])
    ensures
        r@ == data@.take(line_len(data@)),
        0 <= line_len(data@) <= data@.len(),
{
    let n: usize = data.len();
    let mut i: usize = 0;
    assert(data@.skip(0) =~= data@);
    while i < n && data[i] != 0xa
        invariant
            n == data@.len(),
            i <= n,
            line_len(data@) == i + line_len(data@.skip(i as int)),
        decreases n - i,
    {
        assert(data@.skip(i as int).skip(1) =~= data@.skip(i + 1));
        i = i + 1;
    }
    let r = vstd::slice::slice_subrange(data, 0, i);
    assert(r@ =~= data@.take(i as int));
    r
}

/// How far into a script its interpreter is looked for.
pub const SCRIPT_HEAD: usize = 256;

/// The bytes begin with `#!`.
pub open spec fn is_script(data: Seq<u8>) -> bool {
    data.len() >= 2 && data[0] == 0x23 && data[1] == 0x21
}

/// The bytes of the line after `#!`, up to the limit.
pub open spec fn script_line(data: Seq<u8>) -> Seq<u8> {
    let end = if data.len() <= SCRIPT_HEAD {
        data.len() as int
    } else {
        SCRIPT_HEAD as int
    };
    let head = data.subrange(2, end);
    head.take(line_len(head))
}

/// The line after `#!` at the beginning of a script. `None` if it is not
/// UTF-8.
pub fn script_text(data: &[u8]) -> (r: Option<String>)
    requires
        is_script(data@),
    ensures
        match r {
            Some(s) => encode_utf8(s@) == script_line(data@),
            None => !valid_utf8(script_line(data@)),
        },
{
    let end: usize = if data.len() <= SCRIPT_HEAD {
        data.len()
    } else {
        SCRIPT_HEAD
    };
    let head = vstd::slice::slice_subrange(data, 2, end);
    let line = first_line(head);
    text_of(line)
}

/// Whether `data` begins with `#!`.
pub fn begins_script(data: &[u8]) -> (r: bool)
    ensures
        r == is_script(data@),
{
    data.len() >= 2 && data[0] == 0x23 && data[1] == 0x21
}

/// `c` is a space: a blank, a tab, a line feed, a form feed or a carriage
/// return; and unless only those of ASCII are asked for, also a vertical tab, a
/// next line, a no-break space or one of the spaces and separators beyond.
pub open spec fn is_space(c: char, ascii: bool) -> bool {
    let u = c as u32;
    ||| u == 32 || u == 9 || u == 10 || u == 12 || u == 13
    ||| !ascii && (u == 11 || u == 133 || u == 160 || u == 5760 || 8192 <= u <= 8202 || u == 8232
        || u == 8233 || u == 8239 || u == 8287 || u == 12288)
}

/// `r` is a part of `s` with nothing but spaces before and behind it, and neither
/// begins nor ends with one.
pub open spec fn is_trimmed_of(r: Seq<char>, s: Seq<char>, ascii: bool) -> bool {
    &&& r.len() > 0 ==> !is_space(r[0], ascii) && !is_space(r.last(), ascii)
    &&& exists|from: int|
        {
            &&& 0 <= from <= s.len() - r.len()
            &&& #[trigger] s.subrange(from, from + r.len()) == r
            &&& forall|i: int|
                0 <= i < s.len() && !(from <= i < from + r.len()) ==> is_space(
                    #[trigger] s[i],
                    ascii,
                )
        }
}

/// Leaving out the white space at the start leaves out only that.
proof fn lemma_trim_start(s: Seq<char>, ascii: bool)
    ensures
        ({
            let t = trim_start(s, ascii);
            &&& t.len() <= s.len()
            &&& t == s.skip(s.len() - t.len())
            &&& forall|i: int|
                0 <= i < s.len() - t.len() ==> is_blank(#[trigger] s[i], ascii)
            &&& t.len() > 0 ==> !is_blank(t[0], ascii)
        }),
    decreases s.len(),
{
    if s.len() > 0 && is_blank(s[0], ascii) {
        lemma_trim_start(s.skip(1), ascii);
        let t = trim_start(s, ascii);
        assert(t =~= s.skip(s.len() - t.len()));
        assert forall|i: int| 0 <= i < s.len() - t.len() implies is_blank(
            #[trigger] s[i],
            ascii,
        ) by {
            if i > 0 {
                assert(s[i] == s.skip(1)[i - 1]);
            }
        }
    } else {
        assert(s =~= s.skip(0));
    }
}

/// Leaving out the white space at the end leaves out only that.
proof fn lemma_trim_end(s: Seq<char>, ascii: bool)
    ensures
        ({
            let t = trim_end(s, ascii);
            &&& t.len() <= s.len()
            &&& t == s.take(t.len() as int)
            &&& forall|i: int| t.len() <= i < s.len() ==> is_blank(#[trigger] s[i], ascii)
            &&& t.len() > 0 ==> !is_blank(t.last(), ascii)
        }),
    decreases s.len(),
{
    if s.len() > 0 && is_blank(s.last(), ascii) {
        lemma_trim_end(s.drop_last(), ascii);
        let t = trim_end(s, ascii);
        assert(t =~= s.take(t.len() as int));
        assert forall|i: int| t.len() <= i < s.len() implies is_blank(#[trigger] s[i], ascii) by {
            if i < s.len() - 1 {
                assert(s[i] == s.drop_last()[i]);
            }
        }
    } else {
        assert(s =~= s.take(s.len() as int));
    }
}

/// Trimming leaves out the spaces at the ends, and nothing else.
proof fn lemma_trimmed(s: Seq<char>, ascii: bool)
    ensures
        is_trimmed_of(trimmed(s, ascii), s, ascii),
{
    let a = trim_start(s, ascii);
    let t = trimmed(s, ascii);
    lemma_trim_start(s, ascii);
    lemma_trim_end(a, ascii);
    let from = s.len() - a.len();
    assert(s.subrange(from, from + t.len()) =~= t);
    assert forall|i: int| 0 <= i < s.len() && !(from <= i < from + t.len()) implies is_space(
        #[trigger] s[i],
        ascii,
    ) by {
        if i >= from {
            assert(s[i] == a[i - from]);
        }
        assert(is_blank(s[i], ascii));
    }
    if t.len() > 0 {
        assert(t[0] == a[0]);
    }
}

/// Trimming leaves out the spaces at the ends of a text, and nothing else.
pub proof fn law_only_spaces_at_the_ends_go(s: &str, ascii: bool, r: &str)
    requires
        call_ensures(trim, (s, ascii), r),
    ensures
        is_trimmed_of(r@, s@, ascii),
{
    lemma_trimmed(s@, ascii);
}

/// The first white space comes after none.
proof fn lemma_first_blank(s: Seq<char>)
    ensures
        0 <= first_blank(s) <= s.len(),
        forall|i: int| 0 <= i < first_blank(s) ==> !is_ascii_white(#[trigger] s[i]),
        first_blank(s) < s.len() ==> is_ascii_white(s[first_blank(s)]),
    decreases s.len(),
{
    if !(s.len() == 0 || is_ascii_white(s[0])) {
        lemma_first_blank(s.skip(1));
        assert forall|i: int| 0 <= i < first_blank(s) implies !is_ascii_white(#[trigger] s[i]) by {
            if i > 0 {
                assert(s[i] == s.skip(1)[i - 1]);
            }
        }
    }
}

/// The words name the interpreter of the line, which goes up to the first space
/// behind those at the start of the line, and, if more follows, all of that as
/// one argument; without the spaces around them.
pub open spec fn names_interpreter(words: Seq<Seq<char>>, line: Seq<char>) -> bool {
    exists|t: Seq<char>|
        {
            &&& #[trigger] is_trimmed_of(t, line, false)
            &&& words.len() == 1 || words.len() == 2
            &&& forall|i: int| 0 <= i < words[0].len() ==> !is_space(#[trigger] words[0][i], true)
            &&& words.len() == 1 ==> words[0] == t
            &&& words.len() == 2 ==> {
                let n = words[0].len() as int;
                &&& n < t.len() && words[0] == t.take(n) && is_space(t[n], true)
                &&& is_trimmed_of(words[1], t.skip(n + 1), true)
            }
        }
}

/// Text without spaces is as it is once trimmed.
proof fn lemma_trimmed_word(s: Seq<char>)
    requires
        forall|i: int| 0 <= i < s.len() ==> !is_ascii_white(#[trigger] s[i]),
    ensures
        trimmed(s, true) == s,
{
    if s.len() > 0 {
        assert(!is_ascii_white(s[0]));
        assert(!is_ascii_white(s[s.len() - 1]));
    }
}

/// The words of a line name its interpreter and its argument.
pub proof fn lemma_interpreter_words(line: Seq<char>)
    ensures
        names_interpreter(interpreter_words(line), line),
{
    let t = trimmed(line, false);
    let i = first_blank(t);
    let words = interpreter_words(line);
    lemma_trimmed(line, false);
    lemma_first_blank(t);
    if i < t.len() {
        lemma_trimmed_word(t.take(i));
        lemma_trimmed(t.skip(i + 1), true);
        assert(words[0] == t.take(i));
    } else {
        lemma_trimmed_word(t);
        assert(words[0] == t);
    }
    assert(is_trimmed_of(t, line, false));
}

/// The line of a script is split into its interpreter and at most one argument.
pub proof fn law_line_names_the_interpreter(line: &str, r: Vec<String>)
    requires
        call_ensures(split_interpreter_line, (line,), r),
    ensures
        names_interpreter(r@.map_values(|s: String| s@), line@),
{
    lemma_interpreter_words(line@);
}

/// A line ends before the first line feed.
proof fn lemma_line_len(data: Seq<u8>)
    ensures
        0 <= line_len(data) <= data.len(),
        forall|i: int| 0 <= i < line_len(data) ==> #[trigger] data[i] != 10,
        line_len(data) < data.len() ==> data[line_len(data)] == 10,
    decreases data.len(),
{
    if !(data.len() == 0 || data[0] == 0xa) {
        lemma_line_len(data.skip(1));
        assert forall|i: int| 0 <= i < line_len(data) implies #[trigger] data[i] != 10 by {
            if i > 0 {
                assert(data[i] == data.skip(1)[i - 1]);
            }
        }
    }
}

/// `line` is what stands behind the first two bytes of `data`, up to a line feed,
/// or to the end of the file or of its first 256 bytes if there is none.
pub open spec fn is_line_of(line: Seq<u8>, data: Seq<u8>) -> bool {
    let end = 2 + line.len();
    &&& end <= data.len() && end <= 256
    &&& line == data.subrange(2, end as int)
    &&& forall|i: int| 2 <= i < end ==> #[trigger] data[i] != 10
    &&& end == data.len() || end == 256 || data[end as int] == 10
}

/// The line of a script is what stands behind the first two bytes.
pub proof fn lemma_script_line(data: Seq<u8>)
    requires
        data.len() >= 2,
    ensures
        is_line_of(script_line(data), data),
{
    let end = if data.len() <= SCRIPT_HEAD {
        data.len() as int
    } else {
        SCRIPT_HEAD as int
    };
    let head = data.subrange(2, end);
    lemma_line_len(head);
    let line = script_line(data);
    assert(line =~= data.subrange(2, 2 + line.len() as int));
    assert forall|i: int| 2 <= i < 2 + line.len() implies #[trigger] data[i] != 10 by {
        assert(data[i] == head[i - 2]);
    }
}

/// A script is a file that begins with a hash and an exclamation mark, and its
/// text is that of its first line behind them.
pub proof fn law_script_says_its_line(data: &[u8], begins: bool, r: Option<String>)
    requires
        data@.len() >= 2 && data@[0] == 35 && data@[1] == 33,
        call_ensures(begins_script, (data,), begins),
        call_ensures(script_text, (data,), r),
    ensures
        begins,
        r matches Some(line) ==> is_line_of(encode_utf8(line@), data@),
        r is None ==> exists|line: Seq<u8>| #[trigger]
            is_line_of(line, data@) && !valid_utf8(line),
{
    lemma_script_line(data@);
}

/// A file that begins otherwise is no script.
pub proof fn law_other_files_are_no_scripts(data: &[u8], begins: bool)
    requires
        call_ensures(begins_script, (data,), begins),
    ensures
        begins ==> data@.len() > 1 && data@[0] == 35 && data@[1] == 33,
{
}

/// A terminated text is what stands before its terminator; a terminator in its
/// midst, none, or anything but text is refused.
pub proof fn law_terminated_text(bytes: &[u8], r: Option<String>)
    requires
        call_ensures(terminated_text, (bytes,), r),
    ensures
        r matches Some(s) ==> bytes@ == encode_utf8(s@).push(0) && !encode_utf8(s@).contains(0),
        forall|text: Seq<u8>|
            bytes@ == #[trigger] text.push(0) && !text.contains(0) && valid_utf8(text) ==> r is Some,
{
    if r is Some {
        let t = encode_utf8(r->0@);
        assert(bytes@ =~= t.push(0));
        assert forall|i: int| 0 <= i < t.len() implies t[i] != 0 by {
            assert(t[i] == bytes@[i]);
        }
    }
    assert forall|text: Seq<u8>|
        bytes@ == #[trigger] text.push(0) && !text.contains(0) && valid_utf8(
            text,
        ) implies r is Some by {
        assert(bytes@.drop_last() =~= text);
        assert forall|i: int| 0 <= i < bytes@.len() - 1 implies bytes@[i] != 0 by {
            assert(bytes@[i] == text[i]);
            assert(text.contains(text[i]));
        }
    }
}

} // verus!
