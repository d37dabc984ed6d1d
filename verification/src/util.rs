//! Arguments joined into and split from one shell word list, and the name
//! servers of a resolver configuration.

use vstd::prelude::*;
use vstd::string::*;
use vstd::slice::*;
use vstd::utf8::{decode_utf8, valid_utf8};
use crate::text::{
    all_digits, chars_of, decode, digits_value, fields, find_char, join, joined, lemma_line_len_is,
    pieces, push_char, split_whitespace, texts, trim, trimmed, words,
};
use crate::types::{trim_brackets, without_brackets};

verus! {

/// Whether the shell gives `c` a meaning of its own.
pub open spec fn needs_escape(c: char) -> bool {
    c == '\\' || c == ' ' || c == '\t' || c == '\r' || c == '\n' || c == '\'' || c == '"' || c
        == '`' || c == '<' || c == '>' || c == '[' || c == ']' || c == '(' || c == ')' || c == '{'
        || c == '}' || c == '|' || c == ';' || c == '&' || c == '$' || c == '#' || c == '*' || c
        == '?' || c == '!'
}

/// `s` with a backslash in front of every character that needs one.
pub open spec fn escaped(s: Seq<char>) -> Seq<char>
    decreases s.len(),
{
    if s.len() == 0 {
        Seq::empty()
    } else if needs_escape(s.last()) {
        escaped(s.drop_last()) + seq!['\\', s.last()]
    } else {
        escaped(s.drop_last()) + seq![s.last()]
    }
}

/// Every argument escaped.
pub open spec fn all_escaped(args: Seq<Seq<char>>) -> Seq<Seq<char>> {
    Seq::new(args.len(), |i: int| escaped(args[i]))
}

/// `arg` with a backslash in front of every character that the shell gives a
/// meaning of its own.
pub fn escape_shell_arg(arg: &str) -> (out: String)
    ensures
        out@ == escaped(arg@),
{
    let chars = chars_of(arg);
    let mut out = String::new();
    let mut i: usize = 0;
    while i < chars.len()
        invariant
            i <= chars.len(),
            chars@ == arg@,
            out@ == escaped(chars@.take(i as int)),
        decreases chars.len() - i,
    {
        let c: char = chars[i];
        let special = c == '\\' || c == ' ' || c == '\t' || c == '\r' || c == '\n' || c == '\''
            || c == '"' || c == '`' || c == '<' || c == '>' || c == '[' || c == ']' || c == '('
            || c == ')' || c == '{' || c == '}' || c == '|' || c == ';' || c == '&' || c == '$'
            || c == '#' || c == '*' || c == '?' || c == '!';
        if special {
            push_char(&mut out, '\\');
        }
        push_char(&mut out, c);
        i = i + 1;
        proof {
            let done = chars@.take(i as int);
            assert(done.drop_last() == chars@.take(i - 1));
        }
    }
    assert(chars@.take(i as int) == chars@);
    out
}

/// Joins `args` into one line for the shell: each argument escaped, one
/// space between each two.
pub fn join_shell_args(args: &Vec<String>) -> (line: String)
    ensures
        line@ == joined(all_escaped(texts(args@)), seq![' ']),
{
    let mut out: Vec<String> = Vec::new();
    let mut i: usize = 0;
    while i < args.len()
        invariant
            i <= args.len(),
            out@.len() == i,
            forall|j: int| 0 <= j < i ==> (#[trigger] out@[j])@ == escaped(args@[j]@),
        decreases args.len() - i,
    {
        out.push(escape_shell_arg(args[i].as_str()));
        i = i + 1;
    }
    assert(texts(out@) == all_escaped(texts(args@)));
    proof {
        reveal_strlit(" ");
        assert(" "@ == seq![' ']);
    }
    join(&out, " ")
}

/// What `shlex::split` makes of a line: the words that a POSIX shell would
/// read from it, or nothing where the line ends inside a quotation or after
/// a lone backslash.
pub uninterp spec fn shell_words(line: Seq<char>) -> Option<Seq<Seq<char>>>;

/// The texts of the strings, where there are any.
pub open spec fn option_texts(v: Option<Vec<String>>) -> Option<Seq<Seq<char>>> {
    match v {
        Some(v) => Some(texts(v@)),
        None => None,
    }
}

/// `shlex::split`. The result depends on the line alone and is what
/// [`shell_words`] stands for; nothing more is claimed of it.
#[verifier::external_body]
fn shlex_split(line: &str) -> (r: Option<Vec<String>>)
    ensures
        option_texts(r) == shell_words(line@),
{
    shlex::split(line)
}

/// Splits a line into the words that a shell would read from it. `None`
/// where the line is not well-formed.
pub fn split_shell_args(line: &str) -> (r: Option<Vec<String>>)
    ensures
        option_texts(r) == shell_words(line@),
{
    shlex_split(line)
}

/// The most name servers taken from a resolver configuration.
pub const MAX_NAMESERVERS: usize = 11;

/// The address that a line of a resolver configuration names as a name
/// server: the second of exactly two words, the first being `nameserver`.
/// Empty lines and lines that begin with `#` name none.
pub open spec fn nameserver_of(line: Seq<char>) -> Option<Seq<char>> {
    let text = trimmed(line);
    if text.len() == 0 || text[0] == '#' {
        None
    } else if words(text).len() == 2 && words(text)[0] == "nameserver"@ {
        Some(words(text)[1])
    } else {
        None
    }
}

/// Reads one line of a resolver configuration. The address is handed back
/// as written; whether it is one is for the caller to find out.
pub fn nameserver_entry(line: &str) -> (r: Option<String>)
    ensures
        match r {
            Some(addr) => nameserver_of(line@) == Some(addr@),
            None => nameserver_of(line@) is None,
        },
{
    let text = trim(line);
    let chars = chars_of(text.as_str());
    if chars.len() == 0 || chars[0] == '#' {
        return None;
    }
    let parts = split_whitespace(text.as_str());
    if parts.len() != 2 {
        return None;
    }
    if crate::text::same_text(parts[0].as_str(), "nameserver") {
        Some(parts[1].clone())
    } else {
        None
    }
}

/// The name servers to use: those the user gave; without any, those of the
/// resolver configuration; without any of those either, two public ones.
pub open spec fn chosen_nameservers(user: Seq<Seq<char>>, system: Seq<Seq<char>>) -> Seq<
    Seq<char>,
> {
    if user.len() > 0 {
        user
    } else if system.len() > 0 {
        system
    } else {
        seq!["8.8.8.8"@, "8.8.4.4"@]
    }
}

/// Chooses the name servers from those the user gave and those found in
/// the resolver configuration.
pub fn nameservers(user: Vec<String>, system: Vec<String>) -> (chosen: Vec<String>)
    ensures
        texts(chosen@) == chosen_nameservers(texts(user@), texts(system@)),
{
    if user.len() > 0 {
        user
    } else if system.len() > 0 {
        system
    } else {
        let mut fallback: Vec<String> = Vec::new();
        fallback.push(String::from_str("8.8.8.8"));
        fallback.push(String::from_str("8.8.4.4"));
        fallback
    }
}

/// Whether `s` is one number of an IPv4 address: one to three digits that
/// spell at most 255, with no zero in front of another digit.
pub open spec fn is_octet(s: Seq<char>) -> bool {
    &&& 1 <= s.len() <= 3
    &&& all_digits(s)
    &&& s.len() > 1 ==> s[0] != '0'
    &&& digits_value(s) <= 255
}

/// Whether `s` is an IPv4 address in dotted decimal: four numbers with a
/// `.` between each two.
pub open spec fn is_ipv4(s: Seq<char>) -> bool {
    &&& fields(s, '.').len() == 4
    &&& forall|i: int| 0 <= i < 4 ==> is_octet(#[trigger] fields(s, '.')[i])
}

/// Whether `chars[from..to]` is one number of an IPv4 address.
fn is_octet_at(chars: &Vec<char>, from: usize, to: usize) -> (b: bool)
    requires
        from <= to <= chars.len(),
    ensures
        b == is_octet(chars@.subrange(from as int, to as int)),
{
    let ghost s = chars@.subrange(from as int, to as int);
    let n: usize = to - from;
    if n < 1 || n > 3 {
        return false;
    }
    let mut value: u32 = 0;
    let mut i: usize = from;
    while i < to
        invariant
            from <= i <= to <= chars.len(),
            to - from <= 3,
            s == chars@.subrange(from as int, to as int),
            all_digits(s.take(i - from)),
            value == digits_value(s.take(i - from)),
            i - from == 0 ==> value == 0,
            i - from == 1 ==> value <= 9,
            i - from == 2 ==> value <= 99,
            i - from == 3 ==> value <= 999,
        decreases to - i,
    {
        let c: char = chars[i];
        assert(s[i - from] == c);
        if !('0' <= c && c <= '9') {
            return false;
        }
        value = value * 10 + (c as u32 - 48);
        i = i + 1;
        proof {
            let prefix = s.take(i - from);
            assert(prefix.drop_last() == s.take(i - from - 1));
        }
    }
    assert(s.take(i - from) == s);
    if n > 1 && chars[from] == '0' {
        return false;
    }
    value <= 255
}

/// Whether `s` is an IPv4 address in dotted decimal.
pub fn is_ipv4_address(s: &str) -> (b: bool)
    ensures
        b == is_ipv4(s@),
{
    let chars = chars_of(s);
    let mut start: usize = 0;
    let mut count: usize = 0;
    let ghost mut done: Seq<Seq<char>> = Seq::empty();
    assert(chars@.skip(0) == chars@);
    while count < 4
        invariant
            start <= chars.len(),
            count <= 4,
            chars@ == s@,
            done.len() == count,
            fields(s@, '.') == done + fields(chars@.skip(start as int), '.'),
            forall|i: int| 0 <= i < count ==> is_octet(#[trigger] done[i]),
        decreases 4 - count,
    {
        let ghost rest = chars@.skip(start as int);
        let end = find_char(&chars, start, '.');
        proof {
            assert(rest.take(end - start) == chars@.subrange(start as int, end as int));
            if end < chars.len() {
                assert(rest.skip(end - start + 1) == chars@.skip(end + 1));
            }
        }
        let ghost field = chars@.subrange(start as int, end as int);
        if !is_octet_at(&chars, start, end) {
            proof {
                assert(fields(s@, '.')[count as int] == field);
            }
            return false;
        }
        if end >= chars.len() {
            return count == 3;
        }
        proof {
            done = done.push(field);
        }
        start = end + 1;
        count = count + 1;
    }
    false
}

/// The name servers among the lines `parts` of a resolver configuration,
/// read up to the first line that is not valid UTF-8: the addresses of the
/// name server lines that are IPv4 addresses, square brackets aside.
pub open spec fn nameservers_among(parts: Seq<Seq<u8>>) -> Seq<Seq<char>>
    decreases parts.len(),
{
    if parts.len() == 0 || !valid_utf8(parts[0]) {
        Seq::empty()
    } else {
        match nameserver_of(decode_utf8(parts[0])) {
            Some(addr) => if is_ipv4(without_brackets(addr)) {
                seq![addr] + nameservers_among(parts.drop_first())
            } else {
                nameservers_among(parts.drop_first())
            },
            None => nameservers_among(parts.drop_first()),
        }
    }
}

/// The name servers that a resolver configuration names, no more than
/// [`MAX_NAMESERVERS`] of them.
pub open spec fn resolv_conf_nameservers(bytes: Seq<u8>) -> Seq<Seq<char>> {
    let found = nameservers_among(pieces(bytes));
    if found.len() > MAX_NAMESERVERS {
        found.take(MAX_NAMESERVERS as int)
    } else {
        found
    }
}

/// What a single line gives.
proof fn lemma_nameservers_among_one(piece: Seq<u8>)
    requires
        valid_utf8(piece),
    ensures
        nameservers_among(seq![piece]) == match nameserver_of(decode_utf8(piece)) {
            Some(addr) => if is_ipv4(without_brackets(addr)) {
                seq![addr]
            } else {
                Seq::empty()
            },
            None => Seq::empty(),
        },
{
    let one = seq![piece];
    assert(nameservers_among(one.drop_first()) == Seq::<Seq<char>>::empty());
}

/// One more line read adds its name server, if it names one.
proof fn lemma_nameservers_among_push(parts: Seq<Seq<u8>>, next: Seq<u8>)
    requires
        forall|i: int| 0 <= i < parts.len() ==> valid_utf8(#[trigger] parts[i]),
    ensures
        nameservers_among(parts.push(next)) == nameservers_among(parts) + nameservers_among(
            seq![next],
        ),
    decreases parts.len(),
{
    if parts.len() == 0 {
        assert(parts.push(next) == seq![next]);
    } else {
        let longer = parts.push(next);
        assert(longer.drop_first() == parts.drop_first().push(next));
        lemma_nameservers_among_push(parts.drop_first(), next);
    }
}

/// Nothing is read behind a line that is not valid UTF-8.
proof fn lemma_nameservers_among_stop(parts: Seq<Seq<u8>>, rest: Seq<Seq<u8>>)
    requires
        forall|i: int| 0 <= i < parts.len() ==> valid_utf8(#[trigger] parts[i]),
        rest.len() > 0,
        !valid_utf8(rest[0]),
    ensures
        nameservers_among(parts + rest) == nameservers_among(parts),
    decreases parts.len(),
{
    if parts.len() > 0 {
        let all = parts + rest;
        assert(all.drop_first() == parts.drop_first() + rest);
        lemma_nameservers_among_stop(parts.drop_first(), rest);
    }
}

/// What is found grows with what is read.
proof fn lemma_nameservers_among_prefix(parts: Seq<Seq<u8>>, rest: Seq<Seq<u8>>)
    requires
        forall|i: int| 0 <= i < parts.len() ==> valid_utf8(#[trigger] parts[i]),
    ensures
        nameservers_among(parts + rest).len() >= nameservers_among(parts).len(),
        nameservers_among(parts + rest).take(nameservers_among(parts).len() as int)
            == nameservers_among(parts),
    decreases parts.len(),
{
    if parts.len() > 0 {
        let all = parts + rest;
        assert(all.drop_first() == parts.drop_first() + rest);
        lemma_nameservers_among_prefix(parts.drop_first(), rest);
    }
}

/// The name servers that the resolver configuration `bytes` names.
///
/// Reading stops at the first line that is not valid UTF-8 and once
/// [`MAX_NAMESERVERS`] are found.
pub fn impl_try_parse_resolv_conf(bytes: &Vec<u8>) -> (found: Vec<String>)
    ensures
        texts(found@) == resolv_conf_nameservers(bytes@),
{
    let all = bytes.as_slice();
    let mut found: Vec<String> = Vec::new();
    let mut start: usize = 0;
    let ghost mut done: Seq<Seq<u8>> = Seq::empty();
    let ghost whole = pieces(bytes@);
    assert(all@.skip(0) == all@);
    loop
        invariant
            start <= all.len(),
            all@ == bytes@,
            whole == pieces(bytes@),
            whole == done + pieces(all@.skip(start as int)),
            forall|i: int| 0 <= i < done.len() ==> valid_utf8(#[trigger] done[i]),
            texts(found@) == nameservers_among(done),
            found@.len() <= MAX_NAMESERVERS,
        decreases all.len() - start,
    {
        let ghost rest = all@.skip(start as int);
        if found.len() == MAX_NAMESERVERS {
            proof {
                lemma_nameservers_among_prefix(done, pieces(rest));
            }
            return found;
        }
        let mut end: usize = start;
        while end < all.len() && all[end] != 10
            invariant
                start <= end <= all.len(),
                forall|j: int| start <= j < end ==> #[trigger] all@[j] != 10,
            decreases all.len() - end,
        {
            end = end + 1;
        }
        proof {
            lemma_line_len_is(rest, (end - start) as nat);
            assert(rest.take(end - start) == all@.subrange(start as int, end as int));
            if end < all.len() {
                assert(rest.skip(end - start + 1) == all@.skip(end + 1));
            }
        }
        let piece = slice_subrange(all, start, end);
        let ghost tail = pieces(rest);
        let line = match decode(piece) {
            Some(line) => line,
            None => {
                proof {
                    lemma_nameservers_among_stop(done, tail);
                }
                return found;
            },
        };
        proof {
            lemma_nameservers_among_push(done, piece@);
            lemma_nameservers_among_one(piece@);
        }
        match nameserver_entry(line.as_str()) {
            Some(addr) => {
                if is_ipv4_address(trim_brackets(addr.as_str()).as_str()) {
                    found.push(addr);
                }
            },
            None => {},
        }
        if end >= all.len() {
            proof {
                assert(whole == done.push(piece@));
            }
            return found;
        }
        proof {
            done = done.push(piece@);
        }
        start = end + 1;
    }
}

} // verus!
