//! Exposed tool names (`server__tool`), their order, and how they read in a script.

use vstd::prelude::*;
use vstd::string::*;

use crate::text::chars_of;

verus! {

/// The separator `__` stands at `at`.
pub open spec fn separator_at(name: Seq<char>, at: int) -> bool {
    0 <= at && at + 1 < name.len() && name[at] == '_' && name[at + 1] == '_'
}

/// The first separator stands at `at`.
pub open spec fn first_separator(name: Seq<char>, at: int) -> bool {
    separator_at(name, at) && forall|j: int| 0 <= j < at ==> !separator_at(name, j)
}

/// The server and the tool of an exposed name: what stands before and after its first separator.
pub open spec fn split_name(name: Seq<char>) -> Option<(Seq<char>, Seq<char>)> {
    if exists|at: int| first_separator(name, at) {
        let at = choose|at: int| first_separator(name, at);
        Some((name.take(at), name.skip(at + 2)))
    } else {
        None
    }
}

/// An exposed name put together from its parts.
pub open spec fn join_name(server: Seq<char>, tool: Seq<char>) -> Seq<char> {
    server + "__"@ + tool
}

/// Splits an exposed `server__tool` name on the first `__`. Returns `None` when the separator is
/// missing.
pub fn split_exposed_name(exposed: &str) -> (parts: Option<(&str, &str)>)
    ensures
        (match parts {
            Some((server, tool)) => Some((server@, tool@)),
            None => None,
        }) == split_name(exposed@),
{
    let chars = chars_of(exposed);
    let len: usize = chars.len();
    let mut at: usize = 0;
    while at < len && len - at > 1
        invariant
            chars@ == exposed@,
            len == chars.len(),
            at <= len,
            forall|j: int| 0 <= j < at ==> !separator_at(exposed@, j),
        decreases len - at,
    {
        if chars[at] == '_' && chars[at + 1] == '_' {
            assert(first_separator(exposed@, at as int));
            proof {
                lemma_first_separator_unique(exposed@, at as int);
            }
            return Some((exposed.substring_char(0, at), exposed.substring_char(at + 2, len)));
        }
        at = at + 1;
    }
    None
}

proof fn lemma_first_separator_unique(name: Seq<char>, at: int)
    requires
        first_separator(name, at),
    ensures
        split_name(name) == Some((name.take(at), name.skip(at + 2))),
{
    let chosen = choose|i: int| first_separator(name, i);
    assert(chosen == at) by {
        if chosen < at {
            assert(!separator_at(name, chosen));
        } else if at < chosen {
            assert(!separator_at(name, at));
        }
    }
}

/// Splitting loses nothing: the parts put together again are the name, and no separator begins
/// within the server part.
pub proof fn law_split_then_join(name: Seq<char>)
    requires
        split_name(name) is Some,
    ensures
        ({
            let (server, tool) = split_name(name)->0;
            &&& join_name(server, tool) == name
            &&& forall|j: int| 0 <= j < server.len() ==> !separator_at(name, j)
        }),
{
    let at = choose|at: int| first_separator(name, at);
    reveal_strlit("__");
    assert(join_name(name.take(at), name.skip(at + 2)) =~= name);
}

/// A name is split exactly when it holds the separator.
pub proof fn law_split_iff_separator(name: Seq<char>)
    ensures
        split_name(name) is Some <==> exists|at: int| separator_at(name, at),
{
    if exists|at: int| separator_at(name, at) {
        let at = choose|at: int| separator_at(name, at);
        lemma_first_separator_exists(name, at);
    }
}

proof fn lemma_first_separator_exists(name: Seq<char>, at: int)
    requires
        separator_at(name, at),
    ensures
        exists|i: int| first_separator(name, i),
    decreases at,
{
    if exists|j: int| 0 <= j < at && separator_at(name, j) {
        let j = choose|j: int| 0 <= j < at && separator_at(name, j);
        lemma_first_separator_exists(name, j);
    } else {
        assert(first_separator(name, at));
    }
}

fn starts_with(text: &str, prefix: &str) -> (starts: bool)
    ensures
        starts == prefix@.is_prefix_of(text@),
{
    let text_chars = chars_of(text);
    let prefix_chars = chars_of(prefix);
    if prefix_chars.len() > text_chars.len() {
        return false;
    }
    let mut at: usize = 0;
    while at < prefix_chars.len()
        invariant
            text_chars@ == text@,
            prefix_chars@ == prefix@,
            at <= prefix@.len() <= text@.len(),
            forall|j: int| 0 <= j < at ==> prefix@[j] == text@[j],
        decreases prefix_chars.len() - at,
    {
        if prefix_chars[at] != text_chars[at] {
            assert(prefix@[at as int] != text@.subrange(0, prefix@.len() as int)[at as int]);
            return false;
        }
        at = at + 1;
    }
    assert(prefix@ =~= text@.subrange(0, prefix@.len() as int));
    true
}

/// True when `name` is a gateway meta-tool that should not appear on `servers.*`.
pub fn is_code_mode_meta_tool(name: &str) -> (meta: bool)
    ensures
        meta == ("toolport_"@.is_prefix_of(name@) || "help_"@.is_prefix_of(name@)),
{
    starts_with(name, "toolport_") || starts_with(name, "help_")
}

/// How one character stands in a single-quoted script literal.
pub open spec fn escaped_char(c: char) -> Seq<char> {
    if c == '\\' {
        "\\\\"@
    } else if c == '\'' {
        "\\'"@
    } else if c == '\n' {
        "\\n"@
    } else if c == '\r' {
        "\\r"@
    } else if c == '\u{2028}' {
        "\\u2028"@
    } else if c == '\u{2029}' {
        "\\u2029"@
    } else {
        seq![c]
    }
}

/// A text with each character escaped.
pub open spec fn escaped(text: Seq<char>) -> Seq<char>
    decreases text.len(),
{
    if text.len() == 0 {
        Seq::empty()
    } else {
        escaped(text.drop_last()) + escaped_char(text.last())
    }
}

/// A text as a single-quoted script literal.
pub open spec fn literal(text: Seq<char>) -> Seq<char> {
    "'"@ + escaped(text) + "'"@
}

pub(crate) fn chars_literal(chars: &Vec<char>) -> (out: String)
    ensures
        out@ == literal(chars@),
{
    let mut out = "'".to_owned();
    let mut at: usize = 0;
    while at < chars.len()
        invariant
            at <= chars.len(),
            out@ == "'"@ + escaped(chars@.take(at as int)),
        decreases chars.len() - at,
    {
        let c = chars[at];
        let ghost before = out@;
        if c == '\\' {
            out.append("\\\\");
        } else if c == '\'' {
            out.append("\\'");
        } else if c == '\n' {
            out.append("\\n");
        } else if c == '\r' {
            out.append("\\r");
        } else if c == '\u{2028}' {
            out.append("\\u2028");
        } else if c == '\u{2029}' {
            out.append("\\u2029");
        } else {
            out.push(c);
        }
        proof {
            let next = chars@.take(at + 1);
            assert(next.drop_last() =~= chars@.take(at as int));
            assert(out@ =~= before + escaped_char(c));
            assert(out@ =~= "'"@ + escaped(next));
        }
        at = at + 1;
    }
    assert(chars@.take(at as int) =~= chars@);
    out.append("'");
    out
}

/// `s` as a single-quoted script literal.
pub fn js_string_literal(s: &str) -> (out: String)
    ensures
        out@ == literal(s@),
{
    chars_literal(&chars_of(s))
}

/// How a script reads the inside of a single-quoted literal: escapes stand for their characters,
/// and a bare quote, backslash or line end is no part of it.
pub open spec fn read_literal(inside: Seq<char>) -> Option<Seq<char>>
    decreases inside.len(),
{
    if inside.len() == 0 {
        Some(Seq::empty())
    } else if inside[0] == '\'' || inside[0] == '\n' || inside[0] == '\r' {
        None
    } else if inside[0] != '\\' {
        prepend(inside[0], read_literal(inside.skip(1)))
    } else if inside.len() < 2 {
        None
    } else if inside[1] == '\\' {
        prepend('\\', read_literal(inside.skip(2)))
    } else if inside[1] == '\'' {
        prepend('\'', read_literal(inside.skip(2)))
    } else if inside[1] == 'n' {
        prepend('\n', read_literal(inside.skip(2)))
    } else if inside[1] == 'r' {
        prepend('\r', read_literal(inside.skip(2)))
    } else if inside.len() >= 6 && inside.take(6) == "\\u2028"@ {
        prepend('\u{2028}', read_literal(inside.skip(6)))
    } else if inside.len() >= 6 && inside.take(6) == "\\u2029"@ {
        prepend('\u{2029}', read_literal(inside.skip(6)))
    } else {
        None
    }
}

pub open spec fn prepend(c: char, rest: Option<Seq<char>>) -> Option<Seq<char>> {
    match rest {
        Some(text) => Some(seq![c] + text),
        None => None,
    }
}

proof fn lemma_read_escaped_char(c: char, rest: Seq<char>)
    ensures
        read_literal(escaped_char(c) + rest) == prepend(c, read_literal(rest)),
{
    reveal_strlit("\\\\");
    reveal_strlit("\\'");
    reveal_strlit("\\n");
    reveal_strlit("\\r");
    reveal_strlit("\\u2028");
    reveal_strlit("\\u2029");
    let inside = escaped_char(c) + rest;
    assert(inside.skip(escaped_char(c).len() as int) =~= rest);
    if c == '\u{2028}' {
        assert(inside.take(6) =~= "\\u2028"@);
    } else if c == '\u{2029}' {
        assert(inside.take(6) =~= "\\u2029"@);
        assert("\\u2028"@[5] != "\\u2029"@[5]);
    }
}

proof fn lemma_escaped_first(text: Seq<char>)
    requires
        text.len() > 0,
    ensures
        escaped(text) == escaped_char(text[0]) + escaped(text.skip(1)),
    decreases text.len(),
{
    if text.len() == 1 {
        assert(text.drop_last() =~= Seq::empty());
        assert(text.skip(1) =~= Seq::empty());
        assert(escaped(text) =~= escaped_char(text[0]) + escaped(text.skip(1)));
    } else {
        lemma_escaped_first(text.drop_last());
        assert(text.drop_last().skip(1) =~= text.skip(1).drop_last());
        assert(escaped(text) =~= escaped_char(text[0]) + escaped(text.skip(1)));
    }
}

/// A script reads a literal back as the text that it was made from, whatever the text holds: no
/// character of it can end the literal early.
pub proof fn law_literal_reads_back(text: Seq<char>)
    ensures
        read_literal(escaped(text)) == Some(text),
    decreases text.len(),
{
    if text.len() > 0 {
        lemma_escaped_first(text);
        lemma_read_escaped_char(text[0], escaped(text.skip(1)));
        law_literal_reads_back(text.skip(1));
        assert(seq![text[0]] + text.skip(1) =~= text);
    } else {
        assert(text =~= Seq::empty());
    }
}

/// `char::to_uppercase`: the characters that the upper-case form of `c` consists of.
pub uninterp spec fn uppercase(c: char) -> Seq<char>;

/// Calls `char::to_uppercase`. Of the mapping this states what holds of ASCII: a lower-case letter
/// gives its upper-case letter, and every other character is its own upper-case form. Beyond
/// ASCII the mapping is Unicode's and is only named.
#[verifier::external_body]
fn upper(c: char) -> (chars: Vec<char>)
    ensures
        chars@ == uppercase(c),
        'a' <= c <= 'z' ==> chars@ == seq![(c as u32 - 32) as char],
        c <= '\u{7f}' && !('a' <= c <= 'z') ==> chars@ == seq![c],
{
    c.to_uppercase().collect()
}

/// What the character at `at` becomes in camel case: nothing for an underscore, its upper-case
/// form right after one, and itself otherwise.
pub open spec fn camel_piece(text: Seq<char>, at: int) -> Seq<char> {
    if text[at] == '_' {
        Seq::empty()
    } else if at > 0 && text[at - 1] == '_' {
        uppercase(text[at])
    } else {
        seq![text[at]]
    }
}

/// A snake-case text in camel case.
pub open spec fn camel(text: Seq<char>) -> Seq<char>
    decreases text.len(),
{
    if text.len() == 0 {
        Seq::empty()
    } else {
        camel(text.drop_last()) + camel_piece(text, text.len() - 1)
    }
}

/// The upper-case form of an ASCII character.
pub open spec fn ascii_upper(c: char) -> char {
    if 'a' <= c <= 'z' {
        (c as u32 - 32) as char
    } else {
        c
    }
}

/// An ASCII snake-case text in camel case: underscores go, and a letter right after one is raised.
pub open spec fn ascii_camel(text: Seq<char>) -> Seq<char>
    decreases text.len(),
{
    if text.len() == 0 {
        Seq::empty()
    } else if text.last() == '_' {
        ascii_camel(text.drop_last())
    } else if text.len() > 1 && text[text.len() - 2] == '_' {
        ascii_camel(text.drop_last()).push(ascii_upper(text.last()))
    } else {
        ascii_camel(text.drop_last()).push(text.last())
    }
}

pub(crate) fn chars_to_camel(chars: &Vec<char>) -> (out: Vec<char>)
    ensures
        out@ == camel(chars@),
        vstd::utf8::is_ascii_chars(chars@) ==> out@ == ascii_camel(chars@),
{
    let mut out: Vec<char> = Vec::new();
    let mut up = false;
    let mut at: usize = 0;
    while at < chars.len()
        invariant
            at <= chars.len(),
            up == (at > 0 && chars@[at - 1] == '_'),
            out@ == camel(chars@.take(at as int)),
            vstd::utf8::is_ascii_chars(chars@) ==> out@ == ascii_camel(chars@.take(at as int)),
        decreases chars.len() - at,
    {
        let c = chars[at];
        let ghost ascii = vstd::utf8::is_ascii_chars(chars@);
        proof {
            assert(chars@.take(at + 1).drop_last() =~= chars@.take(at as int));
            assert(camel_piece(chars@.take(at + 1), at as int) == camel_piece(chars@, at as int));
        }
        if c == '_' {
            up = true;
        } else if up {
            let mut mapped = upper(c);
            out.append(&mut mapped);
            up = false;
        } else {
            let ghost before = out@;
            out.push(c);
            assert(out@ =~= before + seq![c]);
        }
        assert(out@ =~= camel(chars@.take(at + 1)));
        assert(ascii ==> out@ =~= ascii_camel(chars@.take(at + 1)));
        at = at + 1;
    }
    assert(chars@.take(at as int) =~= chars@);
    out
}

pub(crate) fn string_of(chars: &Vec<char>) -> (out: String)
    ensures
        out@ == chars@,
{
    let mut out = String::new();
    let mut at: usize = 0;
    while at < chars.len()
        invariant
            at <= chars.len(),
            out@ == chars@.take(at as int),
        decreases chars.len() - at,
    {
        out.push(chars[at]);
        assert(out@ =~= chars@.take(at + 1));
        at = at + 1;
    }
    assert(chars@.take(at as int) =~= chars@);
    out
}

/// The camel-case form of `s`.
pub fn snake_to_camel(s: &str) -> (out: String)
    ensures
        out@ == camel(s@),
        vstd::utf8::is_ascii_chars(s@) ==> out@ == ascii_camel(s@),
{
    string_of(&chars_to_camel(&chars_of(s)))
}

/// A text without underscores is its own camel-case form.
pub proof fn law_camel_keeps_plain_text(text: Seq<char>)
    requires
        !text.contains('_'),
    ensures
        camel(text) == text,
    decreases text.len(),
{
    if text.len() > 0 {
        assert(text.drop_last().push(text.last()) =~= text);
        assert forall|i: int| 0 <= i < text.len() implies text[i] != '_' by {
            assert(text.contains(text[i]));
        }
        law_camel_keeps_plain_text(text.drop_last());
        assert(camel(text) =~= text);
    } else {
        assert(text =~= Seq::empty());
    }
}

/// Raising a character brings in no underscore. Upper-case forms beyond ASCII are Unicode's and
/// are only named, so of them this is a condition.
pub open spec fn raises_no_underscore(text: Seq<char>) -> bool {
    forall|i: int|
        1 <= i < text.len() && text[i - 1] == '_' && #[trigger] text[i] != '_' ==> !uppercase(
            text[i],
        ).contains('_')
}

proof fn lemma_camel_has_no_underscore(text: Seq<char>)
    requires
        raises_no_underscore(text),
    ensures
        !camel(text).contains('_'),
    decreases text.len(),
{
    if text.len() > 0 {
        let front = text.drop_last();
        let at = text.len() - 1;
        assert forall|i: int|
            1 <= i < front.len() && front[i - 1] == '_' && #[trigger] front[i]
                != '_' implies !uppercase(front[i]).contains('_') by {
            assert(text[i] != '_');
        }
        lemma_camel_has_no_underscore(front);
        let piece = camel_piece(text, at);
        assert(text[at] == text.last());
        assert(!piece.contains('_')) by {
            if piece.contains('_') {
                assert(text[at] != '_');
            }
        }
        let whole = camel(front) + piece;
        if whole.contains('_') {
            let i = choose|i: int| 0 <= i < whole.len() && whole[i] == '_';
            if i < camel(front).len() {
                assert(camel(front)[i] == '_');
            } else {
                assert(piece[i - camel(front).len()] == '_');
            }
        }
    }
}

/// No underscore is left in camel case; a text is its own camel-case form only where it has none;
/// and camel case is its own camel-case form.
pub proof fn law_camel_is_final(text: Seq<char>)
    requires
        raises_no_underscore(text),
    ensures
        !camel(text).contains('_'),
        camel(text) == text <==> !text.contains('_'),
        camel(camel(text)) == camel(text),
{
    lemma_camel_has_no_underscore(text);
    if !text.contains('_') {
        law_camel_keeps_plain_text(text);
    }
    law_camel_keeps_plain_text(camel(text));
}

proof fn lemma_ascii_camel(text: Seq<char>)
    requires
        vstd::utf8::is_ascii_chars(text),
    ensures
        !ascii_camel(text).contains('_'),
        vstd::utf8::is_ascii_chars(ascii_camel(text)),
    decreases text.len(),
{
    if text.len() > 0 {
        let front = text.drop_last();
        let short = ascii_camel(front);
        assert(vstd::utf8::is_ascii_chars(front)) by {
            assert(forall|i: int| 0 <= i < front.len() ==> #[trigger] front[i] == text[i]);
        }
        lemma_ascii_camel(front);
        assert('\0' <= text[text.len() - 1] <= '\u{7f}');
        if text.last() != '_' {
            let long = ascii_camel(text);
            assert(long.drop_last() =~= short);
            assert(long.last() != '_');
            assert forall|i: int| 0 <= i < long.len() implies long[i] != '_' && '\0' <= #[trigger]
                long[i] <= '\u{7f}' by {
                if i < short.len() {
                    assert(long[i] == short[i]);
                    assert(short.contains(short[i]));
                }
            }
        }
    }
}

proof fn lemma_ascii_camel_keeps_plain_text(text: Seq<char>)
    requires
        !text.contains('_'),
    ensures
        ascii_camel(text) == text,
    decreases text.len(),
{
    if text.len() > 0 {
        assert forall|i: int| 0 <= i < text.len() implies text[i] != '_' by {
            assert(text.contains(text[i]));
        }
        assert(!text.drop_last().contains('_')) by {
            assert forall|i: int| 0 <= i < text.len() - 1 implies text.drop_last()[i] != '_' by {
                assert(text.drop_last()[i] == text[i]);
            }
        }
        lemma_ascii_camel_keeps_plain_text(text.drop_last());
        assert(ascii_camel(text) =~= text);
    } else {
        assert(text =~= Seq::empty());
    }
}

/// The same of ASCII text without a condition: no underscore is left, a text is its own
/// camel-case form only where it has none, and camel case is its own camel-case form.
pub proof fn law_ascii_camel_is_final(text: Seq<char>)
    requires
        vstd::utf8::is_ascii_chars(text),
    ensures
        !ascii_camel(text).contains('_'),
        ascii_camel(text) == text <==> !text.contains('_'),
        ascii_camel(ascii_camel(text)) == ascii_camel(text),
{
    lemma_ascii_camel(text);
    if !text.contains('_') {
        lemma_ascii_camel_keeps_plain_text(text);
    }
    lemma_ascii_camel_keeps_plain_text(ascii_camel(text));
}

pub open spec fn is_ident_start_char(c: char) -> bool {
    'a' <= c <= 'z' || 'A' <= c <= 'Z' || c == '_' || c == '$'
}

pub open spec fn is_ident_char(c: char) -> bool {
    is_ident_start_char(c) || '0' <= c <= '9'
}

/// An ASCII script identifier.
pub open spec fn is_ident(text: Seq<char>) -> bool {
    &&& text.len() > 0
    &&& is_ident_start_char(text[0])
    &&& forall|i: int| 0 <= i < text.len() ==> is_ident_char(#[trigger] text[i])
}

fn ident_start_char(c: char) -> (yes: bool)
    ensures
        yes == is_ident_start_char(c),
{
    ('a' <= c && c <= 'z') || ('A' <= c && c <= 'Z') || c == '_' || c == '$'
}

pub(crate) fn chars_are_ident(chars: &Vec<char>) -> (yes: bool)
    ensures
        yes == is_ident(chars@),
{
    if chars.len() == 0 || !ident_start_char(chars[0]) {
        return false;
    }
    let mut at: usize = 0;
    while at < chars.len()
        invariant
            at <= chars.len(),
            forall|i: int| 0 <= i < at ==> is_ident_char(#[trigger] chars@[i]),
        decreases chars.len() - at,
    {
        let c = chars[at];
        if !(ident_start_char(c) || ('0' <= c && c <= '9')) {
            assert(!is_ident_char(chars@[at as int]));
            return false;
        }
        at = at + 1;
    }
    true
}

/// True when the whole of `s` is an ASCII script identifier.
pub fn is_js_ident_start(s: &str) -> (yes: bool)
    ensures
        yes == is_ident(s@),
{
    chars_are_ident(&chars_of(s))
}

/// A name is split at its first two underscores in a row, and these are left out.
pub proof fn law_split_at_the_first_two_underscores(name: Seq<char>, at: int)
    requires
        0 <= at,
        at + 1 < name.len(),
        name[at] == '_' && name[at + 1] == '_',
        forall|j: int| 0 <= j < at ==> !(#[trigger] name[j] == '_' && name[j + 1] == '_'),
    ensures
        split_name(name) == Some((name.take(at), name.skip(at + 2))),
{
    assert forall|j: int| 0 <= j < at implies !separator_at(name, j) by {
        assert(!(name[j] == '_' && name[j + 1] == '_'));
    }
    assert(first_separator(name, at));
    lemma_first_separator_unique(name, at);
}

/// A name without two underscores in a row is not split.
pub proof fn law_no_split_without_two_underscores(name: Seq<char>)
    requires
        forall|j: int| 0 <= j < name.len() - 1 ==> !(#[trigger] name[j] == '_' && name[j + 1] == '_'),
    ensures
        split_name(name) is None,
{
    if exists|at: int| first_separator(name, at) {
        let at = choose|at: int| first_separator(name, at);
        assert(name[at] == '_' && name[at + 1] == '_');
    }
}

/// A server without an underscore and a tool joined by two underscores split into themselves.
pub proof fn law_join_then_split(server: Seq<char>, tool: Seq<char>)
    requires
        !server.contains('_'),
    ensures
        split_name(server + seq!['_', '_'] + tool) == Some((server, tool)),
        join_name(server, tool) == server + seq!['_', '_'] + tool,
{
    reveal_strlit("__");
    assert("__"@ =~= seq!['_', '_']);
    let name = server + seq!['_', '_'] + tool;
    let at = server.len() as int;
    assert forall|j: int| 0 <= j < at implies !(#[trigger] name[j] == '_' && name[j + 1]
        == '_') by {
        assert(name[j] == server[j]);
        assert(server.contains(server[j]));
    }
    law_split_at_the_first_two_underscores(name, at);
    assert(name.take(at) =~= server);
    assert(name.skip(at + 2) =~= tool);
}

proof fn lemma_escaped_concat(a: Seq<char>, b: Seq<char>)
    ensures
        escaped(a + b) == escaped(a) + escaped(b),
    decreases b.len(),
{
    if b.len() == 0 {
        assert(a + b =~= a);
        assert(escaped(a) + escaped(b) =~= escaped(a));
    } else {
        assert((a + b).drop_last() =~= a + b.drop_last());
        lemma_escaped_concat(a, b.drop_last());
        assert(escaped(a + b) =~= escaped(a) + escaped(b));
    }
}

/// A literal is quoted, and escaped character by character: what stands for a text does not
/// depend on what is around it.
pub proof fn law_literal_is_escaped_piece_by_piece(a: Seq<char>, b: Seq<char>)
    ensures
        literal(a) == seq!['\''] + escaped(a) + seq!['\''],
        escaped(a + b) == escaped(a) + escaped(b),
        escaped(Seq::empty()) == Seq::<char>::empty(),
{
    lemma_escaped_concat(a, b);
    reveal_strlit("'");
    assert("'"@ =~= seq!['\'']);
}

/// A backslash, a quote, a line feed, a carriage return and the two line separators each have
/// their escape; every other character stands for itself.
pub proof fn law_each_character_has_its_escape(c: char)
    ensures
        escaped(seq![c]) == if c == '\\' {
            seq!['\\', '\\']
        } else if c == '\'' {
            seq!['\\', '\'']
        } else if c == '\n' {
            seq!['\\', 'n']
        } else if c == '\r' {
            seq!['\\', 'r']
        } else if c == '\u{2028}' {
            seq!['\\', 'u', '2', '0', '2', '8']
        } else if c == '\u{2029}' {
            seq!['\\', 'u', '2', '0', '2', '9']
        } else {
            seq![c]
        },
{
    reveal_strlit("\\\\");
    reveal_strlit("\\'");
    reveal_strlit("\\n");
    reveal_strlit("\\r");
    reveal_strlit("\\u2028");
    reveal_strlit("\\u2029");
    reveal_with_fuel(escaped, 2);
    assert(seq![c].drop_last() =~= Seq::<char>::empty());
    assert(escaped(seq![c]) =~= escaped_char(c));
}

/// How camel case grows with its text: an underscore adds nothing; a character right after one is
/// raised; any other character is added as it is.
pub proof fn law_camel_grows_with_its_text(text: Seq<char>, c: char)
    ensures
        camel(Seq::empty()) == Seq::<char>::empty(),
        camel(text.push('_')) == camel(text),
        c != '_' ==> camel(text.push('_').push(c)) == camel(text) + uppercase(c),
        c != '_' && (text.len() == 0 || text.last() != '_') ==> camel(text.push(c)) == camel(
            text,
        ).push(c),
{
    assert(text.push('_').drop_last() =~= text);
    assert(camel(text.push('_')) =~= camel(text));
    assert(text.push('_').push(c).drop_last() =~= text.push('_'));
    assert(text.push(c).drop_last() =~= text);
    if c != '_' && (text.len() == 0 || text.last() != '_') {
        assert(camel(text.push(c)) =~= camel(text).push(c));
    }
}

/// The same of ASCII text, where the raised form of a lower-case letter is its upper-case letter,
/// and every other character is its own.
pub proof fn law_ascii_camel_grows_with_its_text(text: Seq<char>, c: char)
    ensures
        ascii_camel(Seq::empty()) == Seq::<char>::empty(),
        ascii_camel(text.push('_')) == ascii_camel(text),
        'a' <= c <= 'z' ==> ascii_camel(text.push('_').push(c)) == ascii_camel(text).push(
            (c as u32 - 'a' as u32 + 'A' as u32) as char,
        ),
        c != '_' && !('a' <= c <= 'z') ==> ascii_camel(text.push('_').push(c)) == ascii_camel(
            text,
        ).push(c),
        c != '_' && (text.len() == 0 || text.last() != '_') ==> ascii_camel(text.push(c))
            == ascii_camel(text).push(c),
{
    assert(text.push('_').drop_last() =~= text);
    let raised = text.push('_').push(c);
    assert(raised.drop_last() =~= text.push('_'));
    assert(raised[raised.len() - 2] == '_');
    assert(raised.last() == c);
    assert(ascii_camel(text.push('_')) == ascii_camel(text));
    assert(text.push(c).drop_last() =~= text);
}

/// An identifier is not empty, does not begin with a digit, and consists of ASCII letters,
/// digits, underscores and dollar signs.
pub proof fn law_identifiers_are_ascii_words(text: Seq<char>)
    ensures
        is_ident(text) <==> {
            &&& text.len() > 0
            &&& !('0' <= text[0] <= '9')
            &&& forall|i: int|
                0 <= i < text.len() ==> {
                    ||| 'a' <= #[trigger] text[i] <= 'z'
                    ||| 'A' <= text[i] <= 'Z'
                    ||| '0' <= text[i] <= '9'
                    ||| text[i] == '_'
                    ||| text[i] == '$'
                }
        },
{
    if is_ident(text) {
        assert forall|i: int| 0 <= i < text.len() implies ('a' <= #[trigger] text[i] <= 'z' || 'A'
            <= text[i] <= 'Z' || '0' <= text[i] <= '9' || text[i] == '_' || text[i] == '$') by {
            assert(is_ident_char(text[i]));
        }
    }
}

} // verus!
