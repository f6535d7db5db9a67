//! Character-level helpers on strings.

use vstd::prelude::*;

verus! {

/// Appends one character with `String::push`: the text grows by exactly that
/// character at its end.
#[verifier::external_body]
pub(crate) fn push_char(text: &mut String, c: char)
    ensures
        final(text)@ == old(text)@.push(c),
{
    text.push(c);
}

/// The characters of a string, in order.
pub fn chars_of(text: &str) -> (res: Vec<char>)
    ensures
        res@ == text@,
{
    let mut out: Vec<char> = Vec::new();
    for c in it: text.chars()
        invariant
            it.seq() == text@,
            out@ == text@.take(it.index() as int),
    {
        out.push(c);
        assert(out@ =~= text@.take(it.index() as int + 1));
    }
    assert(out@ =~= text@);
    out
}

/// Builds a string from characters.
pub fn string_of(chars: &Vec<char>) -> (res: String)
    ensures
        res@ == chars@,
{
    let mut out = String::new();
    let mut i: usize = 0;
    while i < chars.len()
        invariant
            i <= chars.len(),
            out@ == chars@.take(i as int),
        decreases chars.len() - i,
    {
        push_char(&mut out, chars[i]);
        assert(out@ =~= chars@.take(i as int + 1));
        i += 1;
    }
    assert(chars@.take(i as int) =~= chars@);
    out
}

/// The pieces of `text` between occurrences of `separator`.
///
/// There is always at least one piece: every separator closes the current
/// piece and opens a new, empty one, and any other character extends the
/// current piece.
pub open spec fn split_on(text: Seq<char>, separator: char) -> Seq<Seq<char>>
    decreases text.len(),
{
    if text.len() == 0 {
        seq![Seq::empty()]
    } else {
        let before = split_on(text.drop_last(), separator);
        if text.last() == separator {
            before.push(Seq::empty())
        } else {
            before.drop_last().push(before.last().push(text.last()))
        }
    }
}

/// The pieces joined back together, with `separator` between neighbours.
pub open spec fn join_with(pieces: Seq<Seq<char>>, separator: Seq<char>) -> Seq<char>
    decreases pieces.len(),
{
    if pieces.len() == 0 {
        Seq::empty()
    } else if pieces.len() == 1 {
        pieces[0]
    } else {
        join_with(pieces.drop_last(), separator) + separator + pieces.last()
    }
}

/// Splitting never yields an empty list, and no piece holds the separator.
pub proof fn lemma_split_on_pieces(text: Seq<char>, separator: char)
    ensures
        split_on(text, separator).len() >= 1,
        forall|i: int, j: int|
            0 <= i < split_on(text, separator).len() && 0 <= j < split_on(
                text,
                separator,
            )[i].len() ==> split_on(text, separator)[i][j] != separator,
    decreases text.len(),
{
    if text.len() > 0 {
        lemma_split_on_pieces(text.drop_last(), separator);
    }
}

/// Joining the pieces of a split with the separator gives the text back.
pub proof fn lemma_join_split(text: Seq<char>, separator: char)
    ensures
        join_with(split_on(text, separator), seq![separator]) == text,
    decreases text.len(),
{
    let sep = seq![separator];
    if text.len() == 0 {
        assert(join_with(split_on(text, separator), sep) =~= text);
    } else {
        let before = split_on(text.drop_last(), separator);
        lemma_split_on_pieces(text.drop_last(), separator);
        lemma_join_split(text.drop_last(), separator);
        let pieces = split_on(text, separator);
        if text.last() == separator {
            assert(pieces.drop_last() =~= before);
            assert(join_with(pieces, sep) =~= text.drop_last() + sep);
            assert(text.drop_last() + sep =~= text);
        } else {
            let grown = before.last().push(text.last());
            if before.len() == 1 {
                assert(join_with(before, sep) == before[0]);
                assert(pieces =~= seq![grown]);
                assert(join_with(pieces, sep) =~= text.drop_last().push(text.last()));
            } else {
                assert(pieces.drop_last() =~= before.drop_last());
                assert(join_with(pieces, sep) =~= join_with(before.drop_last(), sep) + sep
                    + grown);
                assert(join_with(before, sep) == join_with(before.drop_last(), sep) + sep
                    + before.last());
                assert(join_with(pieces, sep) =~= text.drop_last().push(text.last()));
            }
            assert(text.drop_last().push(text.last()) =~= text);
        }
    }
}

/// Splits `text` at every occurrence of `separator`.
pub fn split(text: &str, separator: char) -> (res: Vec<String>)
    ensures
        res.deep_view() == split_on(text@, separator),
{
    let chars = chars_of(text);
    let mut pieces: Vec<String> = Vec::new();
    let mut current = String::new();
    let mut i: usize = 0;
    assert(chars@.take(0) =~= Seq::<char>::empty());
    assert(pieces.deep_view().push(current@) =~= split_on(chars@.take(0), separator));
    while i < chars.len()
        invariant
            i <= chars.len(),
            pieces.deep_view().push(current@) == split_on(chars@.take(i as int), separator),
        decreases chars.len() - i,
    {
        let ghost done = pieces.deep_view();
        let ghost open = current@;
        let ghost prefix = chars@.take(i as int + 1);
        assert(prefix.drop_last() =~= chars@.take(i as int));
        assert(done.push(open).drop_last() =~= done);
        if chars[i] == separator {
            pieces.push(current);
            current = String::new();
            assert(pieces.deep_view() =~= done.push(open));
        } else {
            push_char(&mut current, chars[i]);
        }
        i += 1;
    }
    assert(chars@.take(i as int) =~= chars@);
    let ghost done = pieces.deep_view();
    pieces.push(current);
    assert(pieces.deep_view() =~= done.push(current@));
    pieces
}

/// Joins `pieces`, putting `separator` between neighbours.
pub fn join(pieces: &Vec<String>, separator: &str) -> (res: String)
    ensures
        res@ == join_with(pieces.deep_view(), separator@),
{
    let mut out = String::new();
    let mut i: usize = 0;
    assert(pieces.deep_view().take(0) =~= Seq::<Seq<char>>::empty());
    while i < pieces.len()
        invariant
            i <= pieces.len(),
            out@ == join_with(pieces.deep_view().take(i as int), separator@),
        decreases pieces.len() - i,
    {
        let ghost prefix = pieces.deep_view().take(i as int + 1);
        assert(prefix.drop_last() =~= pieces.deep_view().take(i as int));
        assert(prefix.last() == pieces@[i as int]@);
        if i > 0 {
            out.append(separator);
        }
        out.append(pieces[i].as_str());
        proof {
            if i == 0 {
                assert(out@ =~= pieces@[0]@);
                assert(prefix[0] == pieces@[0]@);
            }
        }
        i += 1;
    }
    assert(pieces.deep_view().take(i as int) =~= pieces.deep_view());
    out
}

/// What is left of `text` once `prefix` is taken from its start, if `text`
/// starts with it.
pub open spec fn without_prefix(text: Seq<char>, prefix: Seq<char>) -> Option<Seq<char>> {
    if prefix.is_prefix_of(text) {
        Some(text.skip(prefix.len() as int))
    } else {
        None
    }
}

/// Takes `prefix` from the start of `text`, once.
pub fn strip_prefix(text: &str, prefix: &str) -> (res: Option<String>)
    ensures
        res.deep_view() == without_prefix(text@, prefix@),
{
    let chars = chars_of(text);
    let lead = chars_of(prefix);
    if lead.len() > chars.len() {
        return None;
    }
    let mut i: usize = 0;
    while i < lead.len()
        invariant
            i <= lead.len() <= chars.len(),
            chars@ == text@,
            lead@ == prefix@,
            chars@.take(i as int) == lead@.take(i as int),
        decreases lead.len() - i,
    {
        if chars[i] != lead[i] {
            assert(chars@.subrange(0, lead.len() as int)[i as int] != lead@[i as int]);
            return None;
        }
        assert(chars@.take(i as int + 1) =~= chars@.take(i as int).push(chars@[i as int]));
        assert(lead@.take(i as int + 1) =~= lead@.take(i as int).push(lead@[i as int]));
        i += 1;
    }
    assert(lead@.take(i as int) =~= lead@);
    let mut rest = String::new();
    let mut j: usize = lead.len();
    assert(chars@.subrange(lead.len() as int, j as int) =~= Seq::<char>::empty());
    while j < chars.len()
        invariant
            lead.len() <= j <= chars.len(),
            rest@ == chars@.subrange(lead.len() as int, j as int),
        decreases chars.len() - j,
    {
        push_char(&mut rest, chars[j]);
        assert(rest@ =~= chars@.subrange(lead.len() as int, j as int + 1));
        j += 1;
    }
    assert(rest@ =~= chars@.skip(lead.len() as int));
    Some(rest)
}

/// Whether `c` has Unicode's `White_Space` property.
pub open spec fn is_whitespace(c: char) -> bool {
    let code = c as u32;
    ||| 0x09 <= code <= 0x0D
    ||| code == 0x20
    ||| code == 0x85
    ||| code == 0xA0
    ||| code == 0x1680
    ||| 0x2000 <= code <= 0x200A
    ||| code == 0x2028
    ||| code == 0x2029
    ||| code == 0x202F
    ||| code == 0x205F
    ||| code == 0x3000
}

/// Whether every character of `text` is white space (so the empty text is blank).
pub open spec fn is_blank(text: Seq<char>) -> bool {
    forall|i: int| 0 <= i < text.len() ==> is_whitespace(#[trigger] text[i])
}

/// Whether `c` is white space.
pub fn whitespace(c: char) -> (res: bool)
    ensures
        res == is_whitespace(c),
{
    let code: u32 = c as u32;
    (0x09 <= code && code <= 0x0D) || code == 0x20 || code == 0x85 || code == 0xA0 || code
        == 0x1680 || (0x2000 <= code && code <= 0x200A) || code == 0x2028 || code == 0x2029
        || code == 0x202F || code == 0x205F || code == 0x3000
}

/// Whether `text` holds nothing but white space.
pub fn blank(text: &str) -> (res: bool)
    ensures
        res == is_blank(text@),
{
    for c in it: text.chars()
        invariant
            it.seq() == text@,
            forall|i: int| 0 <= i < it.index() ==> is_whitespace(#[trigger] text@[i]),
    {
        if !whitespace(c) {
            return false;
        }
    }
    true
}

/// Whether two strings hold the same text.
pub fn same_text(a: &str, b: &str) -> (res: bool)
    ensures
        res == (a@ == b@),
{
    a.to_owned() == b.to_owned()
}

/// Whether `text` is among `texts`.
pub fn contains_text(texts: &Vec<String>, text: &String) -> (res: bool)
    ensures
        res == texts.deep_view().contains(text@),
{
    let mut i: usize = 0;
    while i < texts.len()
        invariant
            i <= texts.len(),
            forall|j: int| 0 <= j < i ==> texts.deep_view()[j] != text@,
        decreases texts.len() - i,
    {
        if texts[i] == *text {
            assert(texts.deep_view()[i as int] == text@);
            return true;
        }
        i += 1;
    }
    false
}

} // verus!
