//! Text helpers: comparing strings, joining them, and cutting a URI path
//! into its components and a line into its words.

use vstd::prelude::*;
use vstd::string::*;
use vstd::utf8::*;

verus! {

/// True exactly when the two strings hold the same characters.
pub fn same_text(a: &str, b: &str) -> (same: bool)
    ensures
        same == (a@ == b@),
{
    let x = a.as_bytes();
    let y = b.as_bytes();
    proof {
        encode_utf8_decode_utf8(a@);
        encode_utf8_decode_utf8(b@);
    }
    if x.len() != y.len() {
        return false;
    }
    let mut i: usize = 0;
    while i < x.len()
        invariant
            i <= x.len(),
            x.len() == y.len(),
            x@ == a.spec_bytes(),
            y@ == b.spec_bytes(),
            forall|k: int| 0 <= k < i ==> x@[k] == y@[k],
        decreases x.len() - i,
    {
        if x[i] != y[i] {
            return false;
        }
        i = i + 1;
    }
    assert(x@ =~= y@);
    true
}

/// The characters of `text`, in order.
pub fn characters(text: &str) -> (out: Vec<char>)
    ensures
        out@ == text@,
{
    let mut out: Vec<char> = Vec::new();
    for c in it: text.chars()
        invariant
            it.seq() == text@,
            out@ == text@.take(it.index()),
    {
        out.push(c);
        proof {
            assert(text@.take(it.index() + 1) == text@.take(it.index()).push(c));
        }
    }
    out
}

/// `first` followed by `second`, as a new string.
pub fn joined(first: &str, second: &str) -> (out: String)
    ensures
        out@ == first@ + second@,
{
    let mut out = String::from_str(first);
    out.append(second);
    out
}

/// The UTF-8 bytes of `text`.
pub fn bytes_of(text: &str) -> (out: Vec<u8>)
    ensures
        out@ == encode_utf8(text@),
{
    text.as_bytes_vec()
}

/// Reads `bytes` as UTF-8 with `core::str::from_utf8`. The contract claims
/// that the bytes are accepted exactly when they are valid UTF-8, and that
/// the text handed back is made of these bytes.
#[verifier::external_body]
pub(crate) fn decoded(bytes: &[u8]) -> (text: Option<&str>)
    ensures
        match text {
            Some(text) => valid_utf8(bytes@) && encode_utf8(text@) == bytes@,
            None => !valid_utf8(bytes@),
        },
{
    core::str::from_utf8(bytes).ok()
}

/// The given texts one after the other, with `separator` between each two.
pub open spec fn separated(items: Seq<Seq<char>>, separator: Seq<char>) -> Seq<char>
    decreases items.len(),
{
    if items.len() == 0 {
        Seq::empty()
    } else if items.len() == 1 {
        items[0]
    } else {
        separated(items.drop_last(), separator) + separator + items.last()
    }
}

/// The given texts one after the other, with `separator` between each two.
pub fn join(items: &Vec<String>, separator: &str) -> (out: String)
    ensures
        out@ == separated(items.deep_view(), separator@),
{
    let mut out = String::new();
    let mut i: usize = 0;
    proof {
        assert(items.deep_view().take(0) =~= Seq::<Seq<char>>::empty());
    }
    while i < items.len()
        invariant
            i <= items.len(),
            out@ == separated(items.deep_view().take(i as int), separator@),
        decreases items.len() - i,
    {
        proof {
            assert(items.deep_view().take(i + 1).drop_last() =~= items.deep_view().take(i as int));
            assert(items.deep_view().take(i + 1).last() == items@[i as int]@);
            if i == 0 {
                assert(out@ + items@[i as int]@ =~= items@[i as int]@);
            }
        }
        if i > 0 {
            out.append(separator);
        }
        out.append(items[i].as_str());
        i = i + 1;
    }
    proof {
        assert(items.deep_view().take(i as int) =~= items.deep_view());
    }
    out
}

/// True of the character that separates the components of a path.
pub open spec fn is_slash(c: char) -> bool {
    c == '/'
}

/// True of the characters that have the Unicode property White_Space: the
/// tab, the line feed, the vertical tab, the form feed, the carriage
/// return and the space of ASCII, the next line, the no-break space, the
/// ogham space mark, the spaces of fixed width from the en quad to the hair
/// space, the line and the paragraph separator, the narrow no-break space,
/// the medium mathematical space and the ideographic space.
pub open spec fn is_white_space(c: char) -> bool {
    let code = c as u32;
    ||| 0x09 <= code <= 0x0d
    ||| code == 0x20
    ||| code == 0x85
    ||| code == 0xa0
    ||| code == 0x1680
    ||| 0x2000 <= code <= 0x200a
    ||| code == 0x2028
    ||| code == 0x2029
    ||| code == 0x202f
    ||| code == 0x205f
    ||| code == 0x3000
}

/// Calls `char::is_whitespace`, which answers whether a character has the
/// Unicode property White_Space. The contract claims the characters of
/// that property.
#[verifier::external_body]
fn white_space(c: char) -> (yes: bool)
    ensures
        yes == is_white_space(c),
{
    c.is_whitespace()
}

/// The pieces that the separating characters cut `text` into, empty ones
/// included: one more piece than there are separating characters.
pub open spec fn split_where(text: Seq<char>, separates: spec_fn(char) -> bool) -> Seq<Seq<char>>
    decreases text.len(),
{
    if text.len() == 0 {
        seq![Seq::<char>::empty()]
    } else {
        let before = split_where(text.drop_last(), separates);
        if separates(text.last()) {
            before.push(Seq::<char>::empty())
        } else {
            before.drop_last().push(before.last().push(text.last()))
        }
    }
}

/// The non-empty pieces of `pieces`, in order.
pub open spec fn non_empty(pieces: Seq<Seq<char>>) -> Seq<Seq<char>>
    decreases pieces.len(),
{
    if pieces.len() == 0 {
        pieces
    } else if pieces.last().len() == 0 {
        non_empty(pieces.drop_last())
    } else {
        non_empty(pieces.drop_last()).push(pieces.last())
    }
}

/// The components of a URI path: what lies between its slashes, without
/// the empty pieces that leading, trailing or doubled slashes leave.
pub open spec fn path_components(path: Seq<char>) -> Seq<Seq<char>> {
    non_empty(split_where(path, |c: char| is_slash(c)))
}

/// The words of a line: what lies between its white space.
pub open spec fn words_of(line: Seq<char>) -> Seq<Seq<char>> {
    non_empty(split_where(line, |c: char| is_white_space(c)))
}

/// `split_where` always returns at least one piece.
pub proof fn lemma_split_where_nonempty(text: Seq<char>, separates: spec_fn(char) -> bool)
    ensures
        split_where(text, separates).len() >= 1,
    decreases text.len(),
{
    if text.len() > 0 {
        lemma_split_where_nonempty(text.drop_last(), separates);
    }
}

/// The last piece of `split_where` is the run of characters after the last
/// separating character.
pub proof fn lemma_split_where_last(text: Seq<char>, separates: spec_fn(char) -> bool, start: int)
    requires
        0 <= start <= text.len(),
        start == 0 || separates(text[start - 1]),
        forall|k: int| start <= k < text.len() ==> !separates(text[k]),
    ensures
        split_where(text, separates).len() >= 1,
        split_where(text, separates).last() == text.subrange(start, text.len() as int),
    decreases text.len(),
{
    if text.len() == 0 {
        assert(text.subrange(start, text.len() as int) =~= Seq::<char>::empty());
    } else if start == text.len() {
        lemma_split_where_nonempty(text.drop_last(), separates);
        assert(text.subrange(start, text.len() as int) =~= Seq::<char>::empty());
    } else {
        let shorter = text.drop_last();
        lemma_split_where_last(shorter, separates, start);
        assert(text.subrange(start, text.len() as int) =~= shorter.subrange(
            start,
            shorter.len() as int,
        ).push(text.last()));
    }
}

/// Cuts `text` at the characters that are marked and keeps the non-empty
/// pieces. `marks` says of each character whether it separates.
fn split_marked(
    text: &str,
    marks: &Vec<bool>,
    Ghost(separates): Ghost<spec_fn(char) -> bool>,
) -> (pieces: Vec<String>)
    requires
        marks@.len() == text@.len(),
        forall|k: int| 0 <= k < text@.len() ==> marks@[k] == separates(text@[k]),
    ensures
        pieces.deep_view() == non_empty(split_where(text@, separates)),
{
    let mut pieces: Vec<String> = Vec::new();
    let mut start: usize = 0;
    let mut i: usize = 0;
    proof {
        assert(text@.take(0) =~= Seq::<char>::empty());
        assert(pieces.deep_view() =~= Seq::<Seq<char>>::empty());
        assert(split_where(text@.take(0), separates).drop_last() =~= Seq::<Seq<char>>::empty());
    }
    while i < marks.len()
        invariant
            marks@.len() == text@.len(),
            forall|k: int| 0 <= k < text@.len() ==> marks@[k] == separates(text@[k]),
            0 <= start <= i <= marks.len(),
            start == 0 || separates(text@[start - 1]),
            forall|k: int| start <= k < i ==> !separates(text@[k]),
            pieces.deep_view() == non_empty(
                split_where(text@.take(i as int), separates).drop_last(),
            ),
        decreases marks.len() - i,
    {
        let ghost seen = text@.take(i as int);
        let ghost next = text@.take(i + 1);
        proof {
            assert(next.drop_last() =~= seen);
            assert(next.last() == text@[i as int]);
            lemma_split_where_last(seen, separates, start as int);
            assert(seen.subrange(start as int, seen.len() as int) =~= text@.subrange(
                start as int,
                i as int,
            ));
        }
        if marks[i] {
            proof {
                let cut = split_where(seen, separates);
                assert(split_where(next, separates).drop_last() =~= cut);
                assert(cut.drop_last().push(cut.last()) =~= cut);
            }
            if start < i {
                let piece = text.substring_char(start, i).to_owned();
                let ghost before = pieces.deep_view();
                pieces.push(piece);
                proof {
                    assert(pieces.deep_view() =~= before.push(piece@));
                }
            }
            start = i + 1;
        } else {
            proof {
                let cut = split_where(seen, separates);
                assert(split_where(next, separates).drop_last() =~= cut.drop_last());
            }
        }
        i = i + 1;
    }
    proof {
        assert(text@.take(i as int) =~= text@);
        lemma_split_where_last(text@, separates, start as int);
        let cut = split_where(text@, separates);
        assert(cut.drop_last().push(cut.last()) =~= cut);
    }
    if start < i {
        let piece = text.substring_char(start, i).to_owned();
        let ghost before = pieces.deep_view();
        pieces.push(piece);
        proof {
            assert(pieces.deep_view() =~= before.push(piece@));
        }
    }
    pieces
}

/// Cuts a URI path at its slashes and keeps the non-empty components.
pub fn split_path(path: &str) -> (components: Vec<String>)
    ensures
        components.deep_view() == path_components(path@),
{
    let chars = characters(path);
    let mut marks: Vec<bool> = Vec::new();
    let mut i: usize = 0;
    while i < chars.len()
        invariant
            i <= chars.len(),
            marks@.len() == i,
            forall|k: int| 0 <= k < i ==> marks@[k] == is_slash(chars@[k]),
        decreases chars.len() - i,
    {
        marks.push(chars[i] == '/');
        i = i + 1;
    }
    split_marked(path, &marks, Ghost(|c: char| is_slash(c)))
}

/// Cuts a line at its white space and keeps the words.
pub fn split_words(line: &str) -> (words: Vec<String>)
    ensures
        words.deep_view() == words_of(line@),
{
    let chars = characters(line);
    let mut marks: Vec<bool> = Vec::new();
    let mut i: usize = 0;
    while i < chars.len()
        invariant
            i <= chars.len(),
            marks@.len() == i,
            forall|k: int| 0 <= k < i ==> marks@[k] == is_white_space(chars@[k]),
        decreases chars.len() - i,
    {
        marks.push(white_space(chars[i]));
        i = i + 1;
    }
    split_marked(line, &marks, Ghost(|c: char| is_white_space(c)))
}

} // verus!
