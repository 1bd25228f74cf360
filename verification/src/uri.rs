//! The short identifiers under which topics and their data are reached.

use rand::Rng;
use vstd::prelude::*;
use vstd::string::*;

verus! {

/// The number of symbols in an identifier.
pub const URI_LENGTH: usize = 6;

/// The number of symbols an identifier is drawn from.
pub const ALPHABET_SIZE: u8 = 36;

/// The symbols of an identifier: the digits, then the lower-case letters.
pub open spec fn alphabet() -> Seq<char> {
    "0123456789abcdefghijklmnopqrstuvwxyz"@
}

/// An identifier has six symbols, each a digit or a lower-case letter.
pub open spec fn is_uri(text: Seq<char>) -> bool {
    &&& text.len() == URI_LENGTH
    &&& forall|i: int| 0 <= i < text.len() ==> alphabet().contains(#[trigger] text[i])
}

/// The text that a sequence of choices spells: choice 0 is `0`, choice 10
/// is `a`, choice 35 is `z`, and larger choices wrap around.
pub open spec fn spelled(choices: Seq<u8>) -> Seq<char> {
    Seq::new(choices.len(), |i: int| alphabet()[(choices[i] % ALPHABET_SIZE) as int])
}

/// The alphabet has 36 symbols, all of them ASCII.
pub proof fn lemma_alphabet()
    ensures
        alphabet().len() == ALPHABET_SIZE,
        vstd::utf8::is_ascii_chars(alphabet()),
{
    reveal_strlit("0123456789abcdefghijklmnopqrstuvwxyz");
}

/// Calls `rand::Rng::gen_range` on `rand::thread_rng()` with the range
/// `0..bound`. The contract claims only that the number drawn lies in that
/// range; an empty range, on which the call panics, is left out.
#[verifier::external_body]
fn random_below(bound: u8) -> (choice: u8)
    requires
        bound > 0,
    ensures
        choice < bound,
{
    rand::thread_rng().gen_range(0..bound)
}

/// Spells the given choices as text.
pub fn uri_from_choices(choices: &Vec<u8>) -> (uri: String)
    ensures
        uri@ == spelled(choices@),
{
    let symbols = "0123456789abcdefghijklmnopqrstuvwxyz";
    proof {
        lemma_alphabet();
    }
    let mut uri = String::new();
    let mut i: usize = 0;
    while i < choices.len()
        invariant
            i <= choices.len(),
            symbols@ == alphabet(),
            symbols.is_ascii(),
            alphabet().len() == ALPHABET_SIZE,
            uri@ == spelled(choices@).take(i as int),
        decreases choices.len() - i,
    {
        let at: usize = (choices[i] % ALPHABET_SIZE) as usize;
        let symbol = symbols.substring_ascii(at, at + 1);
        uri.append(symbol);
        proof {
            assert(symbol@ =~= seq![alphabet()[at as int]]);
            assert(spelled(choices@).take(i + 1) =~= spelled(choices@).take(i as int).push(
                alphabet()[at as int],
            ));
        }
        i = i + 1;
    }
    proof {
        assert(spelled(choices@).take(i as int) =~= spelled(choices@));
    }
    uri
}

/// Whatever the choices, six of them spell an identifier.
pub proof fn lemma_spelled_is_uri(choices: Seq<u8>)
    requires
        choices.len() == URI_LENGTH,
    ensures
        is_uri(spelled(choices)),
{
    lemma_alphabet();
    assert forall|i: int| 0 <= i < spelled(choices).len() implies alphabet().contains(
        #[trigger] spelled(choices)[i],
    ) by {
        let at = (choices[i] % ALPHABET_SIZE) as int;
        assert(alphabet()[at] == spelled(choices)[i]);
    }
}

/// The number of identifiers there are: 36 to the power of 6.
pub const IDENTIFIER_COUNT: u32 = 2_176_782_336;

/// The six choices that stand for the number `rank` to the base 36, the
/// most significant first.
pub open spec fn choices_of(rank: nat) -> Seq<u8> {
    seq![
        ((rank / 60_466_176) % 36) as u8,
        ((rank / 1_679_616) % 36) as u8,
        ((rank / 46_656) % 36) as u8,
        ((rank / 1_296) % 36) as u8,
        ((rank / 36) % 36) as u8,
        (rank % 36) as u8,
    ]
}

/// The identifier that stands at place `rank` when all identifiers are
/// written in order.
pub open spec fn identifier(rank: nat) -> Seq<char> {
    spelled(choices_of(rank))
}

/// The choices of a number to the base 36 are the digits it was made of.
proof fn lemma_choices_of_digits(a: nat, b: nat, c: nat, d: nat, e: nat, f: nat)
    requires
        a < 36,
        b < 36,
        c < 36,
        d < 36,
        e < 36,
        f < 36,
    ensures
        a * 60_466_176 + b * 1_679_616 + c * 46_656 + d * 1_296 + e * 36 + f < IDENTIFIER_COUNT,
        choices_of(a * 60_466_176 + b * 1_679_616 + c * 46_656 + d * 1_296 + e * 36 + f) == seq![
            a as u8,
            b as u8,
            c as u8,
            d as u8,
            e as u8,
            f as u8,
        ],
{
    let (a, b, c, d, e, f) = (a as int, b as int, c as int, d as int, e as int, f as int);
    let rank: int = a * 60_466_176 + b * 1_679_616 + c * 46_656 + d * 1_296 + e * 36 + f;
    let r1: int = a * 1_679_616 + b * 46_656 + c * 1_296 + d * 36 + e;
    let r2: int = a * 46_656 + b * 1_296 + c * 36 + d;
    let r3: int = a * 1_296 + b * 36 + c;
    let r4: int = a * 36 + b;
    vstd::arithmetic::div_mod::lemma_fundamental_div_mod_converse(rank, 36, r1, f);
    vstd::arithmetic::div_mod::lemma_fundamental_div_mod_converse(rank, 1_296, r2, e * 36 + f);
    vstd::arithmetic::div_mod::lemma_fundamental_div_mod_converse(
        rank,
        46_656,
        r3,
        d * 1_296 + e * 36 + f,
    );
    vstd::arithmetic::div_mod::lemma_fundamental_div_mod_converse(
        rank,
        1_679_616,
        r4,
        c * 46_656 + d * 1_296 + e * 36 + f,
    );
    vstd::arithmetic::div_mod::lemma_fundamental_div_mod_converse(
        rank,
        60_466_176,
        a,
        b * 1_679_616 + c * 46_656 + d * 1_296 + e * 36 + f,
    );
    vstd::arithmetic::div_mod::lemma_fundamental_div_mod_converse(r1, 36, r2, e);
    vstd::arithmetic::div_mod::lemma_fundamental_div_mod_converse(r2, 36, r3, d);
    vstd::arithmetic::div_mod::lemma_fundamental_div_mod_converse(r3, 36, r4, c);
    vstd::arithmetic::div_mod::lemma_fundamental_div_mod_converse(r4, 36, a, b);
    vstd::arithmetic::div_mod::lemma_fundamental_div_mod_converse(a, 36, 0, a);
    assert(choices_of(rank as nat) =~= seq![a as u8, b as u8, c as u8, d as u8, e as u8, f as u8]);
}

/// The place of a symbol in the alphabet.
spec fn place_of(symbol: char) -> nat {
    alphabet().index_of(symbol) as nat
}

/// The choices that spell a text symbol by symbol spell the text.
proof fn lemma_spelled_places(text: Seq<char>)
    requires
        is_uri(text),
    ensures
        forall|i: int| 0 <= i < 6 ==> place_of(#[trigger] text[i]) < 36,
        spelled(
            seq![
                place_of(text[0]) as u8,
                place_of(text[1]) as u8,
                place_of(text[2]) as u8,
                place_of(text[3]) as u8,
                place_of(text[4]) as u8,
                place_of(text[5]) as u8,
            ],
        ) == text,
{
    lemma_alphabet();
    assert forall|i: int| 0 <= i < 6 implies place_of(#[trigger] text[i]) < 36
        && alphabet()[place_of(text[i]) as int] == text[i] by {
        assert(alphabet().contains(text[i]));
    }
    let choices = seq![
        place_of(text[0]) as u8,
        place_of(text[1]) as u8,
        place_of(text[2]) as u8,
        place_of(text[3]) as u8,
        place_of(text[4]) as u8,
        place_of(text[5]) as u8,
    ];
    assert forall|i: int| 0 <= i < 6 implies spelled(choices)[i] == text[i] by {
        assert(choices[i] == place_of(text[i]) as u8);
        assert(choices[i] % ALPHABET_SIZE == place_of(text[i]));
    }
    assert(spelled(choices) =~= text);
}

/// Every identifier stands at some place in the order of all
/// identifiers.
pub proof fn lemma_identifier_has_rank(text: Seq<char>)
    requires
        is_uri(text),
    ensures
        exists|rank: nat| rank < IDENTIFIER_COUNT && #[trigger] identifier(rank) == text,
{
    lemma_spelled_places(text);
    let a = place_of(text[0]);
    let b = place_of(text[1]);
    let c = place_of(text[2]);
    let d = place_of(text[3]);
    let e = place_of(text[4]);
    let f = place_of(text[5]);
    lemma_choices_of_digits(a, b, c, d, e, f);
    let rank: nat = a * 60_466_176 + b * 1_679_616 + c * 46_656 + d * 1_296 + e * 36 + f;
    assert(identifier(rank) == text);
}

/// Writes the identifier that stands at place `rank`.
pub fn identifier_at(rank: u32) -> (uri: String)
    ensures
        uri@ == identifier(rank as nat),
        is_uri(uri@),
{
    let mut choices: Vec<u8> = Vec::new();
    choices.push(((rank / 60_466_176) % 36) as u8);
    choices.push(((rank / 1_679_616) % 36) as u8);
    choices.push(((rank / 46_656) % 36) as u8);
    choices.push(((rank / 1_296) % 36) as u8);
    choices.push(((rank / 36) % 36) as u8);
    choices.push((rank % 36) as u8);
    proof {
        assert(choices@ =~= choices_of(rank as nat));
        lemma_spelled_is_uri(choices@);
    }
    uri_from_choices(&choices)
}

/// Draws a fresh identifier at random: six symbols, each a digit or a
/// lower-case letter.
pub fn generate_uri() -> (uri: String)
    ensures
        is_uri(uri@),
{
    let mut choices: Vec<u8> = Vec::new();
    while choices.len() < URI_LENGTH
        invariant
            choices.len() <= URI_LENGTH,
        decreases URI_LENGTH - choices.len(),
    {
        choices.push(random_below(ALPHABET_SIZE));
    }
    proof {
        lemma_spelled_is_uri(choices@);
    }
    uri_from_choices(&choices)
}

} // verus!
