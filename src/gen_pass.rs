use vstd::prelude::*;

use rand::seq::SliceRandom;
use vstd::utf8::{decode_utf8, valid_utf8};

verus! {

broadcast use vstd::seq_lib::group_to_multiset_ensures;

/// Upper-case letters a password may hold.
pub open spec fn upper_class() -> Seq<u8> {
    seq![
        'A' as u8, 'B' as u8, 'C' as u8, 'D' as u8, 'E' as u8, 'F' as u8, 'G' as u8, 'H' as u8, 'G' as u8, 'K' as u8, 'L' as u8, 'M' as u8,
        'N' as u8, 'P' as u8, 'Q' as u8, 'R' as u8, 'S' as u8, 'T' as u8, 'U' as u8, 'V' as u8, 'W' as u8, 'X' as u8, 'Y' as u8, 'Z' as u8,
    ]
}

/// Lower-case letters a password may hold.
pub open spec fn lower_class() -> Seq<u8> {
    seq![
        'a' as u8, 'b' as u8, 'c' as u8, 'd' as u8, 'e' as u8, 'f' as u8, 'g' as u8, 'h' as u8, 'i' as u8, 'g' as u8, 'k' as u8, 'm' as u8, 'n' as u8,
        'o' as u8, 'p' as u8, 'q' as u8, 'r' as u8, 's' as u8, 't' as u8, 'u' as u8, 'v' as u8, 'w' as u8, 'x' as u8, 'y' as u8, 'z' as u8,
    ]
}

/// Digits a password may hold.
pub open spec fn number_class() -> Seq<u8> {
    seq!['1' as u8, '2' as u8, '3' as u8, '4' as u8, '5' as u8, '6' as u8, '7' as u8, '8' as u8, '9' as u8]
}

/// Symbols a password may hold.
pub open spec fn symbol_class() -> Seq<u8> {
    seq!['!' as u8, '@' as u8, '#' as u8, '$' as u8, '%' as u8, '^' as u8, '&' as u8, '*' as u8, '_' as u8]
}

fn upper_chars() -> (r: Vec<u8>)
    ensures
        r@ == upper_class(),
{
    let r = vec![
        'A' as u8, 'B' as u8, 'C' as u8, 'D' as u8, 'E' as u8, 'F' as u8, 'G' as u8, 'H' as u8,
        'G' as u8, 'K' as u8, 'L' as u8, 'M' as u8, 'N' as u8, 'P' as u8, 'Q' as u8, 'R' as u8,
        'S' as u8, 'T' as u8, 'U' as u8, 'V' as u8, 'W' as u8, 'X' as u8, 'Y' as u8, 'Z' as u8,
    ];
    assert(r@ =~= upper_class());
    r
}

fn lower_chars() -> (r: Vec<u8>)
    ensures
        r@ == lower_class(),
{
    let r = vec![
        'a' as u8, 'b' as u8, 'c' as u8, 'd' as u8, 'e' as u8, 'f' as u8, 'g' as u8, 'h' as u8,
        'i' as u8, 'g' as u8, 'k' as u8, 'm' as u8, 'n' as u8, 'o' as u8, 'p' as u8, 'q' as u8,
        'r' as u8, 's' as u8, 't' as u8, 'u' as u8, 'v' as u8, 'w' as u8, 'x' as u8, 'y' as u8,
        'z' as u8,
    ];
    assert(r@ =~= lower_class());
    r
}

fn number_chars() -> (r: Vec<u8>)
    ensures
        r@ == number_class(),
{
    let r = vec![
        '1' as u8, '2' as u8, '3' as u8, '4' as u8, '5' as u8, '6' as u8, '7' as u8, '8' as u8,
        '9' as u8,
    ];
    assert(r@ =~= number_class());
    r
}

fn symbol_chars() -> (r: Vec<u8>)
    ensures
        r@ == symbol_class(),
{
    let r = vec![
        '!' as u8, '@' as u8, '#' as u8, '$' as u8, '%' as u8, '^' as u8, '&' as u8, '*' as u8,
        '_' as u8,
    ];
    assert(r@ =~= symbol_class());
    r
}

/// Whether `c` belongs to one of the enabled classes.
pub open spec fn in_classes(c: u8, upper: bool, lower: bool, number: bool, symbol: bool) -> bool {
    ||| upper && upper_class().contains(c)
    ||| lower && lower_class().contains(c)
    ||| number && number_class().contains(c)
    ||| symbol && symbol_class().contains(c)
}

/// Whether `p` holds some character of `class`.
pub open spec fn has_char_of(p: Seq<u8>, class: Seq<u8>) -> bool {
    exists|c: u8| #[trigger] p.contains(c) && class.contains(c)
}

/// How many classes are enabled.
pub open spec fn enabled_count(upper: bool, lower: bool, number: bool, symbol: bool) -> nat {
    (if upper { 1nat } else { 0 }) + (if lower { 1nat } else { 0 }) + (if number { 1nat } else { 0 })
        + (if symbol { 1nat } else { 0 })
}

/// Whether `p` holds a character of every enabled class.
pub open spec fn has_enabled_classes(p: Seq<u8>, upper: bool, lower: bool, number: bool, symbol: bool) -> bool {
    &&& upper ==> has_char_of(p, upper_class())
    &&& lower ==> has_char_of(p, lower_class())
    &&& number ==> has_char_of(p, number_class())
    &&& symbol ==> has_char_of(p, symbol_class())
}

/// A password of `length` characters, each from an enabled class, with at
/// least one character of every enabled class.
pub open spec fn is_password(
    p: Seq<u8>,
    length: u8,
    upper: bool,
    lower: bool,
    number: bool,
    symbol: bool,
) -> bool {
    &&& p.len() == length
    &&& forall|c: u8| #[trigger] p.contains(c) ==> in_classes(c, upper, lower, number, symbol)
    &&& has_enabled_classes(p, upper, lower, number, symbol)
}

/// The text of ASCII codes.
pub open spec fn ascii_text(p: Seq<u8>) -> Seq<char> {
    p.map_values(|b: u8| b as char)
}

/// Relies on rand's `SliceRandom::choose` with the thread-local generator:
/// some element of the slice, `None` only when it is empty.
#[verifier::external_body]
fn choose_byte(chars: &[u8]) -> (r: Option<u8>)
    ensures
        r is Some <==> chars@.len() > 0,
        r matches Some(c) ==> chars@.contains(c),
{
    chars.choose(&mut rand::thread_rng()).copied()
}

/// Relies on rand's `SliceRandom::shuffle` with the thread-local generator:
/// the same elements in some order.
#[verifier::external_body]
fn shuffle_bytes(bytes: &mut Vec<u8>)
    ensures
        final(bytes)@.to_multiset() == old(bytes)@.to_multiset(),
{
    bytes.shuffle(&mut rand::thread_rng());
}

/// The error of `String::from_utf8`, carried but never looked into.
#[verifier::external_type_specification]
#[verifier::external_body]
pub struct ExFromUtf8Error(std::string::FromUtf8Error);

/// Relies on `String::from_utf8`: it succeeds exactly on valid UTF-8, with
/// the characters that the bytes encode.
#[verifier::external_body]
fn string_from_utf8(bytes: Vec<u8>) -> (r: Result<String, std::string::FromUtf8Error>)
    ensures
        r is Ok <==> valid_utf8(bytes@),
        r matches Ok(s) ==> s@ == decode_utf8(bytes@),
{
    String::from_utf8(bytes)
}

/// A sequence with one more element holds what it held, and that element.
proof fn lemma_push_contains(p: Seq<u8>, x: u8)
    ensures
        forall|c: u8| #[trigger] p.push(x).contains(c) <==> p.contains(c) || c == x,
{
    assert forall|c: u8| #[trigger] p.push(x).contains(c) <==> p.contains(c) || c == x by {
        if p.push(x).contains(c) {
            let i = choose|i: int| 0 <= i < p.len() + 1 && p.push(x)[i] == c;
            if i < p.len() {
                assert(p[i] == c);
            }
        }
        if p.contains(c) {
            let i = choose|i: int| 0 <= i < p.len() && p[i] == c;
            assert(p.push(x)[i] == c);
        }
        if c == x {
            assert(p.push(x)[p.len() as int] == x);
        }
    }
}

/// A character of a class stays in a sequence that holds all the first held.
proof fn lemma_has_char_kept(p: Seq<u8>, q: Seq<u8>, class: Seq<u8>)
    requires
        has_char_of(p, class),
        forall|c: u8| #[trigger] p.contains(c) ==> q.contains(c),
    ensures
        has_char_of(q, class),
{
    let c = choose|c: u8| #[trigger] p.contains(c) && class.contains(c);
    assert(q.contains(c));
}

/// What a concatenation holds is what either part holds.
proof fn lemma_concat_contains(a: Seq<u8>, b: Seq<u8>)
    ensures
        forall|c: u8| #[trigger] (a + b).contains(c) <==> a.contains(c) || b.contains(c),
{
    assert forall|c: u8| #[trigger] (a + b).contains(c) <==> a.contains(c) || b.contains(c) by {
        if (a + b).contains(c) {
            let i = choose|i: int| 0 <= i < (a + b).len() && (a + b)[i] == c;
            if i >= a.len() {
                assert(b[i - a.len()] == c);
            }
        }
        if a.contains(c) {
            let i = choose|i: int| 0 <= i < a.len() && a[i] == c;
            assert((a + b)[i] == c);
        }
        if b.contains(c) {
            let i = choose|i: int| 0 <= i < b.len() && b[i] == c;
            assert((a + b)[a.len() + i] == c);
        }
    }
}

/// Characters of the enabled classes stay in a sequence that holds all the
/// first held.
proof fn lemma_classes_kept(
    p: Seq<u8>,
    q: Seq<u8>,
    upper: bool,
    lower: bool,
    number: bool,
    symbol: bool,
)
    requires
        has_enabled_classes(p, upper, lower, number, symbol),
        forall|c: u8| #[trigger] p.contains(c) ==> q.contains(c),
    ensures
        has_enabled_classes(q, upper, lower, number, symbol),
{
    if upper {
        lemma_has_char_kept(p, q, upper_class());
    }
    if lower {
        lemma_has_char_kept(p, q, lower_class());
    }
    if number {
        lemma_has_char_kept(p, q, number_class());
    }
    if symbol {
        lemma_has_char_kept(p, q, symbol_class());
    }
}

/// Adds a class to the pool of characters, and one character of it to the
/// password.
fn add_class(class: Vec<u8>, chars: &mut Vec<u8>, password: &mut Vec<u8>)
    requires
        class@.len() > 0,
    ensures
        final(chars)@ == old(chars)@ + class@,
        final(password)@.len() == old(password)@.len() + 1,
        forall|c: u8| #[trigger] final(password)@.contains(c) ==> old(password)@.contains(c) || class@.contains(c),
        forall|c: u8| old(password)@.contains(c) ==> #[trigger] final(password)@.contains(c),
        has_char_of(final(password)@, class@),
{
    let mut class = class;
    let ghost old_password = password@;
    if let Some(c) = choose_byte(&class) {
        password.push(c);
        proof {
            lemma_push_contains(old_password, c);
            assert(password@.contains(c) && class@.contains(c));
        }
    }
    chars.append(&mut class);
}

/// Draws a password of `length` characters from the enabled classes, with at
/// least one character of each enabled class, in random order.
pub fn generate_password(length: u8, upper: bool, lower: bool, number: bool, symbol: bool) -> (r: Vec<u8>)
    requires
        enabled_count(upper, lower, number, symbol) <= length,
        length > 0 ==> upper || lower || number || symbol,
    ensures
        is_password(r@, length, upper, lower, number, symbol),
{
    let mut password: Vec<u8> = Vec::new();
    let mut chars: Vec<u8> = Vec::new();
    if upper {
        add_class(upper_chars(), &mut chars, &mut password);
        proof {
            lemma_concat_contains(Seq::empty(), upper_class());
        }
    }
    let ghost (pool, held) = (chars@, password@);
    if lower {
        add_class(lower_chars(), &mut chars, &mut password);
        proof {
            lemma_concat_contains(pool, lower_class());
            lemma_classes_kept(held, password@, upper, false, false, false);
        }
    }
    let ghost (pool, held) = (chars@, password@);
    if number {
        add_class(number_chars(), &mut chars, &mut password);
        proof {
            lemma_concat_contains(pool, number_class());
            lemma_classes_kept(held, password@, upper, lower, false, false);
        }
    }
    let ghost (pool, held) = (chars@, password@);
    if symbol {
        add_class(symbol_chars(), &mut chars, &mut password);
        proof {
            lemma_concat_contains(pool, symbol_class());
            lemma_classes_kept(held, password@, upper, lower, number, false);
        }
    }
    while password.len() < length as usize
        invariant
            password@.len() <= length,
            password@.len() < length ==> chars@.len() > 0,
            forall|c: u8| #[trigger] password@.contains(c) ==> in_classes(c, upper, lower, number, symbol),
            forall|c: u8| #[trigger] chars@.contains(c) ==> in_classes(c, upper, lower, number, symbol),
            has_enabled_classes(password@, upper, lower, number, symbol),
        decreases length - password@.len(),
    {
        let ghost held = password@;
        if let Some(c) = choose_byte(&chars) {
            password.push(c);
            proof {
                lemma_push_contains(held, c);
                lemma_classes_kept(held, password@, upper, lower, number, symbol);
            }
        }
    }
    let ghost unshuffled = password@;
    shuffle_bytes(&mut password);
    proof {
        assert forall|c: u8| #[trigger] password@.contains(c) <==> unshuffled.contains(c) by {
            assert(password@.to_multiset().count(c) == unshuffled.to_multiset().count(c));
        }
        assert(password@.len() == password@.to_multiset().len());
        lemma_classes_kept(unshuffled, password@, upper, lower, number, symbol);
    }
    password
}

/// A random password, as text.
pub fn process_genpass(length: u8, upper: bool, lower: bool, number: bool, symbol: bool) -> (r: String)
    requires
        enabled_count(upper, lower, number, symbol) <= length,
        length > 0 ==> upper || lower || number || symbol,
    ensures
        exists|p: Seq<u8>| is_password(p, length, upper, lower, number, symbol) && r@ == ascii_text(p),
{
    let password = generate_password(length, upper, lower, number, symbol);
    let ghost p = password@;
    proof {
        lemma_ascii_utf8(p, length, upper, lower, number, symbol);
    }
    match string_from_utf8(password) {
        Ok(s) => s,
        Err(_) => String::new(),
    }
}

/// The bytes of a password are the UTF-8 encoding of its ASCII text.
proof fn lemma_ascii_utf8(p: Seq<u8>, length: u8, upper: bool, lower: bool, number: bool, symbol: bool)
    requires
        is_password(p, length, upper, lower, number, symbol),
    ensures
        valid_utf8(p),
        decode_utf8(p) == ascii_text(p),
{
    let text = ascii_text(p);
    assert forall|i: int| 0 <= i < p.len() implies p[i] < 128 by {
        assert(p.contains(p[i]));
    }
    assert(vstd::utf8::is_ascii_chars(text));
    vstd::utf8::is_ascii_chars_encode_utf8(text);
    assert(vstd::utf8::encode_utf8(text) =~= p);
    vstd::utf8::encode_utf8_valid_utf8(text);
    vstd::utf8::encode_utf8_decode_utf8(text);
}

} // verus!
