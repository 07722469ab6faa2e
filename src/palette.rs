use vstd::prelude::*;

verus! {

/// Number of lower case letters to draw from.
pub const NUMBER_OF_LETTERS: usize = 26;

/// Number of digits to draw from.
pub const NUMBER_OF_NUMBERS: usize = 10;

/// Number of symbols to draw from.
pub const NUMBER_SIGNS: usize = 18;

/// The lower case letters, in alphabetical order.
pub open spec fn lower_palette() -> Seq<char> {
    seq!['a', 'b', 'c', 'd', 'e', 'f', 'g', 'h', 'i', 'j', 'k', 'l', 'm',
         'n', 'o', 'p', 'q', 'r', 's', 't', 'u', 'v', 'w', 'x', 'y', 'z']
}

/// The decimal digits.
pub open spec fn number_palette() -> Seq<char> {
    seq!['0', '1', '2', '3', '4', '5', '6', '7', '8', '9']
}

/// The symbols.
pub open spec fn sign_palette() -> Seq<char> {
    seq!['|', '!', '@', '#', '$', '%', '&', '?', '*', '+', '~', '^', ';', ':', '-', '_', '<', '>']
}

/// The `i`-th lower case letter.
pub fn lower_letter(i: usize) -> (c: char)
    requires
        i < NUMBER_OF_LETTERS,
    ensures
        c == lower_palette()[i as int],
{
    let letters: [char; NUMBER_OF_LETTERS] = ['a', 'b', 'c', 'd', 'e', 'f', 'g', 'h', 'i', 'j', 'k', 'l', 'm',
         'n', 'o', 'p', 'q', 'r', 's', 't', 'u', 'v', 'w', 'x', 'y', 'z'];
    assert(letters@ == lower_palette());
    letters[i]
}

/// Number of distinct values a single draw can take: a draw `t` in `0..SCALE`
/// stands for the fraction `t / SCALE` of the unit interval.
pub const SCALE: u32 = 1_000_000;

/// The four kinds of characters a password is made of.
#[derive(Clone, Copy, Debug, PartialEq, Eq, Structural)]
pub enum Category {
    Lower,
    Upper,
    Number,
    Sign,
}

/// ASCII upper case folding: a lower case ASCII letter becomes its capital,
/// every other character is left alone.
pub open spec fn ascii_upper(c: char) -> char {
    if 'a' <= c && c <= 'z' {
        ((c as u32) - 32) as char
    } else {
        c
    }
}

/// The upper case letters, obtained by folding the lower case palette.
pub open spec fn upper_palette() -> Seq<char> {
    lower_palette().map_values(|c: char| ascii_upper(c))
}

/// The characters a category draws from.
pub open spec fn palette_of(cat: Category) -> Seq<char> {
    match cat {
        Category::Lower => lower_palette(),
        Category::Upper => upper_palette(),
        Category::Number => number_palette(),
        Category::Sign => sign_palette(),
    }
}

/// Every character that can appear in a password.
pub open spec fn in_palettes(c: char) -> bool {
    lower_palette().contains(c) || upper_palette().contains(c) || number_palette().contains(c)
        || sign_palette().contains(c)
}

/// Index picked in a palette of `len` entries by the draw `u`: the fraction
/// `u / SCALE` scaled to the palette and truncated.
pub open spec fn index_of_draw(u: int, len: int) -> int {
    (u * len) / (SCALE as int)
}

/// The character that the draw `u` picks in the palette of `cat`.
pub open spec fn char_of_draw(cat: Category, u: int) -> char {
    palette_of(cat)[index_of_draw(u, palette_of(cat).len() as int)]
}

/// Relies on `char::to_ascii_uppercase`: maps 'a'..='z' to 'A'..='Z' and
/// returns any other character unchanged.
#[verifier::external_body]
fn to_upper(c: char) -> (r: char)
    ensures
        r == ascii_upper(c),
{
    c.to_ascii_uppercase()
}

/// The index that the draw `u` picks in a palette of `len` entries.
pub fn index_for_draw(u: u32, len: usize) -> (i: usize)
    requires
        u < SCALE,
        0 < len <= NUMBER_OF_LETTERS,
    ensures
        i == index_of_draw(u as int, len as int),
        i < len,
{
    proof {
        assert((u as int) * (len as int) <= (SCALE as int) * (NUMBER_OF_LETTERS as int)) by (nonlinear_arith)
            requires u < SCALE, len <= NUMBER_OF_LETTERS;
        assert((u as int) * (len as int) < (SCALE as int) * (len as int)) by (nonlinear_arith)
            requires u < SCALE, 0 < len;
        assert((u as int) * (len as int) / (SCALE as int) < len as int) by (nonlinear_arith)
            requires (u as int) * (len as int) < (SCALE as int) * (len as int), 0 < len;
    }
    let prod: u64 = (u as u64) * (len as u64);
    (prod / (SCALE as u64)) as usize
}

/// The `i`-th digit.
pub fn number_char(i: usize) -> (c: char)
    requires
        i < NUMBER_OF_NUMBERS,
    ensures
        c == number_palette()[i as int],
{
    let numbers: [char; NUMBER_OF_NUMBERS] = ['0', '1', '2', '3', '4', '5', '6', '7', '8', '9'];
    assert(numbers@ == number_palette());
    numbers[i]
}

/// The `i`-th symbol.
pub fn sign_char(i: usize) -> (c: char)
    requires
        i < NUMBER_SIGNS,
    ensures
        c == sign_palette()[i as int],
{
    let signs: [char; NUMBER_SIGNS] = ['|', '!', '@', '#', '$', '%', '&', '?', '*', '+', '~', '^', ';', ':', '-', '_', '<', '>'];
    assert(signs@ == sign_palette());
    signs[i]
}

/// The character that the draw `u` picks in the palette of `cat`; an upper
/// case letter is a lower case one folded at the moment it is picked.
pub fn char_for_draw(cat: Category, u: u32) -> (c: char)
    requires
        u < SCALE,
    ensures
        c == char_of_draw(cat, u as int),
        palette_of(cat).contains(c),
{
    match cat {
        Category::Lower => {
            let i = index_for_draw(u, NUMBER_OF_LETTERS);
            lower_letter(i)
        },
        Category::Upper => {
            let i = index_for_draw(u, NUMBER_OF_LETTERS);
            let c = to_upper(lower_letter(i));
            assert(upper_palette()[i as int] == c);
            c
        },
        Category::Number => {
            let i = index_for_draw(u, NUMBER_OF_NUMBERS);
            number_char(i)
        },
        Category::Sign => {
            let i = index_for_draw(u, NUMBER_SIGNS);
            sign_char(i)
        },
    }
}

} // verus!
