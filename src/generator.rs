use vstd::prelude::*;

use rand::Rng;
use rand::rngs::ThreadRng;

use crate::config::Config;
use crate::palette::{
    Category, SCALE, char_for_draw, char_of_draw, in_palettes, index_of_draw, palette_of,
};

verus! {

#[verifier::external_type_specification]
#[verifier::external_body]
pub struct ExThreadRng(ThreadRng);

/// Relies on `rand::thread_rng`, which hands out the thread's random source.
pub assume_specification[ rand::thread_rng ]() -> ThreadRng;

/// Relies on `rand::Rng::gen_range` over `0..bound`: a value drawn from that
/// range, which must not be empty.
#[verifier::external_body]
fn draw_below(rng: &mut ThreadRng, bound: u32) -> (r: u32)
    requires
        bound > 0,
    ensures
        r < bound,
{
    rng.gen_range(0..bound)
}

/// Relies on `String`'s `FromIterator<char>`: the characters in order.
#[verifier::external_body]
fn string_of_chars(v: &Vec<char>) -> (r: String)
    ensures
        r@ == v@,
{
    v.iter().collect::<String>()
}

/// The category that the draw `t` falls in: the shares are laid end to end
/// from zero, lower case first, each interval closed on the left and open on
/// the right; whatever lies past the first three goes to the symbols.
pub open spec fn category_of(cfg: Config, t: int) -> Category {
    let l = cfg.lower_case_perc as int;
    let u = cfg.upper_case_perc as int;
    let n = cfg.numbers_perc as int;
    if t < l {
        Category::Lower
    } else if t < l + u {
        Category::Upper
    } else if t < l + u + n {
        Category::Number
    } else {
        Category::Sign
    }
}

/// The character produced from the category draw `t` and the palette draw `u`.
pub open spec fn char_for(cfg: Config, t: int, u: int) -> char {
    char_of_draw(category_of(cfg, t), u)
}

/// Whether `t` is a possible draw.
pub open spec fn is_draw(t: int) -> bool {
    0 <= t < SCALE
}

/// Whether some pair of draws produces `c`.
pub open spec fn drawable(cfg: Config, c: char) -> bool {
    exists|t: int, u: int| is_draw(t) && is_draw(u) && c == char_for(cfg, t, u)
}

/// The password written by a sequence of pairs of draws, one pair per character.
pub open spec fn password_of(cfg: Config, draws: Seq<(u32, u32)>) -> Seq<char> {
    Seq::new(draws.len(), |i: int| char_for(cfg, draws[i].0 as int, draws[i].1 as int))
}

/// The category that the draw `t` falls in.
pub fn select_category(cfg: &Config, t: u32) -> (c: Category)
    ensures
        c == category_of(*cfg, t as int),
{
    let t = t as i128;
    let l = cfg.lower_case_perc as i128;
    let u = cfg.upper_case_perc as i128;
    let n = cfg.numbers_perc as i128;
    if t < l {
        Category::Lower
    } else if t < l + u {
        Category::Upper
    } else if t < l + u + n {
        Category::Number
    } else {
        Category::Sign
    }
}

/// The character produced from the category draw `t` and the palette draw `u`.
pub fn char_for_draws(cfg: &Config, t: u32, u: u32) -> (c: char)
    requires
        t < SCALE,
        u < SCALE,
    ensures
        c == char_for(*cfg, t as int, u as int),
        in_palettes(c),
{
    let cat = select_category(cfg, t);
    char_for_draw(cat, u)
}

/// The password written by `draws`, one pair of draws per character.
pub fn password_from_draws(cfg: &Config, draws: &Vec<(u32, u32)>) -> (r: Vec<char>)
    requires
        forall|i: int| 0 <= i < draws@.len() ==> is_draw(#[trigger] draws@[i].0 as int)
            && is_draw(draws@[i].1 as int),
    ensures
        r@ == password_of(*cfg, draws@),
        forall|i: int| 0 <= i < r@.len() ==> in_palettes(#[trigger] r@[i]),
{
    let mut r: Vec<char> = Vec::new();
    let mut i: usize = 0;
    while i < draws.len()
        invariant
            i <= draws@.len(),
            forall|j: int| 0 <= j < draws@.len() ==> is_draw(#[trigger] draws@[j].0 as int)
                && is_draw(draws@[j].1 as int),
            r@ == password_of(*cfg, draws@.take(i as int)),
            forall|j: int| 0 <= j < r@.len() ==> in_palettes(#[trigger] r@[j]),
        decreases draws@.len() - i,
    {
        let (t, u) = draws[i];
        let c = char_for_draws(cfg, t, u);
        r.push(c);
        i = i + 1;
        assert(r@ =~= password_of(*cfg, draws@.take(i as int)));
    }
    assert(draws@.take(i as int) =~= draws@);
    r
}

/// A password generator: a configuration, a random source, and the password
/// written so far.
pub struct PassGen {
    cfg: Config,
    rng: ThreadRng,
    buf: Vec<char>,
}

impl PassGen {
    /// The configuration the generator works with.
    pub closed spec fn config(&self) -> Config {
        self.cfg
    }

    /// The password written so far.
    pub closed spec fn buffer(&self) -> Seq<char> {
        self.buf@
    }

    /// A generator for `cfg` with an empty password and a fresh random source.
    pub fn new(cfg: &Config) -> (g: PassGen)
        ensures
            g.config() == *cfg,
            g.buffer() == Seq::<char>::empty(),
    {
        PassGen { cfg: *cfg, rng: rand::thread_rng(), buf: Vec::new() }
    }

    /// Appends `pass_len` characters to the password. For each one a draw
    /// picks the category by the configured shares, and a second draw picks
    /// the character within the category's palette.
    pub fn generate(&mut self, pass_len: &u32)
        ensures
            final(self).config() == old(self).config(),
            final(self).buffer().len() == old(self).buffer().len() + *pass_len,
            final(self).buffer().take(old(self).buffer().len() as int) == old(self).buffer(),
            forall|i: int|
                old(self).buffer().len() <= i < final(self).buffer().len() ==> drawable(
                    old(self).config(),
                    #[trigger] final(self).buffer()[i],
                ),
            forall|i: int|
                old(self).buffer().len() <= i < final(self).buffer().len() ==> in_palettes(
                    #[trigger] final(self).buffer()[i],
                ),
    {
        let ghost start = self.buf@;
        let mut k: u32 = 0;
        while k < *pass_len
            invariant
                k <= *pass_len,
                self.cfg == old(self).cfg,
                self.buf@.len() == start.len() + k,
                self.buf@.take(start.len() as int) == start,
                start == old(self).buf@,
                forall|i: int|
                    start.len() <= i < self.buf@.len() ==> drawable(self.cfg, #[trigger] self.buf@[i]),
                forall|i: int|
                    start.len() <= i < self.buf@.len() ==> in_palettes(#[trigger] self.buf@[i]),
            decreases *pass_len - k,
        {
            let t = draw_below(&mut self.rng, SCALE);
            let u = draw_below(&mut self.rng, SCALE);
            let c = char_for_draws(&self.cfg, t, u);
            let ghost before = self.buf@;
            self.buf.push(c);
            assert(self.buf@.take(start.len() as int) =~= before.take(start.len() as int));
            assert(drawable(self.cfg, self.buf@[self.buf@.len() - 1])) by {
                assert(is_draw(t as int) && is_draw(u as int) && c == char_for(
                    self.cfg,
                    t as int,
                    u as int,
                ));
            }
            k = k + 1;
        }
    }

    /// The password written so far, as text. The generator is left as it is,
    /// so asking twice gives the same text.
    pub fn password(&self) -> (r: String)
        ensures
            r@ == self.buffer(),
    {
        string_of_chars(&self.buf)
    }
}

} // verus!
