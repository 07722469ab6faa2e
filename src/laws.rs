use vstd::prelude::*;
use vstd::set_lib::{lemma_int_range, set_int_range};

use crate::config::Config;
use crate::generator::{category_of, char_for, is_draw};
use crate::palette::{Category, SCALE, in_palettes, index_of_draw, palette_of};

verus! {

/// The draws, among the `SCALE` equally likely ones, that fall in `cat`.
pub open spec fn draws_in(cfg: Config, cat: Category) -> Set<int> {
    Set::new(|t: int| is_draw(t) && category_of(cfg, t) == cat)
}

/// Shares that are not negative and lie end to end within the unit interval.
pub open spec fn shares_fit(cfg: Config) -> bool {
    0 <= cfg.lower_case_perc && 0 <= cfg.upper_case_perc && 0 <= cfg.numbers_perc
        && cfg.lower_case_perc + cfg.upper_case_perc + cfg.numbers_perc <= SCALE
}

/// A palette draw picks an index inside a palette of `len` entries.
pub proof fn lemma_index_in_range(u: int, len: int)
    requires
        is_draw(u),
        0 < len,
    ensures
        0 <= index_of_draw(u, len) < len,
{
    assert(u * len < (SCALE as int) * len) by (nonlinear_arith)
        requires
            u < SCALE,
            0 < len,
    ;
    assert(0 <= u * len) by (nonlinear_arith)
        requires
            0 <= u,
            0 < len,
    ;
    assert((u * len) / (SCALE as int) < len) by (nonlinear_arith)
        requires
            u * len < (SCALE as int) * len,
    ;
}

/// Every character that a pair of draws produces is a lower case letter, an
/// upper case letter, a digit or one of the symbols.
pub proof fn lemma_char_in_palettes(cfg: Config, t: int, u: int)
    requires
        is_draw(t),
        is_draw(u),
    ensures
        in_palettes(char_for(cfg, t, u)),
{
    let cat = category_of(cfg, t);
    let p = palette_of(cat);
    assert(p.len() > 0);
    lemma_index_in_range(u, p.len() as int);
    let i = index_of_draw(u, p.len() as int);
    assert(p.contains(p[i]));
}

/// The category boundaries are strict: a draw equal to the share of lower
/// case letters does not pick a lower case letter, and in general a draw
/// picks one exactly when it lies below that share.
pub proof fn lemma_lower_boundary(cfg: Config, t: int)
    ensures
        category_of(cfg, cfg.lower_case_perc as int) != Category::Lower,
        category_of(cfg, t) == Category::Lower <==> t < cfg.lower_case_perc,
{
}

/// Each category receives exactly its share of the equally likely draws:
/// `lower_case_perc` of the `SCALE` draws give a lower case letter,
/// `upper_case_perc` an upper case one, `numbers_perc` a digit, and the rest
/// a symbol. Drawn uniformly, each category thus comes up with the
/// probability configured for it.
pub proof fn lemma_category_shares(cfg: Config)
    requires
        shares_fit(cfg),
    ensures
        draws_in(cfg, Category::Lower).finite(),
        draws_in(cfg, Category::Lower).len() == cfg.lower_case_perc,
        draws_in(cfg, Category::Upper).finite(),
        draws_in(cfg, Category::Upper).len() == cfg.upper_case_perc,
        draws_in(cfg, Category::Number).finite(),
        draws_in(cfg, Category::Number).len() == cfg.numbers_perc,
        draws_in(cfg, Category::Sign).finite(),
        draws_in(cfg, Category::Sign).len() == SCALE - (cfg.lower_case_perc + cfg.upper_case_perc
            + cfg.numbers_perc),
{
    let l = cfg.lower_case_perc as int;
    let u = l + cfg.upper_case_perc;
    let n = u + cfg.numbers_perc;
    assert(draws_in(cfg, Category::Lower) =~= set_int_range(0, l));
    assert(draws_in(cfg, Category::Upper) =~= set_int_range(l, u));
    assert(draws_in(cfg, Category::Number) =~= set_int_range(u, n));
    assert(draws_in(cfg, Category::Sign) =~= set_int_range(n, SCALE as int));
    lemma_int_range(0, l);
    lemma_int_range(l, u);
    lemma_int_range(u, n);
    lemma_int_range(n, SCALE as int);
}

} // verus!
