//! Fitting a picture to the printable area of a page.
//!
//! Lengths are in the package's native unit, of which 360,000 make a
//! centimetre. A picture wider than the page is shrunk to the page's width;
//! if what results is still taller than the page it is shrunk again to the
//! page's height. Both steps keep the proportions, rounding down.

use vstd::prelude::*;

verus! {

/// The widest a picture may be: 16.5 cm.
pub const MAX_WIDTH: u32 = 5_900_000;

/// The tallest a picture may be: 29.7 cm.
pub const MAX_HEIGHT: u32 = 10_629_420;

/// The first pass: a picture wider than the page takes the page's width, and
/// its height shrinks in proportion.
pub open spec fn fit_width(width: nat, height: nat) -> (nat, nat) {
    if width > MAX_WIDTH {
        (MAX_WIDTH as nat, height * MAX_WIDTH as nat / width)
    } else {
        (width, height)
    }
}

/// The second pass: a picture taller than the page takes the page's height,
/// and its width shrinks in proportion.
pub open spec fn fit_height(width: nat, height: nat) -> (nat, nat) {
    if height > MAX_HEIGHT {
        (width * MAX_HEIGHT as nat / height, MAX_HEIGHT as nat)
    } else {
        (width, height)
    }
}

/// Both passes in their fixed order: width first, then height on the result.
pub open spec fn fitted(width: nat, height: nat) -> (nat, nat) {
    let (w, h) = fit_width(width, height);
    fit_height(w, h)
}

/// Whether a picture lies within the page.
pub open spec fn within_page(width: nat, height: nat) -> bool {
    width <= MAX_WIDTH && height <= MAX_HEIGHT
}

/// Shrinking by a factor below one does not grow a length.
proof fn lemma_scaled_down(a: nat, num: nat, den: nat)
    requires
        0 < den,
        num <= den,
    ensures
        a * num / den <= a,
{
    assert(a * num <= a * den) by (nonlinear_arith)
        requires
            num <= den,
    ;
    assert(a * den / den == a) by (nonlinear_arith)
        requires
            0 < den,
    ;
    assert(a * num / den <= a * den / den) by (nonlinear_arith)
        requires
            a * num <= a * den,
            0 < den,
    ;
}

/// Whatever the picture, the fitted picture lies within the page.
pub proof fn lemma_fitted_within_page(width: nat, height: nat)
    ensures
        within_page(fitted(width, height).0, fitted(width, height).1),
{
    let (w, h) = fit_width(width, height);
    if h > MAX_HEIGHT {
        lemma_scaled_down(w, MAX_HEIGHT as nat, h);
    }
}

/// A picture within the page is left as it is.
pub proof fn lemma_fitted_keeps_small(width: nat, height: nat)
    requires
        within_page(width, height),
    ensures
        fitted(width, height) == (width, height),
{
}

/// Fitting is idempotent: fitting a fitted picture changes nothing.
pub proof fn lemma_fitted_idempotent(width: nat, height: nat)
    ensures
        fitted(fitted(width, height).0, fitted(width, height).1) == fitted(width, height),
{
    lemma_fitted_within_page(width, height);
    lemma_fitted_keeps_small(fitted(width, height).0, fitted(width, height).1);
}

/// Fitting never enlarges either side.
pub proof fn lemma_fitted_shrinks(width: nat, height: nat)
    ensures
        fitted(width, height).0 <= width,
        fitted(width, height).1 <= height,
{
    let (w, h) = fit_width(width, height);
    if width > MAX_WIDTH {
        lemma_scaled_down(height, MAX_WIDTH as nat, width);
    }
    if h > MAX_HEIGHT {
        lemma_scaled_down(w, MAX_HEIGHT as nat, h);
    }
}

/// `a * num / den`, rounded down, for a factor `num / den` below one.
fn scale_down(a: u64, num: u32, den: u64) -> (scaled: u64)
    requires
        0 < den,
        num <= den,
    ensures
        scaled == a as nat * num as nat / den as nat,
{
    proof {
        lemma_scaled_down(a as nat, num as nat, den as nat);
        assert(a as nat * num as nat <= 0xffff_ffff_ffff_ffff * 0xffff_ffff) by (nonlinear_arith)
            requires
                a <= 0xffff_ffff_ffff_ffff,
                num <= 0xffff_ffff,
        ;
    }
    let wide: u128 = (a as u128) * (num as u128);
    let quotient: u128 = wide / (den as u128);
    quotient as u64
}

/// Fits a picture of the given extent to the page and returns its new
/// extent. The result always lies within the page, and a picture that
/// already does is returned unchanged.
pub fn re_size_picture(width: u64, height: u64) -> (size: (u32, u32))
    ensures
        (size.0 as nat, size.1 as nat) == fitted(width as nat, height as nat),
        within_page(size.0 as nat, size.1 as nat),
{
    proof {
        lemma_fitted_within_page(width as nat, height as nat);
    }
    let mut new_width: u64 = width;
    let mut new_height: u64 = height;
    if width > MAX_WIDTH as u64 {
        new_height = scale_down(height, MAX_WIDTH, width);
        new_width = MAX_WIDTH as u64;
    }
    if new_height > MAX_HEIGHT as u64 {
        new_width = scale_down(new_width, MAX_HEIGHT, new_height);
        new_height = MAX_HEIGHT as u64;
    }
    (new_width as u32, new_height as u32)
}

} // verus!
