//! The parameter vector that a conditional-sum-of-squares search works on.
//!
//! The optimiser sees one flat vector: the intercept at index 0, then the
//! autoregressive coefficients (lag 1 first), then the moving-average
//! coefficients (lag 1 first). This module packs the three parts into that
//! vector and splits such a vector again. The element type is left open:
//! only positions are decided here, never values.

use vstd::prelude::*;

verus! {

/// Intercept, autoregressive and moving-average coefficients of one model.
#[derive(Debug)]
pub struct Params<T> {
    /// The constant term.
    pub intercept: T,
    /// Autoregressive coefficients; index 0 belongs to lag 1.
    pub phi: Vec<T>,
    /// Moving-average coefficients; index 0 belongs to lag 1.
    pub theta: Vec<T>,
}

/// Number of free parameters of a model with `ar` autoregressive and `ma`
/// moving-average coefficients, the intercept included.
pub open spec fn param_count(ar: int, ma: int) -> int {
    1 + ar + ma
}

/// The flat vector that holds `intercept`, then `phi`, then `theta`.
pub open spec fn packed<T>(intercept: T, phi: Seq<T>, theta: Seq<T>) -> Seq<T> {
    seq![intercept] + phi + theta
}

/// The autoregressive part of a flat vector whose autoregressive order is `ar`.
pub open spec fn phi_part<T>(coef: Seq<T>, ar: int) -> Seq<T> {
    coef.subrange(1, 1 + ar)
}

/// The moving-average part of a flat vector whose autoregressive order is `ar`.
pub open spec fn theta_part<T>(coef: Seq<T>, ar: int) -> Seq<T> {
    coef.subrange(1 + ar, coef.len() as int)
}

/// Splitting a packed vector at the length of its autoregressive part gives
/// back the three parts that were packed.
pub proof fn lemma_split_of_packed<T>(intercept: T, phi: Seq<T>, theta: Seq<T>)
    ensures
        packed(intercept, phi, theta).len() == param_count(phi.len() as int, theta.len() as int),
        packed(intercept, phi, theta)[0] == intercept,
        phi_part(packed(intercept, phi, theta), phi.len() as int) == phi,
        theta_part(packed(intercept, phi, theta), phi.len() as int) == theta,
{
    let coef = packed(intercept, phi, theta);
    assert(phi_part(coef, phi.len() as int) =~= phi);
    assert(theta_part(coef, phi.len() as int) =~= theta);
}

/// Packing the three parts of a flat vector gives back the vector, whatever
/// autoregressive order below its length it is split at.
pub proof fn lemma_packed_of_split<T>(coef: Seq<T>, ar: int)
    requires
        0 <= ar < coef.len(),
    ensures
        packed(coef[0], phi_part(coef, ar), theta_part(coef, ar)) == coef,
{
    assert(packed(coef[0], phi_part(coef, ar), theta_part(coef, ar)) =~= coef);
}

/// Lays the parameters out as one flat vector: intercept, autoregressive
/// coefficients, moving-average coefficients.
pub fn pack<T: Copy>(params: &Params<T>) -> (coef: Vec<T>)
    requires
        param_count(params.phi.len() as int, params.theta.len() as int) <= usize::MAX,
    ensures
        coef@ == packed(params.intercept, params.phi@, params.theta@),
        coef.len() == param_count(params.phi.len() as int, params.theta.len() as int),
        coef[0] == params.intercept,
        phi_part(coef@, params.phi.len() as int) == params.phi@,
        theta_part(coef@, params.phi.len() as int) == params.theta@,
{
    proof {
        lemma_split_of_packed(params.intercept, params.phi@, params.theta@);
    }
    let mut coef: Vec<T> = Vec::new();
    coef.push(params.intercept);
    let mut i: usize = 0;
    while i < params.phi.len()
        invariant
            i <= params.phi.len(),
            coef@ == seq![params.intercept] + params.phi@.subrange(0, i as int),
        decreases params.phi.len() - i,
    {
        coef.push(params.phi[i]);
        i += 1;
    }
    assert(params.phi@.subrange(0, i as int) == params.phi@);
    let mut j: usize = 0;
    while j < params.theta.len()
        invariant
            j <= params.theta.len(),
            coef@ == seq![params.intercept] + params.phi@ + params.theta@.subrange(0, j as int),
        decreases params.theta.len() - j,
    {
        coef.push(params.theta[j]);
        j += 1;
    }
    assert(params.theta@.subrange(0, j as int) == params.theta@);
    coef
}

/// Splits a flat vector into the parameters of a model with `ar`
/// autoregressive and `ma` moving-average coefficients.
///
/// The split is made exactly when the vector has one entry per parameter;
/// a vector of any other length is turned down, so that no part ever comes
/// out shorter than its order.
pub fn split<T: Copy>(coef: &Vec<T>, ar: usize, ma: usize) -> (parts: Option<Params<T>>)
    ensures
        parts is Some <==> coef.len() == param_count(ar as int, ma as int),
        parts matches Some(p) ==> {
            &&& p.intercept == coef[0]
            &&& p.phi@ == phi_part(coef@, ar as int)
            &&& p.theta@ == theta_part(coef@, ar as int)
            &&& p.phi.len() == ar
            &&& p.theta.len() == ma
            &&& packed(p.intercept, p.phi@, p.theta@) == coef@
        },
{
    let n = coef.len();
    if n == 0 || ar > n - 1 || n - 1 - ar != ma {
        return None;
    }
    proof {
        lemma_packed_of_split(coef@, ar as int);
    }
    let mut phi: Vec<T> = Vec::new();
    let mut i: usize = 0;
    while i < ar
        invariant
            i <= ar,
            ar < coef.len(),
            phi@ == coef@.subrange(1, 1 + i as int),
        decreases ar - i,
    {
        phi.push(coef[1 + i]);
        i += 1;
    }
    let mut theta: Vec<T> = Vec::new();
    let mut j: usize = 0;
    while j < ma
        invariant
            j <= ma,
            coef.len() == 1 + ar + ma,
            theta@ == coef@.subrange(1 + ar as int, 1 + ar as int + j as int),
        decreases ma - j,
    {
        theta.push(coef[1 + ar + j]);
        j += 1;
    }
    Some(Params { intercept: coef[0], phi, theta })
}

} // verus!
