//! Public parameters, parameter setup, and the messages that the protocols exchange.

use vstd::prelude::*;
use rand::rngs::ThreadRng;
use crate::group::{
    Point, Scalar, group_order, le_value, lemma_cong_mod, lemma_cong_mul, lemma_cong_small,
    lemma_le_value_injective,
};
use crate::hash::{fiat_shamir, fiat_shamir_hash, part_views};

verus! {

/// The constants shared by client and server.
#[derive(Clone, Copy, Debug)]
pub struct PublicParams {
    pub g0: Point,
    pub gxt: Point,
    pub gd: Point,
}

impl PublicParams {
    pub open spec fn wf(&self) -> bool {
        self.g0.wf() && self.gxt.wf() && self.gd.wf()
    }
}

/// Draws the generators and the setup secret, and builds the public parameters;
/// the secret and the auxiliary generator are dropped on return.
pub fn setup(rng: &mut ThreadRng) -> (r: PublicParams)
    ensures
        r.wf(),
{
    let g0 = Point::random(rng);
    let gt = Point::random(rng);
    let gd = Point::random(rng);
    let xt = Scalar::random(rng);
    setup_with(g0, gt, gd, xt)
}

/// The public parameters for generators `g0`, `gt`, `gd` and setup secret `xt`:
/// `gxt = g0 + xt·gt`.
pub fn setup_with(g0: Point, gt: Point, gd: Point, xt: Scalar) -> (r: PublicParams)
    requires
        g0.wf(),
        gt.wf(),
        gd.wf(),
        xt.wf(),
    ensures
        r.g0 == g0,
        r.gd == gd,
        r.gxt@ == (g0@ + (xt@ * gt@) % group_order()) % group_order(),
        r.wf(),
{
    let xt_gt = gt.scale(&xt);
    proof {
        assert(gt@ * xt@ == xt@ * gt@) by (nonlinear_arith);
    }
    let gxt = g0.sum(&xt_gt);
    PublicParams { g0, gxt, gd }
}

/// The 32-byte little-endian encoding of `v`.
pub open spec fn le_bytes(v: int) -> Seq<u8> {
    choose|b: Seq<u8>| b.len() == 32 && le_value(b) == v
}

/// The redemption challenge for a token point encoded as `h` and a freshness value
/// encoded as `a`: `c = hash(encode(hash(h, a)))`.
pub open spec fn redemption_challenge(h: Seq<u8>, a: Seq<u8>) -> int {
    fiat_shamir(seq![le_bytes(fiat_shamir(seq![h, a]))])
}

/// Computes the redemption challenge for token point `h` and freshness value `a`.
pub fn redemption_challenge_of(h: &Point, a: &Scalar) -> (r: Scalar)
    ensures
        r@ == redemption_challenge(h.enc@, a.bytes@),
        r.wf(),
{
    let mut first: Vec<[u8; 32]> = Vec::new();
    first.push(h.to_bytes());
    first.push(a.to_bytes());
    assert(part_views(first@) =~= seq![h.enc@, a.bytes@]);
    let c_p = fiat_shamir_hash(&first);
    let mut second: Vec<[u8; 32]> = Vec::new();
    second.push(c_p.to_bytes());
    proof {
        let b = le_bytes(c_p@);
        assert(c_p.bytes@.len() == 32 && le_value(c_p.bytes@) == c_p@);
        lemma_le_value_injective(b, c_p.bytes@);
        assert(part_views(second@) =~= seq![le_bytes(c_p@)]);
    }
    fiat_shamir_hash(&second)
}

/// The client public key `gd·sk_c`.
pub fn client_public_key(pp: &PublicParams, sk_c: &Scalar) -> (r: Point)
    requires
        pp.wf(),
        sk_c.wf(),
    ensures
        r@ == (pp.gd@ * sk_c@) % group_order(),
        r.wf(),
{
    pp.gd.scale(sk_c)
}

/// The server public key `g0·sk_s⁻¹`, the one point whose product by `sk_s` is `g0`.
pub fn server_public_key(pp: &PublicParams, sk_s: &Scalar) -> (r: Point)
    requires
        pp.wf(),
        sk_s.wf(),
        sk_s@ != 0,
    ensures
        (r@ * sk_s@) % group_order() == pp.g0@,
        r.wf(),
{
    let inv = sk_s.invert();
    let r = pp.g0.scale(&inv);
    proof {
        let g0 = pp.g0@;
        let sk = sk_s@;
        lemma_cong_mod(g0 * inv@);
        lemma_cong_mul(r@, g0 * inv@, sk, sk);
        lemma_cong_mod(sk * inv@);
        lemma_cong_mul(g0, g0, sk * inv@, 1);
        assert(g0 * inv@ * sk == g0 * (sk * inv@)) by (nonlinear_arith);
        lemma_cong_mod(r@ * sk);
        lemma_cong_small((r@ * sk) % group_order(), g0);
    }
    r
}

/// The server's first issuance message.
#[allow(non_snake_case)]
#[derive(Clone, Copy, Debug)]
pub struct InitMessage {
    pub Sigma_z: Point,
    pub Sigma_a: Point,
    pub Sigma_b: Point,
}

impl InitMessage {
    pub open spec fn wf(&self) -> bool {
        self.Sigma_z.wf() && self.Sigma_a.wf() && self.Sigma_b.wf()
    }
}

/// A credential: presentable, and holding no secret scalar.
#[allow(non_snake_case)]
#[derive(Clone, Copy, Debug)]
pub struct Token {
    pub H: Point,
    pub pi: Scalar,
    pub Sigma_z_: Point,
    pub sigma_c_: Scalar,
    pub sigma_r_: Scalar,
}

impl Token {
    pub open spec fn wf(&self) -> bool {
        self.H.wf() && self.pi.wf() && self.Sigma_z_.wf() && self.sigma_c_.wf()
            && self.sigma_r_.wf()
    }
}

/// The blinding scalar that the holder of a token keeps from issuance.
#[derive(Clone, Copy, Debug)]
pub struct Witness {
    pub alpha: Scalar,
}

/// The client's first redemption message: the token and a commitment.
#[derive(Clone, Copy, Debug)]
pub struct RedemptionProof1 {
    pub token: Token,
    pub comm: Point,
}

impl RedemptionProof1 {
    pub open spec fn wf(&self) -> bool {
        self.token.wf() && self.comm.wf()
    }
}

/// The client's second redemption message: the two responses.
#[derive(Clone, Copy, Debug)]
pub struct RedemptionProof2 {
    pub r0: Scalar,
    pub rd: Scalar,
}

impl RedemptionProof2 {
    pub open spec fn wf(&self) -> bool {
        self.r0.wf() && self.rd.wf()
    }
}

} // verus!
