//! The server's side: issuing tokens and checking their redemption.

use vstd::prelude::*;
use rand::rngs::ThreadRng;
use crate::group::{Point, Scalar, group_order, ristretto_encoding};
use crate::hash::{fiat_shamir, fiat_shamir_hash, part_views};
use crate::util_u_prove::{
    InitMessage, PublicParams, RedemptionProof1, RedemptionProof2, Token, redemption_challenge,
    redemption_challenge_of,
};

verus! {

/// A server's keys, the client it serves, and the ephemeral values of its current sessions.
pub struct Server {
    pub pp: PublicParams,
    pub pk_c: Point,
    pub w: Scalar,
    pub sk_s: Scalar,
    pub pk_s: Point,
    pub a: Scalar,
    pub comm: Point,
}

/// `gxt + pk_c`, the point that issuance signs for a client key.
pub open spec fn gamma(pp: PublicParams, pk_c: Point) -> int {
    (pp.gxt@ + pk_c@) % group_order()
}

/// `new` is `old` with a fresh issuance value `w`, and `m` is the first issuance
/// message for it: `Sigma_z = gamma·sk_s`, `Sigma_a = pk_s·w`, `Sigma_b = gamma·w`.
pub open spec fn initiated(old: Server, new: Server, pp: PublicParams, m: InitMessage) -> bool {
    &&& new == (Server { w: new.w, ..old })
    &&& new.w.wf()
    &&& m.wf()
    &&& m.Sigma_z@ == (gamma(pp, old.pk_c) * old.sk_s@) % group_order()
    &&& m.Sigma_a@ == (old.pk_s@ * new.w@) % group_order()
    &&& m.Sigma_b@ == (gamma(pp, old.pk_c) * new.w@) % group_order()
}

/// The server's issuance response `sk_s·sigma_c + w`.
pub open spec fn issue_value(sk_s: int, w: int, sigma_c: int) -> int {
    ((sk_s * sigma_c) % group_order() + w) % group_order()
}

/// The issuance challenge recomputed from a token alone, under server key `pk_s`.
pub open spec fn token_challenge(pp: PublicParams, pk_s: Point, t: Token) -> int {
    let x1 = ((pk_s@ * t.sigma_r_@) % group_order() - (pp.g0@ * t.sigma_c_@) % group_order())
        % group_order();
    let x2 = ((t.H@ * t.sigma_r_@) % group_order() - (t.Sigma_z_@ * t.sigma_c_@) % group_order())
        % group_order();
    fiat_shamir(
        seq![t.H.enc@, t.pi.bytes@, t.Sigma_z_.enc@, ristretto_encoding(x1), ristretto_encoding(x2)],
    )
}

/// The token carries the challenge of a genuine issuance under `pk_s`.
pub open spec fn token_valid(pp: PublicParams, pk_s: Point, t: Token) -> bool {
    t.sigma_c_@ == token_challenge(pp, pk_s, t)
}

/// The point `-c·gxt + r0·H + rd·gd` that a redemption commitment must equal.
pub open spec fn redemption_right(pp: PublicParams, t: Token, a: Scalar, p: RedemptionProof2) -> int {
    let c = redemption_challenge(t.H.enc@, a.bytes@);
    (((-c) % group_order()) * pp.gxt@ + p.r0@ * t.H@ + p.rd@ * pp.gd@) % group_order()
}

/// Checks that a token carries the challenge of a genuine issuance under `pk_s`.
pub fn redemption1_check(pp: &PublicParams, pk_s: &Point, token: &Token) -> (r: bool)
    requires
        pp.wf(),
        pk_s.wf(),
        token.wf(),
    ensures
        r == token_valid(*pp, *pk_s, *token),
{
    let x1 = pk_s.scale(&token.sigma_r_).difference(&pp.g0.scale(&token.sigma_c_));
    let x2 = token.H.scale(&token.sigma_r_).difference(&token.Sigma_z_.scale(&token.sigma_c_));
    let mut parts: Vec<[u8; 32]> = Vec::new();
    parts.push(token.H.to_bytes());
    parts.push(token.pi.to_bytes());
    parts.push(token.Sigma_z_.to_bytes());
    parts.push(x1.to_bytes());
    parts.push(x2.to_bytes());
    assert(part_views(parts@) =~= seq![
        token.H.enc@,
        token.pi.bytes@,
        token.Sigma_z_.enc@,
        ristretto_encoding(x1@),
        ristretto_encoding(x2@),
    ]);
    let right = fiat_shamir_hash(&parts);
    token.sigma_c_.equals(&right)
}

impl Server {
    pub open spec fn wf(&self) -> bool {
        &&& self.pp.wf()
        &&& self.pk_c.wf()
        &&& self.w.wf()
        &&& self.sk_s.wf()
        &&& self.pk_s.wf()
        &&& self.a.wf()
        &&& self.comm.wf()
    }

    /// A server with its keys and its client's key; `st` fills the ephemeral
    /// scalars until a session draws them.
    pub fn new(pp: &PublicParams, pk_c: Point, sk_s: Scalar, pk_s: Point, st: Scalar) -> (r: Server)
        ensures
            r == (Server { pp: *pp, pk_c, w: st, sk_s, pk_s, a: st, comm: pp.g0 }),
    {
        Server { pp: *pp, pk_c, w: st, sk_s, pk_s, a: st, comm: pp.g0 }
    }

    /// Draws a fresh `w` and sends the first issuance message.
    pub fn server_initiate(&mut self, rng: &mut ThreadRng, pp: &PublicParams) -> (r: InitMessage)
        requires
            old(self).wf(),
            pp.wf(),
        ensures
            initiated(*old(self), *final(self), *pp, r),
    {
        let w = Scalar::random(rng);
        self.server_initiate_with(pp, w)
    }

    /// Sends the first issuance message for the ephemeral value `w`, and keeps `w`.
    pub fn server_initiate_with(&mut self, pp: &PublicParams, w: Scalar) -> (r: InitMessage)
        requires
            old(self).wf(),
            pp.wf(),
            w.wf(),
        ensures
            initiated(*old(self), *final(self), *pp, r),
            final(self).w == w,
    {
        let gamma = pp.gxt.sum(&self.pk_c);
        let sigma_z = gamma.scale(&self.sk_s);
        self.w = w;
        let sigma_a = self.pk_s.scale(&w);
        let sigma_b = gamma.scale(&w);
        InitMessage { Sigma_z: sigma_z, Sigma_a: sigma_a, Sigma_b: sigma_b }
    }

    /// The issuance response `sk_s·sigma_c + w` to the client's blinded challenge.
    pub fn server_issue(&self, sigma_c: Scalar) -> (r: Scalar)
        requires
            self.wf(),
            sigma_c.wf(),
        ensures
            r@ == issue_value(self.sk_s@, self.w@, sigma_c@),
            r.wf(),
    {
        self.sk_s.product(&sigma_c).sum(&self.w)
    }

    /// Checks the presented token; if it is genuine, keeps the commitment and
    /// answers with a fresh challenge `a`, which it keeps too.
    pub fn server_verify_redemption1(
        &mut self,
        rng: &mut ThreadRng,
        pp: &PublicParams,
        proof: &RedemptionProof1,
    ) -> (r: Option<Scalar>)
        requires
            old(self).wf(),
            pp.wf(),
            proof.wf(),
        ensures
            r.is_some() == token_valid(*pp, old(self).pk_s, proof.token),
            r.is_some() ==> r.unwrap().wf()
                && *final(self) == (Server { a: r.unwrap(), comm: proof.comm, ..*old(self) }),
            r.is_none() ==> *final(self) == *old(self),
            final(self).wf(),
    {
        if !redemption1_check(pp, &self.pk_s, &proof.token) {
            return None;
        }
        self.comm = proof.comm;
        let a = Scalar::random(rng);
        self.a = a;
        Some(a)
    }

    /// Accepts the responses iff the kept commitment equals `-c·gxt + r0·H + rd·gd`,
    /// where `c` is the challenge derived from the token and the kept `a`.
    pub fn server_verify_redemption2(
        &self,
        token: &Token,
        pp: &PublicParams,
        proof: &RedemptionProof2,
    ) -> (r: bool)
        requires
            self.wf(),
            token.wf(),
            pp.wf(),
            proof.wf(),
        ensures
            r == (self.comm@ == redemption_right(*pp, *token, self.a, *proof)),
    {
        let c = redemption_challenge_of(&token.H, &self.a);
        let right = Point::multiscalar_mul([c.negate(), proof.r0, proof.rd], [pp.gxt, token.H, pp.gd]);
        self.comm.equals(&right)
    }
}

} // verus!
