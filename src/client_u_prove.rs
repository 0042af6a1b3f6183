//! The client's side: obtaining a token blindly and redeeming it.

use vstd::prelude::*;
use rand::rngs::ThreadRng;
use crate::group::{
    Point, Scalar, cong, group_order, lemma_cong_mod, lemma_cong_mul, lemma_cong_sub,
};
use crate::hash::{fiat_shamir, fiat_shamir_hash, part_views};
use crate::server_u_prove::gamma;
use crate::util_u_prove::{
    InitMessage, PublicParams, RedemptionProof1, RedemptionProof2, Token, Witness,
    redemption_challenge, redemption_challenge_of,
};

verus! {

/// A client's keys and attribute, and the ephemeral values of its current sessions.
#[allow(non_snake_case)]
pub struct Client {
    pub pp: PublicParams,
    pub sk_c: Scalar,
    pub pk_c: Point,
    pub pi: Scalar,
    pub H: Point,
    pub alpha: Scalar,
    pub beta2: Scalar,
    pub sigma_c_: Scalar,
    pub Sigma_z_: Point,
    pub Sigma_a_: Point,
    pub Sigma_b_: Point,
    pub wd_: Scalar,
    pub w0: Scalar,
    pub wd: Scalar,
}

/// `new` is `old` after the query step with blinding values `new.alpha`, `beta1`,
/// `new.beta2` on the server's message `m`, and `sc` is the blinded challenge sent.
pub open spec fn queried(
    old: Client,
    new: Client,
    pp: PublicParams,
    pk_s: Point,
    m: InitMessage,
    beta1: Scalar,
    sc: Scalar,
) -> bool {
    &&& new == (Client {
        H: new.H,
        alpha: new.alpha,
        beta2: new.beta2,
        sigma_c_: new.sigma_c_,
        Sigma_z_: new.Sigma_z_,
        Sigma_a_: new.Sigma_a_,
        Sigma_b_: new.Sigma_b_,
        ..old
    })
    &&& new.wf()
    &&& sc.wf()
    &&& new.H@ == (gamma(pp, old.pk_c) * new.alpha@) % group_order()
    &&& new.Sigma_z_@ == (m.Sigma_z@ * new.alpha@) % group_order()
    &&& new.Sigma_a_@ == (beta1@ * pp.g0@ + new.beta2@ * pk_s@ + m.Sigma_a@) % group_order()
    &&& new.Sigma_b_@ == (beta1@ * new.Sigma_z_@ + new.beta2@ * new.H@ + new.alpha@ * m.Sigma_b@)
        % group_order()
    &&& new.sigma_c_@ == fiat_shamir(
        seq![new.H.enc@, old.pi.bytes@, new.Sigma_z_.enc@, new.Sigma_a_.enc@, new.Sigma_b_.enc@],
    )
    &&& sc@ == (new.sigma_c_@ + beta1@) % group_order()
}

/// The de-blinded response `sigma_r + beta2`.
pub open spec fn deblinded(c: Client, sigma_r: Scalar) -> int {
    (sigma_r@ + c.beta2@) % group_order()
}

/// The client's check of the issuance response:
/// `Sigma_a_ + Sigma_b_ == (H + pk_s)·sigma_r_ - (g0 + Sigma_z_)·sigma_c_`.
pub open spec fn issuance_accepted(c: Client, pp: PublicParams, pk_s: Point, sigma_r: Scalar) -> bool {
    (c.Sigma_a_@ + c.Sigma_b_@) % group_order() == (((((c.H@ + pk_s@) % group_order())
        * deblinded(c, sigma_r)) % group_order()) - ((((pp.g0@ + c.Sigma_z_@) % group_order())
        * c.sigma_c_@) % group_order())) % group_order()
}

/// The redemption commitment `w0·H + wd·gd + wd_·gd`.
pub open spec fn commitment(pp: PublicParams, t: Token, wd_: Scalar, w0: Scalar, wd: Scalar) -> int {
    (w0@ * t.H@ + wd@ * pp.gd@ + wd_@ * pp.gd@) % group_order()
}

impl Client {
    pub open spec fn wf(&self) -> bool {
        &&& self.pp.wf()
        &&& self.sk_c.wf()
        &&& self.pk_c.wf()
        &&& self.pi.wf()
        &&& self.H.wf()
        &&& self.alpha.wf()
        &&& self.beta2.wf()
        &&& self.sigma_c_.wf()
        &&& self.Sigma_z_.wf()
        &&& self.Sigma_a_.wf()
        &&& self.Sigma_b_.wf()
        &&& self.wd_.wf()
        &&& self.w0.wf()
        &&& self.wd.wf()
    }

    /// A client with its keys and attribute `pi`; `st` fills the ephemeral scalars
    /// and `g0` the ephemeral points until a session computes them.
    pub fn new(pp: &PublicParams, sk_c: Scalar, pk_c: Point, pi: Scalar, st: Scalar) -> (r: Client)
        ensures
            r == (Client {
                pp: *pp,
                sk_c,
                pk_c,
                pi,
                H: pp.g0,
                alpha: st,
                beta2: st,
                sigma_c_: st,
                Sigma_z_: pp.g0,
                Sigma_a_: pp.g0,
                Sigma_b_: pp.g0,
                wd_: st,
                w0: st,
                wd: st,
            }),
    {
        Client {
            pp: *pp,
            sk_c,
            pk_c,
            pi,
            H: pp.g0,
            alpha: st,
            beta2: st,
            sigma_c_: st,
            Sigma_z_: pp.g0,
            Sigma_a_: pp.g0,
            Sigma_b_: pp.g0,
            wd_: st,
            w0: st,
            wd: st,
        }
    }

    /// Draws fresh blinding values and answers the server's first message with the
    /// blinded challenge.
    #[allow(non_snake_case)]
    pub fn client_query(
        &mut self,
        rng: &mut ThreadRng,
        pp: &PublicParams,
        Y: Point,
        init_message: &InitMessage,
    ) -> (r: Scalar)
        requires
            old(self).wf(),
            pp.wf(),
            Y.wf(),
            init_message.wf(),
        ensures
            exists|beta1: Scalar| beta1.wf() && queried(*old(self), *final(self), *pp, Y, *init_message, beta1, r),
    {
        let alpha = Scalar::random(rng);
        let beta1 = Scalar::random(rng);
        let beta2 = Scalar::random(rng);
        self.client_query_with(pp, Y, init_message, alpha, beta1, beta2)
    }

    /// Answers the server's first message with the blinded challenge, for the
    /// blinding values `alpha`, `beta1` and `beta2`; keeps what the final step needs.
    #[allow(non_snake_case)]
    pub fn client_query_with(
        &mut self,
        pp: &PublicParams,
        Y: Point,
        init_message: &InitMessage,
        alpha: Scalar,
        beta1: Scalar,
        beta2: Scalar,
    ) -> (r: Scalar)
        requires
            old(self).wf(),
            pp.wf(),
            Y.wf(),
            init_message.wf(),
            alpha.wf(),
            beta1.wf(),
            beta2.wf(),
        ensures
            queried(*old(self), *final(self), *pp, Y, *init_message, beta1, r),
            final(self).alpha == alpha,
            final(self).beta2 == beta2,
    {
        self.alpha = alpha;
        self.beta2 = beta2;
        let h = pp.gxt.sum(&self.pk_c).scale(&alpha);
        self.H = h;
        let sigma_z_ = init_message.Sigma_z.scale(&alpha);
        let sigma_a_ = Point::multiscalar_mul([beta1, beta2, Scalar::one()], [pp.g0, Y, init_message.Sigma_a]);
        let sigma_b_ = Point::multiscalar_mul([beta1, beta2, alpha], [sigma_z_, h, init_message.Sigma_b]);
        self.Sigma_z_ = sigma_z_;
        self.Sigma_a_ = sigma_a_;
        self.Sigma_b_ = sigma_b_;
        let mut parts: Vec<[u8; 32]> = Vec::new();
        parts.push(h.to_bytes());
        parts.push(self.pi.to_bytes());
        parts.push(sigma_z_.to_bytes());
        parts.push(sigma_a_.to_bytes());
        parts.push(sigma_b_.to_bytes());
        assert(part_views(parts@) =~= seq![h.enc@, self.pi.bytes@, sigma_z_.enc@, sigma_a_.enc@, sigma_b_.enc@]);
        let sigma_c_ = fiat_shamir_hash(&parts);
        self.sigma_c_ = sigma_c_;
        sigma_c_.sum(&beta1)
    }

    /// De-blinds the server's response and checks it; on success gives the token and
    /// the witness, otherwise nothing.
    #[allow(non_snake_case)]
    pub fn client_final(&mut self, pp: &PublicParams, Y: Point, sigma_r: Scalar) -> (r: Option<(Token, Witness)>)
        requires
            old(self).wf(),
            pp.wf(),
            Y.wf(),
            sigma_r.wf(),
        ensures
            *final(self) == *old(self),
            r.is_some() == issuance_accepted(*old(self), *pp, Y, sigma_r),
            r.is_some() ==> r.unwrap().0 == (Token {
                H: old(self).H,
                pi: old(self).pi,
                Sigma_z_: old(self).Sigma_z_,
                sigma_c_: old(self).sigma_c_,
                sigma_r_: r.unwrap().0.sigma_r_,
            }),
            r.is_some() ==> r.unwrap().0.sigma_r_@ == deblinded(*old(self), sigma_r),
            r.is_some() ==> r.unwrap().0.wf(),
            r.is_some() ==> r.unwrap().1 == (Witness { alpha: old(self).alpha }),
    {
        let sigma_r_ = sigma_r.sum(&self.beta2);
        let left = self.Sigma_a_.sum(&self.Sigma_b_);
        let right = self.H.sum(&Y).scale(&sigma_r_).difference(&pp.g0.sum(&self.Sigma_z_).scale(&self.sigma_c_));
        if !left.equals(&right) {
            return None;
        }
        Some((
            Token { H: self.H, pi: self.pi, Sigma_z_: self.Sigma_z_, sigma_c_: self.sigma_c_, sigma_r_ },
            Witness { alpha: self.alpha },
        ))
    }

    /// Draws fresh commitment values and presents the token with its commitment.
    pub fn client_prove_redemption1(
        &mut self,
        rng: &mut ThreadRng,
        pp: &PublicParams,
        token: &Token,
    ) -> (r: RedemptionProof1)
        requires
            old(self).wf(),
            pp.wf(),
            token.wf(),
        ensures
            *final(self) == (Client {
                wd_: final(self).wd_,
                w0: final(self).w0,
                wd: final(self).wd,
                ..*old(self)
            }),
            final(self).wf(),
            r.token == *token,
            r.comm@ == commitment(*pp, *token, final(self).wd_, final(self).w0, final(self).wd),
            r.wf(),
    {
        let wd_ = Scalar::random(rng);
        let w0 = Scalar::random(rng);
        let wd = Scalar::random(rng);
        self.client_prove_redemption1_with(pp, token, wd_, w0, wd)
    }

    /// Presents the token with the commitment `w0·H + wd·gd + wd_·gd`, and keeps the
    /// commitment values.
    pub fn client_prove_redemption1_with(
        &mut self,
        pp: &PublicParams,
        token: &Token,
        wd_: Scalar,
        w0: Scalar,
        wd: Scalar,
    ) -> (r: RedemptionProof1)
        requires
            old(self).wf(),
            pp.wf(),
            token.wf(),
            wd_.wf(),
            w0.wf(),
            wd.wf(),
        ensures
            *final(self) == (Client { wd_, w0, wd, ..*old(self) }),
            r.token == *token,
            r.comm@ == commitment(*pp, *token, wd_, w0, wd),
            r.wf(),
    {
        self.wd_ = wd_;
        self.w0 = w0;
        self.wd = wd;
        let comm = Point::multiscalar_mul([w0, wd, wd_], [token.H, pp.gd, pp.gd]);
        RedemptionProof1 { token: *token, comm }
    }

    /// The responses to the server's challenge `a`: with `c` derived from the token and
    /// `a`, `r0 = c·alpha⁻¹ + w0` and `rd = -c·sk_c + wd_ + wd`.
    pub fn client_prove_redemption2(&self, token: &Token, a: Scalar) -> (r: RedemptionProof2)
        requires
            self.wf(),
            token.wf(),
            a.wf(),
            self.alpha@ != 0,
        ensures
            ((r.r0@ - self.w0@) * self.alpha@) % group_order()
                == redemption_challenge(token.H.enc@, a.bytes@),
            r.rd@ == ((((-redemption_challenge(token.H.enc@, a.bytes@)) % group_order()
                * self.sk_c@) % group_order() + self.wd_@) % group_order() + self.wd@)
                % group_order(),
            r.wf(),
    {
        let c = redemption_challenge_of(&token.H, &a);
        let rd_ = c.negate().product(&self.sk_c).sum(&self.wd_);
        let inv = self.alpha.invert();
        let c_inv = c.product(&inv);
        let r0 = c_inv.sum(&self.w0);
        let rd = rd_.sum(&self.wd);
        proof {
            let al = self.alpha@;
            lemma_cong_mod(c_inv@ + self.w0@);
            lemma_cong_sub(r0@, c_inv@ + self.w0@, self.w0@, self.w0@);
            lemma_cong_mod(c@ * inv@);
            assert(cong(r0@ - self.w0@, c@ * inv@));
            lemma_cong_mul(r0@ - self.w0@, c@ * inv@, al, al);
            lemma_cong_mod(al * inv@);
            assert(cong(al * inv@, 1));
            lemma_cong_mul(c@, c@, al * inv@, 1);
            assert(c@ * inv@ * al == c@ * (al * inv@)) by (nonlinear_arith);
            vstd::arithmetic::div_mod::lemma_small_mod(c@ as nat, group_order() as nat);
        }
        RedemptionProof2 { r0, rd }
    }
}

} // verus!
