//! Completeness of the protocols: honest parties always succeed.

use vstd::prelude::*;
use crate::client_u_prove::{Client, commitment, deblinded, issuance_accepted, queried};
use crate::group::{
    Scalar, cong, group_order, lemma_cong_add, lemma_cong_mod, lemma_cong_mul,
    lemma_cong_small, lemma_cong_sub,
};
use crate::server_u_prove::{
    Server, gamma, initiated, issue_value, redemption_right, token_valid,
};
use crate::util_u_prove::{InitMessage, PublicParams, RedemptionProof2, Token, redemption_challenge};

verus! {

/// After an honest issuance, the de-blinded response opens both blinded commitments:
/// `pk_s·sigma_r_ - g0·sigma_c_ ≡ Sigma_a_` and `H·sigma_r_ - Sigma_z_·sigma_c_ ≡ Sigma_b_`.
proof fn lemma_issuance_openings(
    pp: PublicParams,
    s0: Server,
    s1: Server,
    m: InitMessage,
    c0: Client,
    c1: Client,
    beta1: Scalar,
    sigma_c: Scalar,
    sigma_r: Scalar,
)
    requires
        pp.wf(),
        s0.wf(),
        c0.wf(),
        beta1.wf(),
        c0.pk_c == s0.pk_c,
        cong(s0.pk_s@ * s0.sk_s@, pp.g0@),
        initiated(s0, s1, pp, m),
        queried(c0, c1, pp, s0.pk_s, m, beta1, sigma_c),
        sigma_r@ == issue_value(s1.sk_s@, s1.w@, sigma_c@),
    ensures
        cong(s0.pk_s@ * deblinded(c1, sigma_r) - pp.g0@ * c1.sigma_c_@, c1.Sigma_a_@),
        cong(c1.H@ * deblinded(c1, sigma_r) - c1.Sigma_z_@ * c1.sigma_c_@, c1.Sigma_b_@),
{
    let g0 = pp.g0@;
    let y = s0.pk_s@;
    let sk = s0.sk_s@;
    let w = s1.w@;
    let gm = gamma(pp, s0.pk_c);
    let al = c1.alpha@;
    let b1 = beta1@;
    let b2 = c1.beta2@;
    let c_ = c1.sigma_c_@;
    let h = c1.H@;
    let sz_ = c1.Sigma_z_@;
    let sz = m.Sigma_z@;
    let sa = m.Sigma_a@;
    let sb = m.Sigma_b@;
    let sc = sigma_c@;
    let sr = sigma_r@;
    let sr_ = deblinded(c1, sigma_r);
    let e = c_ + b1;

    // the response, de-blinded: sr_ ≡ sk·(c_ + b1) + w + b2
    lemma_cong_mod(c_ + b1);
    lemma_cong_mul(sk, sk, sc, e);
    lemma_cong_mod(sk * sc);
    lemma_cong_add((sk * sc) % group_order(), sk * e, w, w);
    lemma_cong_mod((sk * sc) % group_order() + w);
    lemma_cong_add(sr, sk * e + w, b2, b2);
    lemma_cong_mod(sr + b2);
    assert(cong(sr_, sk * e + w + b2));

    // H·sk ≡ Sigma_z_
    lemma_cong_mod(gm * sk);
    lemma_cong_mod(sz * al);
    lemma_cong_mul(sz, gm * sk, al, al);
    lemma_cong_mod(gm * al);
    lemma_cong_mul(h, gm * al, sk, sk);
    assert(gm * al * sk == gm * sk * al) by (nonlinear_arith);
    assert(cong(h * sk, sz_));

    // al·Sigma_b ≡ H·w
    lemma_cong_mod(gm * w);
    lemma_cong_mul(al, al, sb, gm * w);
    lemma_cong_mul(h, gm * al, w, w);
    assert(al * (gm * w) == gm * al * w) by (nonlinear_arith);
    assert(cong(al * sb, h * w));

    // first opening
    lemma_cong_mul(y, y, sr_, sk * e + w + b2);
    assert(y * (sk * e + w + b2) == (y * sk) * e + y * (w + b2)) by (nonlinear_arith);
    lemma_cong_mul(y * sk, g0, e, e);
    lemma_cong_add((y * sk) * e, g0 * e, y * (w + b2), y * (w + b2));
    lemma_cong_sub(y * sr_, g0 * e + y * (w + b2), g0 * c_, g0 * c_);
    assert(g0 * e + y * (w + b2) - g0 * c_ == b1 * g0 + b2 * y + y * w) by (nonlinear_arith)
        requires
            e == c_ + b1,
    ;
    lemma_cong_mod(y * w);
    lemma_cong_add(b1 * g0 + b2 * y, b1 * g0 + b2 * y, sa, y * w);
    lemma_cong_mod(b1 * g0 + b2 * y + sa);

    // second opening
    lemma_cong_mul(h, h, sr_, sk * e + w + b2);
    assert(h * (sk * e + w + b2) == (h * sk) * e + h * w + h * b2) by (nonlinear_arith);
    lemma_cong_mul(h * sk, sz_, e, e);
    lemma_cong_add((h * sk) * e, sz_ * e, h * w + h * b2, h * w + h * b2);
    lemma_cong_sub(h * sr_, sz_ * e + h * w + h * b2, sz_ * c_, sz_ * c_);
    assert(sz_ * e + h * w + h * b2 - sz_ * c_ == b1 * sz_ + b2 * h + h * w) by (nonlinear_arith)
        requires
            e == c_ + b1,
    ;
    lemma_cong_add(b1 * sz_ + b2 * h, b1 * sz_ + b2 * h, al * sb, h * w);
    lemma_cong_mod(b1 * sz_ + b2 * h + al * sb);
}

/// Issuance is complete: for a server key pair with `pk_s·sk_s = g0`, running
/// `server_initiate`, `client_query`, `server_issue` and `client_final` in turn,
/// whatever the random values drawn, makes `client_final` accept.
pub proof fn lemma_issuance_completeness(
    pp: PublicParams,
    s0: Server,
    s1: Server,
    m: InitMessage,
    c0: Client,
    c1: Client,
    beta1: Scalar,
    sigma_c: Scalar,
    sigma_r: Scalar,
)
    requires
        pp.wf(),
        s0.wf(),
        c0.wf(),
        beta1.wf(),
        c0.pk_c == s0.pk_c,
        cong(s0.pk_s@ * s0.sk_s@, pp.g0@),
        initiated(s0, s1, pp, m),
        queried(c0, c1, pp, s0.pk_s, m, beta1, sigma_c),
        sigma_r@ == issue_value(s1.sk_s@, s1.w@, sigma_c@),
    ensures
        issuance_accepted(c1, pp, s0.pk_s, sigma_r),
{
    lemma_issuance_openings(pp, s0, s1, m, c0, c1, beta1, sigma_c, sigma_r);
    let g0 = pp.g0@;
    let y = s0.pk_s@;
    let h = c1.H@;
    let sz_ = c1.Sigma_z_@;
    let c_ = c1.sigma_c_@;
    let sr_ = deblinded(c1, sigma_r);
    let a = (h + y) % group_order();
    let b = (g0 + sz_) % group_order();
    lemma_cong_mod(h + y);
    lemma_cong_mod(g0 + sz_);
    lemma_cong_mul(a, h + y, sr_, sr_);
    lemma_cong_mul(b, g0 + sz_, c_, c_);
    lemma_cong_mod(a * sr_);
    lemma_cong_mod(b * c_);
    lemma_cong_sub((a * sr_) % group_order(), (h + y) * sr_, (b * c_) % group_order(), (g0 + sz_) * c_);
    assert((h + y) * sr_ - (g0 + sz_) * c_ == (y * sr_ - g0 * c_) + (h * sr_ - sz_ * c_))
        by (nonlinear_arith);
    lemma_cong_add(y * sr_ - g0 * c_, c1.Sigma_a_@, h * sr_ - sz_ * c_, c1.Sigma_b_@);
}

/// The first redemption step is complete: the token that an honest issuance gives
/// (as in `lemma_issuance_completeness`) carries the challenge that
/// `server_verify_redemption1` recomputes, so the server never refuses it.
pub proof fn lemma_redemption1_completeness(
    pp: PublicParams,
    s0: Server,
    s1: Server,
    m: InitMessage,
    c0: Client,
    c1: Client,
    beta1: Scalar,
    sigma_c: Scalar,
    sigma_r: Scalar,
    token: Token,
)
    requires
        pp.wf(),
        s0.wf(),
        c0.wf(),
        beta1.wf(),
        c0.pk_c == s0.pk_c,
        cong(s0.pk_s@ * s0.sk_s@, pp.g0@),
        initiated(s0, s1, pp, m),
        queried(c0, c1, pp, s0.pk_s, m, beta1, sigma_c),
        sigma_r@ == issue_value(s1.sk_s@, s1.w@, sigma_c@),
        token.H == c1.H,
        token.pi == c1.pi,
        token.Sigma_z_ == c1.Sigma_z_,
        token.sigma_c_ == c1.sigma_c_,
        token.sigma_r_@ == deblinded(c1, sigma_r),
    ensures
        token_valid(pp, s0.pk_s, token),
{
    lemma_issuance_openings(pp, s0, s1, m, c0, c1, beta1, sigma_c, sigma_r);
    let l = group_order();
    let t = token;
    let y = s0.pk_s@;
    let x1 = ((y * t.sigma_r_@) % l - (pp.g0@ * t.sigma_c_@) % l) % l;
    let x2 = ((t.H@ * t.sigma_r_@) % l - (t.Sigma_z_@ * t.sigma_c_@) % l) % l;
    lemma_cong_mod(y * t.sigma_r_@);
    lemma_cong_mod(pp.g0@ * t.sigma_c_@);
    lemma_cong_sub((y * t.sigma_r_@) % l, y * t.sigma_r_@, (pp.g0@ * t.sigma_c_@) % l, pp.g0@ * t.sigma_c_@);
    lemma_cong_mod((y * t.sigma_r_@) % l - (pp.g0@ * t.sigma_c_@) % l);
    lemma_cong_small(x1, c1.Sigma_a_@);
    lemma_cong_mod(t.H@ * t.sigma_r_@);
    lemma_cong_mod(t.Sigma_z_@ * t.sigma_c_@);
    lemma_cong_sub((t.H@ * t.sigma_r_@) % l, t.H@ * t.sigma_r_@, (t.Sigma_z_@ * t.sigma_c_@) % l, t.Sigma_z_@ * t.sigma_c_@);
    lemma_cong_mod((t.H@ * t.sigma_r_@) % l - (t.Sigma_z_@ * t.sigma_c_@) % l);
    lemma_cong_small(x2, c1.Sigma_b_@);
    assert(seq![t.H.enc@, t.pi.bytes@, t.Sigma_z_.enc@, c1.Sigma_a_.enc@, c1.Sigma_b_.enc@]
        =~= seq![c1.H.enc@, c0.pi.bytes@, c1.Sigma_z_.enc@, c1.Sigma_a_.enc@, c1.Sigma_b_.enc@]);
}

/// The second redemption step is complete: for a token issued to the client's key
/// (`H = (gxt + pk_c)·alpha` with `pk_c = gd·sk_c` and `alpha ≠ 0`), the responses of
/// `client_prove_redemption2` to the server's challenge `a` match the commitment of
/// `client_prove_redemption1`, so `server_verify_redemption2` accepts.
pub proof fn lemma_redemption2_completeness(
    pp: PublicParams,
    token: Token,
    c: Client,
    s: Server,
    a: Scalar,
    proof2: RedemptionProof2,
)
    requires
        pp.wf(),
        token.wf(),
        c.wf(),
        s.wf(),
        proof2.wf(),
        c.alpha@ != 0,
        c.pk_c@ == (pp.gd@ * c.sk_c@) % group_order(),
        token.H@ == (gamma(pp, c.pk_c) * c.alpha@) % group_order(),
        s.a == a,
        s.comm@ == commitment(pp, token, c.wd_, c.w0, c.wd),
        ((proof2.r0@ - c.w0@) * c.alpha@) % group_order()
            == redemption_challenge(token.H.enc@, a.bytes@),
        proof2.rd@ == ((((-redemption_challenge(token.H.enc@, a.bytes@)) % group_order()
            * c.sk_c@) % group_order() + c.wd_@) % group_order() + c.wd@) % group_order(),
    ensures
        s.comm@ == redemption_right(pp, token, s.a, proof2),
{
    let l = group_order();
    let ch = redemption_challenge(token.H.enc@, a.bytes@);
    let gxt = pp.gxt@;
    let gd = pp.gd@;
    let skc = c.sk_c@;
    let al = c.alpha@;
    let h = token.H@;
    let r0 = proof2.r0@;
    let rd = proof2.rd@;
    let w0 = c.w0@;
    let nc = (-ch) % l;
    let k = gxt + gd * skc;

    // H ≡ al·(gxt + gd·sk_c)
    lemma_cong_mod(gd * skc);
    lemma_cong_add(gxt, gxt, c.pk_c@, gd * skc);
    lemma_cong_mod(gxt + c.pk_c@);
    lemma_cong_mul(gamma(pp, c.pk_c), k, al, al);
    lemma_cong_mod(gamma(pp, c.pk_c) * al);
    assert(cong(h, k * al));

    // (r0 - w0)·H ≡ ch·k
    lemma_cong_mul(r0 - w0, r0 - w0, h, k * al);
    assert((r0 - w0) * (k * al) == ((r0 - w0) * al) * k) by (nonlinear_arith);
    lemma_cong_mod((r0 - w0) * al);
    lemma_cong_mul((r0 - w0) * al, ch, k, k);
    assert(cong((r0 - w0) * h, ch * k));

    // rd ≡ -ch·sk_c + wd_ + wd
    lemma_cong_mod(-ch);
    lemma_cong_mul(nc, -ch, skc, skc);
    lemma_cong_mod(nc * skc);
    lemma_cong_add((nc * skc) % l, -ch * skc, c.wd_@, c.wd_@);
    lemma_cong_mod((nc * skc) % l + c.wd_@);
    lemma_cong_add(((nc * skc) % l + c.wd_@) % l, -ch * skc + c.wd_@, c.wd@, c.wd@);
    lemma_cong_mod(((nc * skc) % l + c.wd_@) % l + c.wd@);
    assert(cong(rd, -ch * skc + c.wd_@ + c.wd@));

    // assemble the right-hand side
    lemma_cong_mul(nc, -ch, gxt, gxt);
    lemma_cong_mul(rd, -ch * skc + c.wd_@ + c.wd@, gd, gd);
    assert(r0 * h == (r0 - w0) * h + w0 * h) by (nonlinear_arith);
    lemma_cong_add((r0 - w0) * h, ch * k, w0 * h, w0 * h);
    lemma_cong_add(nc * gxt, -ch * gxt, r0 * h, ch * k + w0 * h);
    lemma_cong_add(nc * gxt + r0 * h, -ch * gxt + (ch * k + w0 * h), rd * gd, (-ch * skc + c.wd_@ + c.wd@) * gd);
    assert(-ch * gxt + (ch * k + w0 * h) + (-ch * skc + c.wd_@ + c.wd@) * gd
        == w0 * h + c.wd@ * gd + c.wd_@ * gd) by (nonlinear_arith)
        requires
            k == gxt + gd * skc,
    ;
    lemma_cong_mod(nc * gxt + r0 * h + rd * gd);
    lemma_cong_mod(w0 * h + c.wd@ * gd + c.wd_@ * gd);
    lemma_cong_small(s.comm@, redemption_right(pp, token, s.a, proof2));
}

} // verus!
