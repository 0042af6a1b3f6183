use ntat::client_u_prove::Client;
use ntat::group::{Point, Scalar};
use ntat::hash::fiat_shamir_hash;
use ntat::server_u_prove::Server;
use ntat::util_u_prove::{
    client_public_key, server_public_key, setup, setup_with, PublicParams, Token, Witness,
};
use rand::rngs::StdRng;
use rand::{Rng, SeedableRng};
use sha2::{Digest, Sha256};

fn draw_scalar(rng: &mut StdRng) -> Scalar {
    let mut b = [0u8; 64];
    rng.fill(&mut b[..]);
    let mut lo = [0u8; 32];
    lo.copy_from_slice(&b[..32]);
    Scalar::from_bytes_mod_order(lo)
}

fn draw_nonzero_scalar(rng: &mut StdRng) -> Scalar {
    loop {
        let s = draw_scalar(rng);
        if !s.is_zero() {
            return s;
        }
    }
}

fn draw_point(rng: &mut StdRng) -> Point {
    Point::mul_base(&draw_scalar(rng))
}

fn small(k: u8) -> Scalar {
    let mut b = [0u8; 32];
    b[0] = k;
    Scalar::from_bytes_mod_order(b)
}

struct Parties {
    pp: PublicParams,
    pk_s: Point,
    client: Client,
    server: Server,
    pi: Scalar,
}

fn seeded_parties(rng: &mut StdRng) -> Parties {
    let pp = setup_with(draw_point(rng), draw_point(rng), draw_point(rng), draw_scalar(rng));
    let sk_c = draw_scalar(rng);
    let pk_c = client_public_key(&pp, &sk_c);
    let sk_s = draw_nonzero_scalar(rng);
    let pk_s = server_public_key(&pp, &sk_s);
    let pi = draw_scalar(rng);
    let st = draw_scalar(rng);
    let client = Client::new(&pp, sk_c, pk_c, pi, st);
    let server = Server::new(&pp, pk_c, sk_s, pk_s, st);
    Parties { pp, pk_s, client, server, pi }
}

fn seeded_issuance(p: &mut Parties, rng: &mut StdRng) -> Option<(Token, Witness)> {
    let msg = p.server.server_initiate_with(&p.pp, draw_scalar(rng));
    let alpha = draw_nonzero_scalar(rng);
    let sigma_c = p.client.client_query_with(&p.pp, p.pk_s, &msg, alpha, draw_scalar(rng), draw_scalar(rng));
    let sigma_r = p.server.server_issue(sigma_c);
    p.client.client_final(&p.pp, p.pk_s, sigma_r)
}

fn seeded_redemption(p: &mut Parties, token: &Token, rng: &mut StdRng) -> (Option<Scalar>, bool) {
    let proof1 = p.client.client_prove_redemption1_with(&p.pp, token, draw_scalar(rng), draw_scalar(rng), draw_scalar(rng));
    let mut trng = rand::thread_rng();
    let a = p.server.server_verify_redemption1(&mut trng, &p.pp, &proof1);
    match a {
        None => (None, false),
        Some(a) => {
            let proof2 = p.client.client_prove_redemption2(token, a);
            (Some(a), p.server.server_verify_redemption2(token, &p.pp, &proof2))
        }
    }
}

fn random_parties() -> Parties {
    let mut rng = rand::thread_rng();
    let pp = setup(&mut rng);
    let sk_c = Scalar::random(&mut rng);
    let pk_c = client_public_key(&pp, &sk_c);
    let mut sk_s = Scalar::random(&mut rng);
    while sk_s.is_zero() {
        sk_s = Scalar::random(&mut rng);
    }
    let pk_s = server_public_key(&pp, &sk_s);
    let pi = Scalar::random(&mut rng);
    let st = Scalar::random(&mut rng);
    let client = Client::new(&pp, sk_c, pk_c, pi, st);
    let server = Server::new(&pp, pk_c, sk_s, pk_s, st);
    Parties { pp, pk_s, client, server, pi }
}

#[test]
fn issuance_completes_with_fresh_randomness() {
    for _ in 0..5 {
        let mut p = random_parties();
        let mut rng = rand::thread_rng();
        let msg = p.server.server_initiate(&mut rng, &p.pp);
        let sigma_c = p.client.client_query(&mut rng, &p.pp, p.pk_s, &msg);
        let sigma_r = p.server.server_issue(sigma_c);
        let out = p.client.client_final(&p.pp, p.pk_s, sigma_r);
        assert!(out.is_some());
    }
}

#[test]
fn redemption_completes_with_fresh_randomness() {
    for _ in 0..5 {
        let mut p = random_parties();
        let mut rng = rand::thread_rng();
        let msg = p.server.server_initiate(&mut rng, &p.pp);
        let sigma_c = p.client.client_query(&mut rng, &p.pp, p.pk_s, &msg);
        let sigma_r = p.server.server_issue(sigma_c);
        let (token, _witness) = p.client.client_final(&p.pp, p.pk_s, sigma_r).unwrap();
        let proof1 = p.client.client_prove_redemption1(&mut rng, &p.pp, &token);
        let a = p.server.server_verify_redemption1(&mut rng, &p.pp, &proof1);
        assert!(a.is_some());
        let proof2 = p.client.client_prove_redemption2(&token, a.unwrap());
        assert!(p.server.server_verify_redemption2(&token, &p.pp, &proof2));
    }
}

#[test]
fn end_to_end_with_fixed_seed_and_second_presentation() {
    let mut rng = StdRng::seed_from_u64(20240611);
    let mut p = seeded_parties(&mut rng);
    let (token, witness) = seeded_issuance(&mut p, &mut rng).unwrap();
    assert_eq!(token.pi, p.pi);
    assert!(!witness.alpha.is_zero());
    let (a1, ok1) = seeded_redemption(&mut p, &token, &mut rng);
    assert!(a1.is_some());
    assert!(ok1);
    let (a2, ok2) = seeded_redemption(&mut p, &token, &mut rng);
    assert!(a2.is_some());
    assert_ne!(a1, a2);
    assert!(ok2);
}

#[test]
fn flipped_challenge_bit_is_rejected() {
    let mut rng = StdRng::seed_from_u64(3);
    let mut p = seeded_parties(&mut rng);
    let (token, _) = seeded_issuance(&mut p, &mut rng).unwrap();
    for bit in [0u8, 3, 7] {
        for byte in [0usize, 5, 17, 30] {
            let mut bad = token;
            let mut b = bad.sigma_c_.to_bytes();
            b[byte] ^= 1 << bit;
            bad.sigma_c_ = match Scalar::from_canonical_bytes(b) {
                Some(s) => s,
                None => continue,
            };
            let (a, ok) = seeded_redemption(&mut p, &bad, &mut rng);
            assert!(a.is_none());
            assert!(!ok);
        }
    }
}

#[test]
fn substituted_sigma_z_is_rejected() {
    let mut rng = StdRng::seed_from_u64(4);
    let mut p = seeded_parties(&mut rng);
    let (token, _) = seeded_issuance(&mut p, &mut rng).unwrap();
    for _ in 0..5 {
        let mut bad = token;
        bad.Sigma_z_ = draw_point(&mut rng);
        let (a, _) = seeded_redemption(&mut p, &bad, &mut rng);
        assert!(a.is_none());
    }
}

#[test]
fn other_mutated_token_fields_are_rejected() {
    let mut rng = StdRng::seed_from_u64(5);
    let mut p = seeded_parties(&mut rng);
    let (token, _) = seeded_issuance(&mut p, &mut rng).unwrap();
    let mut bad = token;
    bad.pi = draw_scalar(&mut rng);
    assert!(seeded_redemption(&mut p, &bad, &mut rng).0.is_none());
    let mut bad = token;
    bad.sigma_r_ = bad.sigma_r_.sum(&small(1));
    assert!(seeded_redemption(&mut p, &bad, &mut rng).0.is_none());
    let mut bad = token;
    bad.H = draw_point(&mut rng);
    assert!(seeded_redemption(&mut p, &bad, &mut rng).0.is_none());
}

#[test]
fn issuance_under_wrong_server_key_fails() {
    let mut rng = StdRng::seed_from_u64(6);
    let mut p = seeded_parties(&mut rng);
    let msg = p.server.server_initiate_with(&p.pp, draw_scalar(&mut rng));
    let other = server_public_key(&p.pp, &draw_nonzero_scalar(&mut rng));
    let sigma_c = p.client.client_query_with(&p.pp, other, &msg, draw_nonzero_scalar(&mut rng), draw_scalar(&mut rng), draw_scalar(&mut rng));
    let sigma_r = p.server.server_issue(sigma_c);
    assert!(p.client.client_final(&p.pp, other, sigma_r).is_none());
}

#[test]
fn corrupted_issuance_response_fails() {
    let mut rng = StdRng::seed_from_u64(7);
    let mut p = seeded_parties(&mut rng);
    let msg = p.server.server_initiate_with(&p.pp, draw_scalar(&mut rng));
    let sigma_c = p.client.client_query_with(&p.pp, p.pk_s, &msg, draw_nonzero_scalar(&mut rng), draw_scalar(&mut rng), draw_scalar(&mut rng));
    let sigma_r = p.server.server_issue(sigma_c).sum(&small(1));
    assert!(p.client.client_final(&p.pp, p.pk_s, sigma_r).is_none());
}

#[test]
fn wrong_redemption_response_is_rejected() {
    let mut rng = StdRng::seed_from_u64(8);
    let mut p = seeded_parties(&mut rng);
    let (token, _) = seeded_issuance(&mut p, &mut rng).unwrap();
    let proof1 = p.client.client_prove_redemption1_with(&p.pp, &token, draw_scalar(&mut rng), draw_scalar(&mut rng), draw_scalar(&mut rng));
    let mut trng = rand::thread_rng();
    let a = p.server.server_verify_redemption1(&mut trng, &p.pp, &proof1).unwrap();
    let mut proof2 = p.client.client_prove_redemption2(&token, a);
    proof2.rd = proof2.rd.sum(&small(1));
    assert!(!p.server.server_verify_redemption2(&token, &p.pp, &proof2));
    let other_a = a.sum(&small(1));
    let proof2 = p.client.client_prove_redemption2(&token, other_a);
    assert!(!p.server.server_verify_redemption2(&token, &p.pp, &proof2));
}

#[test]
fn fiat_shamir_is_deterministic_and_input_sensitive() {
    let mut rng = StdRng::seed_from_u64(9);
    let parts: Vec<[u8; 32]> = (0..4).map(|_| rng.gen::<[u8; 32]>()).collect();
    let h1 = fiat_shamir_hash(&parts);
    let h2 = fiat_shamir_hash(&parts.clone());
    assert_eq!(h1, h2);
    for i in 0..4 {
        for j in [0usize, 13, 31] {
            let mut changed = parts.clone();
            changed[i][j] ^= 0x80;
            assert_ne!(fiat_shamir_hash(&changed), h1);
        }
    }
    let mut swapped = parts.clone();
    swapped.swap(0, 1);
    assert_ne!(fiat_shamir_hash(&swapped), h1);
}

#[test]
fn fiat_shamir_matches_sha256_of_concatenation() {
    let parts: Vec<[u8; 32]> = vec![[1u8; 32], [2u8; 32]];
    let mut data = Vec::new();
    data.extend_from_slice(&parts[0]);
    data.extend_from_slice(&parts[1]);
    let digest: [u8; 32] = Sha256::digest(&data).into();
    assert_eq!(fiat_shamir_hash(&parts), Scalar::from_bytes_mod_order(digest));
    let empty: [u8; 32] = Sha256::digest(b"").into();
    assert_eq!(empty[0], 0xe3);
    assert_eq!(fiat_shamir_hash(&Vec::new()), Scalar::from_bytes_mod_order(empty));
}

#[test]
fn inversion_gives_the_identity() {
    let mut rng = StdRng::seed_from_u64(10);
    for _ in 0..20 {
        let s = draw_nonzero_scalar(&mut rng);
        assert_eq!(s.product(&s.invert()), Scalar::one());
    }
}

#[test]
fn inversion_known_value() {
    let x = Scalar::from_bytes_mod_order([
        0x4e, 0x5a, 0xb4, 0x34, 0x5d, 0x47, 0x08, 0x84, 0x59, 0x13, 0xb4, 0x64, 0x1b, 0xc2, 0x7d, 0x52,
        0x52, 0xa5, 0x85, 0x10, 0x1b, 0xcc, 0x42, 0x44, 0xd4, 0x49, 0xf4, 0xa8, 0x79, 0xd9, 0xf2, 0x04,
    ]);
    let xinv = [
        0x1c, 0xdc, 0x17, 0xfc, 0xe0, 0xe9, 0xa5, 0xbb, 0xd9, 0x24, 0x7e, 0x56, 0xbb, 0x01, 0x63, 0x47,
        0xbb, 0xba, 0x31, 0xed, 0xd5, 0xa9, 0xbb, 0x96, 0xd5, 0x0b, 0xcd, 0x7a, 0x3f, 0x96, 0x2a, 0x0f,
    ];
    assert_eq!(x.invert().to_bytes(), xinv);
}

#[test]
fn server_public_key_times_secret_is_g0() {
    let mut rng = StdRng::seed_from_u64(11);
    for _ in 0..5 {
        let p = seeded_parties(&mut rng);
        assert!(p.pk_s.scale(&p.server.sk_s).equals(&p.pp.g0));
    }
}

#[test]
fn client_public_key_is_gd_times_secret() {
    let mut rng = StdRng::seed_from_u64(12);
    let p = seeded_parties(&mut rng);
    assert_eq!(p.client.pk_c, p.pp.gd.scale(&p.client.sk_c));
    assert_ne!(p.client.pk_c, p.pp.gd);
}

#[test]
fn scalar_arithmetic_exact_values() {
    assert_eq!(small(2).sum(&small(3)), small(5));
    assert_eq!(small(6).product(&small(7)), small(42));
    assert_eq!(small(5).negate().sum(&small(5)), small(0));
    assert!(small(0).is_zero());
    assert!(!small(1).is_zero());
    assert_eq!(Scalar::one(), small(1));
    // the group order reduces to zero
    let order: [u8; 32] = [
        0xed, 0xd3, 0xf5, 0x5c, 0x1a, 0x63, 0x12, 0x58, 0xd6, 0x9c, 0xf7, 0xa2, 0xde, 0xf9, 0xde, 0x14,
        0x00, 0x00, 0x00, 0x00, 0x00, 0x00, 0x00, 0x00, 0x00, 0x00, 0x00, 0x00, 0x00, 0x00, 0x00, 0x10,
    ];
    assert!(Scalar::from_bytes_mod_order(order).is_zero());
    assert!(Scalar::from_canonical_bytes(order).is_none());
    let mut below = order;
    below[0] -= 1;
    let m1 = Scalar::from_canonical_bytes(below).unwrap();
    assert_eq!(m1.sum(&small(1)), small(0));
    assert_eq!(small(1).negate(), m1);
}

#[test]
fn point_arithmetic_exact_values() {
    let basepoint: [u8; 32] = [
        0xe2, 0xf2, 0xae, 0x0a, 0x6a, 0xbc, 0x4e, 0x71, 0xa8, 0x84, 0xa9, 0x61, 0xc5, 0x00, 0x51, 0x5f,
        0x58, 0xe3, 0x0b, 0x6a, 0xa5, 0x82, 0xdd, 0x8d, 0xb6, 0xa6, 0x59, 0x45, 0xe0, 0x8d, 0x2d, 0x76,
    ];
    assert_eq!(Point::mul_base(&small(1)).to_bytes(), basepoint);
    assert_eq!(Point::mul_base(&small(0)).to_bytes(), [0u8; 32]);
    let b = Point::mul_base(&small(1));
    assert_eq!(b.sum(&b), Point::mul_base(&small(2)));
    assert_eq!(Point::mul_base(&small(5)).difference(&b), Point::mul_base(&small(4)));
    assert_eq!(b.scale(&small(9)), Point::mul_base(&small(9)));
    let msm = Point::multiscalar_mul([small(2), small(3), small(4)], [b, b.sum(&b), b]);
    assert_eq!(msm, Point::mul_base(&small(12)));
    assert!(b.equals(&Point::mul_base(&small(1))));
    assert!(!b.equals(&Point::mul_base(&small(2))));
}

#[test]
fn encodings_round_trip_and_malformed_are_refused() {
    let mut rng = StdRng::seed_from_u64(13);
    let p = draw_point(&mut rng);
    assert_eq!(Point::from_bytes(p.to_bytes()), Some(p));
    let s = draw_scalar(&mut rng);
    assert_eq!(Scalar::from_canonical_bytes(s.to_bytes()), Some(s));
    assert!(Point::from_bytes([0xff; 32]).is_none());
    assert!(Scalar::from_canonical_bytes([0xff; 32]).is_none());
    let mut thread = rand::thread_rng();
    let r = Point::random(&mut thread);
    assert_eq!(Point::from_bytes(r.to_bytes()), Some(r));
}

#[test]
fn setup_relation_holds() {
    let mut rng = StdRng::seed_from_u64(14);
    let g0 = draw_point(&mut rng);
    let gt = draw_point(&mut rng);
    let gd = draw_point(&mut rng);
    let pp = setup_with(g0, gt, gd, small(3));
    assert_eq!(pp.g0, g0);
    assert_eq!(pp.gd, gd);
    assert_eq!(pp.gxt, g0.sum(&gt).sum(&gt).sum(&gt));
}

#[test]
fn server_initiate_message_relations() {
    let mut rng = StdRng::seed_from_u64(15);
    let mut p = seeded_parties(&mut rng);
    let w = draw_scalar(&mut rng);
    let msg = p.server.server_initiate_with(&p.pp, w);
    let gamma = p.pp.gxt.sum(&p.server.pk_c);
    assert_eq!(msg.Sigma_z, gamma.scale(&p.server.sk_s));
    assert_eq!(msg.Sigma_a, p.pk_s.scale(&w));
    assert_eq!(msg.Sigma_b, gamma.scale(&w));
    assert_eq!(p.server.server_issue(small(2)), p.server.sk_s.product(&small(2)).sum(&w));
}
