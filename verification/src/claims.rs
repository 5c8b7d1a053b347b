//! The token payload: subject id, role, expiry and issue times,
//! written as one fixed-shape JSON object and read back, with the
//! round trip proved.

use vstd::prelude::*;

use crate::digits::{
    is_digit_byte, lemma_dec_digits, lemma_parse_of_dec, parse_u64_at, push_dec_i32, push_dec_u64,
    spec_dec, spec_dec_signed, spec_parse_u64_at,
};
use crate::user::UserRole;

verus! {

/// The payload of a signed token. `sub` is the user id, `exp` and
/// `iat` are unix seconds; a payload whose `exp` lies at or before
/// the present moment is invalid whatever its signature says.
#[derive(Clone, Copy, Debug, PartialEq, Eq, Structural)]
pub struct Claims {
    pub sub: i32,
    pub role: UserRole,
    pub exp: u64,
    pub iat: u64,
}

pub open spec fn sub_prefix() -> Seq<u8> {
    seq![123u8, 34, 115, 117, 98, 34, 58]
}

pub open spec fn role_prefix() -> Seq<u8> {
    seq![44u8, 34, 114, 111, 108, 101, 34, 58, 34]
}

pub open spec fn admin_bytes() -> Seq<u8> {
    seq![65u8, 100, 109, 105, 110]
}

pub open spec fn user_bytes() -> Seq<u8> {
    seq![85u8, 115, 101, 114]
}

pub open spec fn exp_prefix() -> Seq<u8> {
    seq![34u8, 44, 34, 101, 120, 112, 34, 58]
}

pub open spec fn iat_prefix() -> Seq<u8> {
    seq![44u8, 34, 105, 97, 116, 34, 58]
}

pub open spec fn role_bytes(r: UserRole) -> Seq<u8> {
    match r {
        UserRole::Admin => admin_bytes(),
        UserRole::User => user_bytes(),
    }
}

/// The payload written out: `{"sub":S,"role":"R","exp":E,"iat":I}`.
pub open spec fn spec_claims_json(c: Claims) -> Seq<u8> {
    sub_prefix() + spec_dec_signed(c.sub as int) + role_prefix() + role_bytes(c.role)
        + exp_prefix() + spec_dec(c.exp as int) + iat_prefix() + spec_dec(c.iat as int)
        + seq![125u8]
}

/// The bytes `lit` stand at position `i` of `p`.
pub open spec fn match_at(p: Seq<u8>, i: int, lit: Seq<u8>) -> bool {
    0 <= i && i + lit.len() <= p.len() && p.subrange(i, i + lit.len() as int) == lit
}

/// Reading a payload back, step by step in the order it was written;
/// `None` wherever the shape or a bound is broken.
pub open spec fn spec_parse_claims(p: Seq<u8>) -> Option<Claims> {
    if !match_at(p, 0, sub_prefix()) {
        None
    } else {
        let i0 = sub_prefix().len() as int;
        let neg = i0 < p.len() && p[i0] == 45;
        let i1 = if neg {
            i0 + 1
        } else {
            i0
        };
        match spec_parse_u64_at(p, i1) {
            None => None,
            Some((v, j)) => if neg && !(1 <= v <= 2147483648) {
                None
            } else if !neg && v > 2147483647 {
                None
            } else if !match_at(p, j, role_prefix()) {
                None
            } else {
                let subv = if neg {
                    -v
                } else {
                    v
                };
                let k = j + role_prefix().len() as int;
                let role_end = if match_at(p, k, admin_bytes()) {
                    Some((UserRole::Admin, k + admin_bytes().len() as int))
                } else if match_at(p, k, user_bytes()) {
                    Some((UserRole::User, k + user_bytes().len() as int))
                } else {
                    None
                };
                match role_end {
                    None => None,
                    Some((role, k2)) => if !match_at(p, k2, exp_prefix()) {
                        None
                    } else {
                        let k3 = k2 + exp_prefix().len() as int;
                        match spec_parse_u64_at(p, k3) {
                            None => None,
                            Some((ev, j2)) => if !match_at(p, j2, iat_prefix()) {
                                None
                            } else {
                                let k4 = j2 + iat_prefix().len() as int;
                                match spec_parse_u64_at(p, k4) {
                                    None => None,
                                    Some((iv, j3)) => if j3 + 1 == p.len() && p[j3] == 125 {
                                        Some(
                                            Claims {
                                                sub: subv as i32,
                                                role,
                                                exp: ev as u64,
                                                iat: iv as u64,
                                            },
                                        )
                                    } else {
                                        None
                                    },
                                }
                            },
                        }
                    },
                }
            },
        }
    }
}

fn sub_prefix_vec() -> (v: Vec<u8>)
    ensures
        v@ == sub_prefix(),
{
    let mut v: Vec<u8> = Vec::new();
    v.push(123);
    v.push(34);
    v.push(115);
    v.push(117);
    v.push(98);
    v.push(34);
    v.push(58);
    proof {
        assert(v@ =~= sub_prefix());
    }
    v
}

fn role_prefix_vec() -> (v: Vec<u8>)
    ensures
        v@ == role_prefix(),
{
    let mut v: Vec<u8> = Vec::new();
    v.push(44);
    v.push(34);
    v.push(114);
    v.push(111);
    v.push(108);
    v.push(101);
    v.push(34);
    v.push(58);
    v.push(34);
    proof {
        assert(v@ =~= role_prefix());
    }
    v
}

fn admin_vec() -> (v: Vec<u8>)
    ensures
        v@ == admin_bytes(),
{
    let mut v: Vec<u8> = Vec::new();
    v.push(65);
    v.push(100);
    v.push(109);
    v.push(105);
    v.push(110);
    proof {
        assert(v@ =~= admin_bytes());
    }
    v
}

fn user_vec() -> (v: Vec<u8>)
    ensures
        v@ == user_bytes(),
{
    let mut v: Vec<u8> = Vec::new();
    v.push(85);
    v.push(115);
    v.push(101);
    v.push(114);
    proof {
        assert(v@ =~= user_bytes());
    }
    v
}

fn exp_prefix_vec() -> (v: Vec<u8>)
    ensures
        v@ == exp_prefix(),
{
    let mut v: Vec<u8> = Vec::new();
    v.push(34);
    v.push(44);
    v.push(34);
    v.push(101);
    v.push(120);
    v.push(112);
    v.push(34);
    v.push(58);
    proof {
        assert(v@ =~= exp_prefix());
    }
    v
}

fn iat_prefix_vec() -> (v: Vec<u8>)
    ensures
        v@ == iat_prefix(),
{
    let mut v: Vec<u8> = Vec::new();
    v.push(44);
    v.push(34);
    v.push(105);
    v.push(97);
    v.push(116);
    v.push(34);
    v.push(58);
    proof {
        assert(v@ =~= iat_prefix());
    }
    v
}

/// Write the payload of `c` out as bytes.
pub fn claims_json(c: &Claims) -> (out: Vec<u8>)
    ensures
        out@ == spec_claims_json(*c),
{
    let mut out = sub_prefix_vec();
    push_dec_i32(&mut out, c.sub);
    let mut lit = role_prefix_vec();
    out.append(&mut lit);
    let mut role = match c.role {
        UserRole::Admin => admin_vec(),
        UserRole::User => user_vec(),
    };
    out.append(&mut role);
    let mut lit2 = exp_prefix_vec();
    out.append(&mut lit2);
    push_dec_u64(&mut out, c.exp);
    let mut lit3 = iat_prefix_vec();
    out.append(&mut lit3);
    push_dec_u64(&mut out, c.iat);
    out.push(125);
    proof {
        assert(out@ =~= spec_claims_json(*c));
    }
    out
}

/// The bytes `lit` compared against position `i` of `p`.
pub(crate) fn match_lit(p: &Vec<u8>, i: usize, lit: &Vec<u8>) -> (r: bool)
    ensures
        r == match_at(p@, i as int, lit@),
{
    let n = p.len();
    if i > n || n - i < lit.len() {
        return false;
    }
    let mut k: usize = 0;
    while k < lit.len()
        invariant
            n == p@.len(),
            i + lit@.len() <= n,
            0 <= k <= lit@.len(),
            forall|t: int| 0 <= t < k ==> p@[i + t] == lit@[t],
        decreases lit@.len() - k,
    {
        if p[i + k] != lit[k] {
            proof {
                assert(p@.subrange(i as int, i + lit@.len() as int)[k as int] == p@[i + k]);
            }
            return false;
        }
        k = k + 1;
    }
    proof {
        assert(p@.subrange(i as int, i + lit@.len() as int) =~= lit@);
    }
    true
}

/// Read a payload back exactly as `spec_parse_claims` describes it.
pub fn parse_claims(p: &Vec<u8>) -> (r: Option<Claims>)
    ensures
        r == spec_parse_claims(p@),
{
    let subp = sub_prefix_vec();
    if !match_lit(p, 0, &subp) {
        return None;
    }
    let i0: usize = 7;
    let neg = i0 < p.len() && p[i0] == 45;
    let i1 = if neg {
        i0 + 1
    } else {
        i0
    };
    proof {
        assert(sub_prefix().len() == 7);
    }
    let (v, j) = match parse_u64_at(p, i1) {
        Some(x) => x,
        None => {
            return None;
        },
    };
    if neg && !(1 <= v && v <= 2147483648) {
        return None;
    }
    if !neg && v > 2147483647 {
        return None;
    }
    let rolep = role_prefix_vec();
    if !match_lit(p, j, &rolep) {
        return None;
    }
    let sub: i32 = if neg {
        (-(v as i64)) as i32
    } else {
        v as i32
    };
    let k = j + 9;
    let adminv = admin_vec();
    let userv = user_vec();
    let (role, k2) = if match_lit(p, k, &adminv) {
        (UserRole::Admin, k + 5)
    } else if match_lit(p, k, &userv) {
        (UserRole::User, k + 4)
    } else {
        return None;
    };
    let expp = exp_prefix_vec();
    if !match_lit(p, k2, &expp) {
        return None;
    }
    let k3 = k2 + 8;
    let (ev, j2) = match parse_u64_at(p, k3) {
        Some(x) => x,
        None => {
            return None;
        },
    };
    let iatp = iat_prefix_vec();
    if !match_lit(p, j2, &iatp) {
        return None;
    }
    let k4 = j2 + 7;
    let (iv, j3) = match parse_u64_at(p, k4) {
        Some(x) => x,
        None => {
            return None;
        },
    };
    if j3 + 1 == p.len() && p[j3] == 125 {
        Some(Claims { sub, role, exp: ev, iat: iv })
    } else {
        None
    }
}

/// Reading a written payload yields the payload again.
#[verifier::rlimit(100)]
pub proof fn lemma_claims_roundtrip(c: Claims)
    ensures
        spec_parse_claims(spec_claims_json(c)) == Some(c),
{
    let p = spec_claims_json(c);
    let s1 = sub_prefix();
    let d1 = spec_dec_signed(c.sub as int);
    let s2 = role_prefix();
    let rb = role_bytes(c.role);
    let s3 = exp_prefix();
    let d2 = spec_dec(c.exp as int);
    let s4 = iat_prefix();
    let d3 = spec_dec(c.iat as int);
    let br = seq![125u8];
    assert(p == s1 + d1 + s2 + rb + s3 + d2 + s4 + d3 + br);

    let m = if c.sub < 0 {
        -(c.sub as int)
    } else {
        c.sub as int
    };
    lemma_dec_digits(m);
    lemma_dec_digits(c.exp as int);
    lemma_dec_digits(c.iat as int);

    // the subject number
    assert(match_at(p, 0, s1)) by {
        assert(p.subrange(0, s1.len() as int) =~= s1);
    }
    let i0 = s1.len() as int;
    let neg = c.sub < 0;
    let a1: Seq<u8> = if neg {
        s1 + seq![45u8]
    } else {
        s1
    };
    let b1 = s2 + rb + s3 + d2 + s4 + d3 + br;
    assert(p =~= a1 + spec_dec(m) + b1);
    assert(b1[0] == 44 && !is_digit_byte(44));
    lemma_parse_of_dec(p, a1, m, b1);
    let i1 = a1.len() as int;
    assert((i0 < p.len() && p[i0] == 45) == neg) by {
        if neg {
            assert(p[i0] == (a1 + spec_dec(m) + b1)[i0]);
            assert(a1[i0] == 45);
        } else {
            assert(p[i0] == spec_dec(m)[0]);
        }
    }
    let j = i1 + spec_dec(m).len() as int;
    assert(spec_parse_u64_at(p, i1) == Some((m, j)));
    if neg {
        assert(1 <= m <= 2147483648);
    } else {
        assert(m <= 2147483647);
    }
    let subv = if neg {
        -m
    } else {
        m
    };
    assert(subv == c.sub as int);

    // the role
    assert(match_at(p, j, s2)) by {
        assert(p.subrange(j, j + s2.len() as int) =~= s2);
    }
    let k = j + s2.len() as int;
    let k2 = k + rb.len() as int;
    assert(match_at(p, k, rb)) by {
        assert(p.subrange(k, k + rb.len() as int) =~= rb);
    }
    match c.role {
        UserRole::Admin => {
            assert(match_at(p, k, admin_bytes()));
        },
        UserRole::User => {
            assert(!match_at(p, k, admin_bytes())) by {
                if match_at(p, k, admin_bytes()) {
                    assert(p.subrange(k, k + admin_bytes().len() as int)[0] == p[k]);
                    assert(p[k] == user_bytes()[0]);
                }
            }
            assert(match_at(p, k, user_bytes()));
        },
    }

    // the expiry number
    assert(match_at(p, k2, s3)) by {
        assert(p.subrange(k2, k2 + s3.len() as int) =~= s3);
    }
    let k3 = k2 + s3.len() as int;
    let a2 = s1 + d1 + s2 + rb + s3;
    let b2 = s4 + d3 + br;
    assert(p =~= a2 + d2 + b2);
    assert(b2[0] == 44 && !is_digit_byte(44));
    assert(a2.len() == k3);
    lemma_parse_of_dec(p, a2, c.exp as int, b2);
    let j2 = k3 + d2.len() as int;
    assert(spec_parse_u64_at(p, k3) == Some((c.exp as int, j2)));

    // the issue number
    assert(match_at(p, j2, s4)) by {
        assert(p.subrange(j2, j2 + s4.len() as int) =~= s4);
    }
    let k4 = j2 + s4.len() as int;
    let a3 = s1 + d1 + s2 + rb + s3 + d2 + s4;
    assert(p =~= a3 + d3 + br);
    assert(br[0] == 125 && !is_digit_byte(125));
    assert(a3.len() == k4);
    lemma_parse_of_dec(p, a3, c.iat as int, br);
    let j3 = k4 + d3.len() as int;
    assert(spec_parse_u64_at(p, k4) == Some((c.iat as int, j3)));

    // the closing brace
    assert(j3 + 1 == p.len());
    assert(p[j3] == br[0]);
    assert(spec_parse_claims(p) == Some(
        Claims { sub: subv as i32, role: c.role, exp: c.exp, iat: c.iat },
    ));
}

} // verus!
