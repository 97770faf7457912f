//! Bearer tokens: signed, tamper-evident encodings of a claims payload.
//! A token is `header64 "." payload64 "." tag` where the two segments are
//! base64url text and the tag is the HMAC-SHA256 of everything before it.
//! Verifying a token checks the signature and the expiry; it authenticates
//! who is asking and implies no authorization by itself.
//!
//! Issuing and verifying are exact inverses: a token issued for well-formed
//! claims verifies to the same claims until its expiry and is rejected from
//! the expiry on. Both facts are stated in the contracts below.

use vstd::prelude::*;

use crate::b64::{
    b64_decode, b64_encode, lemma_b64_decode_canonical, lemma_b64_encode_alphabet,
    lemma_b64_round_trip, spec_b64_encode, spec_b64_val, spec_bytes_ok, spec_is_byte,
};
use crate::claims::{
    claims_well_formed, claims_to_json, parse_claims_json, spec_claims_json, spec_claims_wf,
    Claims, ClaimsView,
};
use crate::errors::AppError;
use crate::shim::{hmac_sha256_tag, new_opaque_key, spec_hmac_tag};
use crate::strutil::{
    find_char, lemma_find_exact, lemma_u64_string_val, spec_find, str_eq, u64_to_string,
};

verus! {

/// The fixed token header: the signing algorithm and the token type.
pub open spec fn spec_header() -> Seq<char> {
    "{\"typ\":\"JWT\",\"alg\":\"HS256\"}"@
}

/// The signed part of a token for a claims payload.
pub open spec fn spec_message(cv: ClaimsView) -> Seq<char> {
    spec_b64_encode(spec_header()) + "."@ + spec_b64_encode(spec_claims_json(cv))
}

/// The complete token for a claims payload under a secret.
pub open spec fn spec_token(cv: ClaimsView, secret: Seq<char>) -> Seq<char> {
    spec_message(cv) + "."@ + spec_hmac_tag(spec_message(cv), secret)
}

/// The header text consists of byte values.
proof fn lemma_header_bytes()
    ensures
        spec_bytes_ok(spec_header()),
        spec_header().len() == 27,
{
    reveal_strlit("{\"typ\":\"JWT\",\"alg\":\"HS256\"}");
    assert forall|i: int| 0 <= i < spec_header().len() implies spec_is_byte(
        #[trigger] spec_header()[i],
    ) by {
        let c = spec_header()[i];
    }
}

/// The canonical rendering of well-formed claims consists of byte values.
proof fn lemma_claims_json_bytes(cv: ClaimsView)
    requires
        spec_claims_wf(cv),
    ensures
        spec_bytes_ok(spec_claims_json(cv)),
{
    let s = spec_claims_json(cv);
    reveal_strlit("{\"sub\":\"");
    reveal_strlit("\",\"role\":\"");
    reveal_strlit("\",\"exp\":");
    reveal_strlit(",\"project_id\":");
    reveal_strlit(",\"is_api_key\":");
    reveal_strlit("null");
    reveal_strlit("true");
    reveal_strlit("false");
    reveal_strlit("\"");
    reveal_strlit("}");
    lemma_u64_string_val(cv.exp as int);
    assert forall|i: int| 0 <= i < s.len() implies spec_is_byte(#[trigger] s[i]) by {
        let l1 = "{\"sub\":\""@;
        let l2 = "\",\"role\":\""@;
        let l3 = "\",\"exp\":"@;
        let d = crate::strutil::spec_u64_string(cv.exp as int);
        let l4 = ",\"project_id\":"@;
        let pid = crate::claims::spec_pid_part(cv.project_id);
        let l5 = ",\"is_api_key\":"@;
        let bp = crate::claims::spec_bool_part(cv.is_api_key);
        let a = l1 + cv.sub + l2 + cv.role + l3 + d + l4 + pid + l5 + bp;
        assert(s == a + "}"@);
        if i < a.len() {
            let b = l1 + cv.sub + l2 + cv.role + l3 + d + l4 + pid + l5;
            if i < b.len() {
                let c2 = l1 + cv.sub + l2 + cv.role + l3 + d + l4;
                if i < c2.len() {
                    let c3 = l1 + cv.sub + l2 + cv.role + l3 + d;
                    if i < c3.len() {
                        let c4 = l1 + cv.sub + l2 + cv.role + l3;
                        if i < c4.len() {
                            let c5 = l1 + cv.sub + l2 + cv.role;
                            if i < c5.len() {
                                let c6 = l1 + cv.sub + l2;
                                if i < c6.len() {
                                    let c7 = l1 + cv.sub;
                                    if i < c7.len() {
                                        if i < l1.len() {
                                        } else {
                                            assert(crate::claims::spec_json_safe_char(
                                                cv.sub[i - l1.len()],
                                            ));
                                        }
                                    } else {
                                    }
                                } else {
                                    assert(crate::claims::spec_json_safe_char(
                                        cv.role[i - c6.len()],
                                    ));
                                }
                            } else {
                            }
                        } else {
                            assert(crate::strutil::spec_is_digit(d[i - c4.len()]));
                        }
                    } else {
                    }
                } else {
                    let c8 = l1 + cv.sub + l2 + cv.role + l3 + d + l4 + pid;
                    if i < c8.len() {
                        let j = i - c2.len();
                        assert(a[i] == pid[j]);
                        match cv.project_id {
                            Option::Some(p) => {
                                assert(pid == "\""@ + p + "\""@);
                                assert(pid.len() == 2 + p.len());
                                if j < 1 {
                                    assert(pid[j] == '"');
                                } else if j < 1 + p.len() {
                                    assert(pid[j] == p[j - 1]);
                                    assert(crate::claims::spec_json_safe_char(p[j - 1]));
                                } else {
                                    assert(j == 1 + p.len());
                                    assert(pid[j] == ("\""@ + p + "\""@)[1 + p.len() as int]);
                                    assert(pid[j] == "\""@[0]);
                                }
                            },
                            Option::None => {
                                assert(pid == "null"@);
                            },
                        }
                    } else {
                        assert(a[i] == l5[i - c8.len()]);
                    }
                }
            } else {
                if cv.is_api_key {
                    assert(bp == "true"@);
                } else {
                    assert(bp == "false"@);
                }
            }
        } else {
            assert(s[i] == '}');
        }
    }
}

/// Issue a token for a claims payload. Succeeds exactly on well-formed
/// claims and returns their complete signed token.
pub fn issue_token(claims: &Claims, secret: &String) -> (r: Result<String, AppError>)
    ensures
        r matches Ok(t) ==> spec_claims_wf(claims@) && t@ == spec_token(claims@, secret@),
        r matches Err(e) ==> !spec_claims_wf(claims@) && e matches AppError::ValidationError(_),
        spec_claims_wf(claims@) ==> r is Ok,
{
    if !claims_well_formed(claims) {
        return Err(
            AppError::ValidationError(
                String::from_str("token fields must be printable without quotes"),
            ),
        );
    }
    proof {
        lemma_header_bytes();
        lemma_claims_json_bytes(claims@);
    }
    let header = String::from_str("{\"typ\":\"JWT\",\"alg\":\"HS256\"}");
    let payload = claims_to_json(claims);
    let mut msg = b64_encode(header.as_str());
    msg.append(".");
    let p64 = b64_encode(payload.as_str());
    msg.append(p64.as_str());
    proof {
        assert(msg@ =~= spec_message(claims@));
    }
    let tag = hmac_sha256_tag(&msg, secret);
    let mut token = msg;
    token.append(".");
    token.append(tag.as_str());
    proof {
        assert(token@ =~= spec_token(claims@, secret@));
    }
    Ok(token)
}

/// Verify a bearer token against a secret and the current time.
///
/// Exactly the tokens issued under the same secret for well-formed claims
/// are accepted, and only until their expiry: a token issued for claims
/// `cv` verifies to `cv` while `now` is before `cv.exp`, and is rejected
/// from `cv.exp` on. Anything else - a reframed token, a foreign
/// signature, a non-canonical payload - is rejected. Verification
/// authenticates the caller; it grants nothing by itself.
#[verifier::rlimit(100)]
pub fn verify_token(token: &String, secret: &String, now: u64) -> (r: Result<Claims, AppError>)
    ensures
        r matches Ok(c) ==> spec_claims_wf(c@) && token@ == spec_token(c@, secret@) && now
            < c@.exp,
        r matches Err(e) ==> e matches AppError::AuthError(_),
        forall|cv: ClaimsView|
            spec_claims_wf(cv) && token@ == spec_token(cv, secret@) ==> (if now < cv.exp {
                r matches Ok(c) && c@ == cv
            } else {
                r is Err
            }),
{
    let t = token.as_str();
    let len = t.unicode_len();
    proof {
        lemma_header_bytes();
        assert forall|cv: ClaimsView|
            spec_claims_wf(cv) && token@ == spec_token(cv, secret@) implies spec_find(
            token@,
            '.',
            0,
        ) == Option::Some(spec_b64_encode(spec_header()).len() as int) && spec_find(
            token@,
            '.',
            spec_b64_encode(spec_header()).len() as int + 1,
        ) == Option::Some(spec_message(cv).len() as int) by {
            lemma_claims_json_bytes(cv);
            lemma_b64_encode_alphabet(spec_header());
            lemma_b64_encode_alphabet(spec_claims_json(cv));
            let h = spec_b64_encode(spec_header());
            let p = spec_b64_encode(spec_claims_json(cv));
            let m = spec_message(cv);
            reveal_strlit(".");
            assert("."@[0] == '.');
            assert(token@[h.len() as int] == '.');
            assert(spec_b64_val('.') == -1) by {
                reveal_strlit(".");
            }
            assert(forall|j: int| 0 <= j < h.len() ==> #[trigger] token@[j] == h[j]);
            assert(forall|j: int| 0 <= j < h.len() ==> #[trigger] token@[j] != '.');
            lemma_find_exact(token@, '.', 0, h.len() as int);
            assert(token@[m.len() as int] == '.');
            assert(forall|j: int|
                h.len() + 1 <= j < m.len() ==> #[trigger] token@[j] == p[j - h.len() - 1]);
            assert(forall|j: int| h.len() + 1 <= j < m.len() ==> #[trigger] token@[j] != '.');
            lemma_find_exact(token@, '.', h.len() as int + 1, m.len() as int);
        }
    }
    let ia = match find_char(t, '.', 0) {
        Some(k) => k,
        None => {
            return Err(AppError::AuthError(String::from_str("Invalid token: malformed")));
        },
    };
    let ib = match find_char(t, '.', ia + 1) {
        Some(k) => k,
        None => {
            return Err(AppError::AuthError(String::from_str("Invalid token: malformed")));
        },
    };
    let head = t.substring_char(0, ia);
    let p64 = t.substring_char(ia + 1, ib);
    let sig = t.substring_char(ib + 1, len);
    let msg = t.substring_char(0, ib).to_owned();
    let expected = hmac_sha256_tag(&msg, secret);
    proof {
        assert forall|cv: ClaimsView|
            spec_claims_wf(cv) && token@ == spec_token(cv, secret@) implies msg@ == spec_message(
            cv,
        ) && sig@ == spec_hmac_tag(spec_message(cv), secret@) && head@ == spec_b64_encode(
            spec_header(),
        ) && p64@ == spec_b64_encode(spec_claims_json(cv)) by {
            let h = spec_b64_encode(spec_header());
            let pp = spec_b64_encode(spec_claims_json(cv));
            let m = spec_message(cv);
            let tag = spec_hmac_tag(m, secret@);
            reveal_strlit(".");
            assert("."@.len() == 1);
            assert(m.len() == h.len() + 1 + pp.len());
            assert(token@.len() == m.len() + 1 + tag.len());
            assert(ia as int == h.len());
            assert(ib as int == m.len());
            assert(forall|j: int| 0 <= j < m.len() ==> #[trigger] token@[j] == m[j]);
            assert(forall|j: int| h.len() + 1 <= j < m.len() ==> #[trigger] m[j] == pp[j - h.len()
                - 1]);
            assert(forall|j: int|
                m.len() + 1 <= j < token@.len() ==> #[trigger] token@[j] == tag[j - m.len() - 1]);
            assert(msg@ =~= m);
            assert(head@ =~= h);
            assert(p64@ =~= pp);
            assert(sig@ =~= tag);
        }
    }
    if !str_eq(sig, expected.as_str()) {
        return Err(AppError::AuthError(String::from_str("Invalid token: bad signature")));
    }
    let header_b64 = b64_encode("{\"typ\":\"JWT\",\"alg\":\"HS256\"}");
    if !str_eq(head, header_b64.as_str()) {
        return Err(AppError::AuthError(String::from_str("Invalid token: bad header")));
    }
    let payload = match b64_decode(p64) {
        Some(s) => s,
        None => {
            proof {
                assert forall|cv: ClaimsView|
                    spec_claims_wf(cv) && token@ == spec_token(cv, secret@) implies false by {
                    lemma_claims_json_bytes(cv);
                    lemma_b64_round_trip(spec_claims_json(cv));
                }
            }
            return Err(AppError::AuthError(String::from_str("Invalid token: bad payload")));
        },
    };
    let claims = match parse_claims_json(payload.as_str()) {
        Some(c) => c,
        None => {
            proof {
                assert forall|cv: ClaimsView|
                    spec_claims_wf(cv) && token@ == spec_token(cv, secret@) implies false by {
                    lemma_claims_json_bytes(cv);
                    lemma_b64_round_trip(spec_claims_json(cv));
                    assert(payload@ == spec_claims_json(cv));
                }
            }
            return Err(AppError::AuthError(String::from_str("Invalid token: bad payload")));
        },
    };
    proof {
        lemma_b64_decode_canonical(p64@, payload@);
    }
    if now >= claims.exp {
        proof {
            assert forall|cv: ClaimsView|
                spec_claims_wf(cv) && token@ == spec_token(cv, secret@) implies now >= cv.exp by {
                lemma_claims_json_bytes(cv);
                lemma_b64_round_trip(spec_claims_json(cv));
                assert(payload@ == spec_claims_json(cv));
                assert(claims@ == cv);
            }
        }
        return Err(AppError::AuthError(String::from_str("Invalid token: expired")));
    }
    proof {
        assert(head@ == spec_b64_encode(spec_header())) by {
            assert(header_b64@ == spec_b64_encode(spec_header()));
        }
        assert(p64@ == spec_b64_encode(payload@));
        assert(payload@ == spec_claims_json(claims@));
        assert(sig@ == expected@);
        assert(expected@ == spec_hmac_tag(msg@, secret@));
        assert(token@[ia as int] == '.' && token@[ib as int] == '.');
        assert(msg@ =~= head@ + "."@ + p64@) by {
            reveal_strlit(".");
            assert(msg@ == token@.subrange(0, ib as int));
            assert(head@ == token@.subrange(0, ia as int));
            assert(p64@ == token@.subrange(ia + 1, ib as int));
        }
        assert(msg@ == spec_message(claims@));
        assert(token@ =~= spec_token(claims@, secret@)) by {
            reveal_strlit(".");
            assert(sig@ == token@.subrange(ib + 1, token@.len() as int));
        }
        assert forall|cv: ClaimsView|
            spec_claims_wf(cv) && token@ == spec_token(cv, secret@) implies claims@ == cv by {
            lemma_claims_json_bytes(cv);
            lemma_b64_round_trip(spec_claims_json(cv));
            assert(payload@ == spec_claims_json(cv));
        }
    }
    Ok(claims)
}

/// Every character of a decimal rendering is JSON-safe.
pub proof fn lemma_digits_json_safe(n: int)
    requires
        n >= 0,
    ensures
        crate::claims::spec_json_safe(crate::strutil::spec_u64_string(n)),
{
    lemma_u64_string_val(n);
    let d = crate::strutil::spec_u64_string(n);
    assert forall|i: int| 0 <= i < d.len() implies crate::claims::spec_json_safe_char(
        #[trigger] d[i],
    ) by {
        assert(crate::strutil::spec_is_digit(d[i]));
        assert(('0' as int) == 48 && ('9' as int) == 57);
        assert(('"' as int) == 34 && ('\\' as int) == 92);
    }
}

/// Generate a session token for a user: subject and role as given, expiry
/// `expiration_hours` hours past `now`, user scope.
pub fn generate_token(
    user_id: u64,
    role: &String,
    jwt_secret: &String,
    expiration_hours: u64,
    now: u64,
) -> (r: Result<String, AppError>)
    requires
        now + expiration_hours * 3600 <= u64::MAX,
    ensures
        r matches Ok(t) ==> spec_json_safe_role(role@) && t@ == spec_token(
            ClaimsView {
                sub: crate::strutil::spec_u64_string(user_id as int),
                role: role@,
                exp: (now + expiration_hours * 3600) as u64,
                project_id: Option::None,
                is_api_key: false,
            },
            jwt_secret@,
        ),
        r matches Err(e) ==> !spec_json_safe_role(role@) && e matches AppError::ValidationError(_),
        spec_json_safe_role(role@) ==> r is Ok,
{
    let exp = now + expiration_hours * 3600;
    let claims = Claims {
        sub: u64_to_string(user_id),
        role: role.clone(),
        exp,
        project_id: None,
        is_api_key: false,
    };
    proof {
        lemma_digits_json_safe(user_id as int);
    }
    issue_token(&claims, jwt_secret)
}

/// Whether a role name may stand in a token payload.
pub open spec fn spec_json_safe_role(role: Seq<char>) -> bool {
    crate::claims::spec_json_safe(role)
}

/// Generate a long-lived API-key capability token for a project: a random
/// subject, the `api_key` role and scope, expiry ten years past `now`.
pub fn generate_api_key_token(project_id: u64, jwt_secret: &String, now: u64) -> (r: Result<
    String,
    AppError,
>)
    requires
        now + 315360000 <= u64::MAX,
    ensures
        r matches Ok(t) ==> exists|sub: Seq<char>|
            crate::claims::spec_json_safe(sub) && t@ == spec_token(
                ClaimsView {
                    sub,
                    role: "api_key"@,
                    exp: (now + 315360000) as u64,
                    project_id: Option::Some(
                        crate::strutil::spec_u64_string(project_id as int),
                    ),
                    is_api_key: true,
                },
                jwt_secret@,
            ),
        r matches Err(e) ==> e matches AppError::InternalServerError(_),
{
    // Ten years of seconds; API-key tokens do not expire in practice.
    let exp = now + 315360000;
    let sub = new_opaque_key();
    if !crate::claims::is_json_safe(sub.as_str()) {
        return Err(AppError::InternalServerError(String::from_str("key generation failed")));
    }
    let claims = Claims {
        sub,
        role: String::from_str("api_key"),
        exp,
        project_id: Some(u64_to_string(project_id)),
        is_api_key: true,
    };
    proof {
        lemma_digits_json_safe(project_id as int);
        reveal_strlit("api_key");
    }
    match issue_token(&claims, jwt_secret) {
        Ok(t) => {
            proof {
                let cv = claims@;
                assert(crate::claims::spec_json_safe(cv.sub) && t@ == spec_token(
                    ClaimsView {
                        sub: cv.sub,
                        role: "api_key"@,
                        exp: (now + 315360000) as u64,
                        project_id: Option::Some(
                            crate::strutil::spec_u64_string(project_id as int),
                        ),
                        is_api_key: true,
                    },
                    jwt_secret@,
                ));
            }
            Ok(t)
        },
        Err(_) => Err(
            AppError::InternalServerError(String::from_str("token generation failed")),
        ),
    }
}

} // verus!
