//! The token payload: claims carried by a bearer token, their canonical
//! JSON rendering, and a strict parser that accepts exactly the canonical
//! renderings. Fields are restricted to JSON-safe text (printable ASCII
//! without quote or backslash), so the rendering needs no escaping and the
//! parser inverts it exactly.

use vstd::prelude::*;

use crate::strutil::{
    find_char, has_lit_at, lemma_digits_val_take_le, lemma_find_exact, lemma_find_props,
    lemma_u64_string_val,
    parse_u64, spec_all_digits, spec_digit_val, spec_digits_val, spec_find, spec_has_at,
    spec_is_digit,
    spec_u64_string, u64_to_string,
};

verus! {

/// The signed payload of a bearer token: who is acting (`sub`), their
/// global role, the expiry instant in seconds since the epoch, and, for
/// API-key capability tokens, the project the key belongs to.
pub struct Claims {
    pub sub: String,
    pub role: String,
    pub exp: u64,
    pub project_id: Option<String>,
    pub is_api_key: bool,
}

/// The mathematical content of a `Claims` value.
pub struct ClaimsView {
    pub sub: Seq<char>,
    pub role: Seq<char>,
    pub exp: u64,
    pub project_id: Option<Seq<char>>,
    pub is_api_key: bool,
}

impl View for Claims {
    type V = ClaimsView;

    open spec fn view(&self) -> ClaimsView {
        ClaimsView {
            sub: self.sub@,
            role: self.role@,
            exp: self.exp,
            project_id: match self.project_id {
                Option::Some(p) => Option::Some(p@),
                Option::None => Option::None,
            },
            is_api_key: self.is_api_key,
        }
    }
}

/// A character that may stand in a claims field without escaping:
/// printable ASCII, neither quote nor backslash.
pub open spec fn spec_json_safe_char(c: char) -> bool {
    32 <= (c as int) < 127 && c != '"' && c != '\\'
}

/// Whether a whole field is JSON-safe.
pub open spec fn spec_json_safe(s: Seq<char>) -> bool {
    forall|i: int| 0 <= i < s.len() ==> spec_json_safe_char(#[trigger] s[i])
}

/// Well-formed claims: every text field is JSON-safe.
pub open spec fn spec_claims_wf(cv: ClaimsView) -> bool {
    &&& spec_json_safe(cv.sub)
    &&& spec_json_safe(cv.role)
    &&& match cv.project_id {
        Option::Some(p) => spec_json_safe(p),
        Option::None => true,
    }
}

/// The `project_id` segment of the canonical rendering.
pub open spec fn spec_pid_part(pid: Option<Seq<char>>) -> Seq<char> {
    match pid {
        Option::Some(p) => "\""@ + p + "\""@,
        Option::None => "null"@,
    }
}

/// The `is_api_key` segment of the canonical rendering.
pub open spec fn spec_bool_part(b: bool) -> Seq<char> {
    if b {
        "true"@
    } else {
        "false"@
    }
}

/// The canonical JSON rendering of a claims payload.
pub open spec fn spec_claims_json(cv: ClaimsView) -> Seq<char> {
    "{\"sub\":\""@ + cv.sub + "\",\"role\":\""@ + cv.role + "\",\"exp\":"@ + spec_u64_string(
        cv.exp as int,
    ) + ",\"project_id\":"@ + spec_pid_part(cv.project_id) + ",\"is_api_key\":"@ + spec_bool_part(
        cv.is_api_key,
    ) + "}"@
}

/// Reveal the literal fragments of the rendering and their lengths.
proof fn lemma_lits()
    ensures
        "{\"sub\":\""@.len() == 8,
        "\",\"role\":\""@.len() == 10,
        "\",\"exp\":"@.len() == 8,
        ",\"project_id\":"@.len() == 14,
        ",\"is_api_key\":"@.len() == 14,
        "null"@.len() == 4,
        "true"@.len() == 4,
        "false"@.len() == 5,
        "\""@.len() == 1,
        "}"@.len() == 1,
        "\",\"role\":\""@[0] == '"',
        "\",\"exp\":"@[0] == '"',
        "\""@[0] == '"',
        "}"@[0] == '}',
        "null"@[0] == 'n',
        "true"@[0] == 't',
        "false"@[0] == 'f',
{
    reveal_strlit("{\"sub\":\"");
    reveal_strlit("\",\"role\":\"");
    reveal_strlit("\",\"exp\":");
    reveal_strlit(",\"project_id\":");
    reveal_strlit(",\"is_api_key\":");
    reveal_strlit("null");
    reveal_strlit("true");
    reveal_strlit("false");
    reveal_strlit("\"");
    reveal_strlit("}");
}

/// Offset of the `sub` field in the canonical rendering.
pub open spec fn spec_o1(cv: ClaimsView) -> int {
    8
}

/// Offset of the quote closing `sub`.
pub open spec fn spec_o2(cv: ClaimsView) -> int {
    8 + cv.sub.len() as int
}

/// Offset of the `role` field.
pub open spec fn spec_o3(cv: ClaimsView) -> int {
    spec_o2(cv) + 10
}

/// Offset of the quote closing `role`.
pub open spec fn spec_o4(cv: ClaimsView) -> int {
    spec_o3(cv) + cv.role.len() as int
}

/// Offset of the `exp` digits.
pub open spec fn spec_o5(cv: ClaimsView) -> int {
    spec_o4(cv) + 8
}

/// Offset just past the `exp` digits.
pub open spec fn spec_o6(cv: ClaimsView) -> int {
    spec_o5(cv) + spec_u64_string(cv.exp as int).len() as int
}

/// Offset of the `project_id` value.
pub open spec fn spec_o7(cv: ClaimsView) -> int {
    spec_o6(cv) + 14
}

/// Offset just past the `project_id` value.
pub open spec fn spec_o8(cv: ClaimsView) -> int {
    spec_o7(cv) + spec_pid_part(cv.project_id).len() as int
}

/// Offset of the `is_api_key` value.
pub open spec fn spec_o9(cv: ClaimsView) -> int {
    spec_o8(cv) + 14
}

/// Offset of the closing brace.
pub open spec fn spec_o10(cv: ClaimsView) -> int {
    spec_o9(cv) + spec_bool_part(cv.is_api_key).len() as int
}

/// Layout of the canonical rendering: where each literal fragment and each
/// field stands, where the quote and digit-run searches land, and that the
/// whole text ends right after the closing brace.
#[verifier::rlimit(100)]
proof fn lemma_canonical_layout(s: Seq<char>, cv: ClaimsView)
    requires
        spec_claims_wf(cv),
        s == spec_claims_json(cv),
    ensures
        s.len() == spec_o10(cv) + 1,
        spec_has_at(s, "{\"sub\":\""@, 0),
        spec_find(s, '"', 8) == Option::Some(spec_o2(cv)),
        s.subrange(8, spec_o2(cv)) == cv.sub,
        spec_has_at(s, "\",\"role\":\""@, spec_o2(cv)),
        spec_find(s, '"', spec_o3(cv)) == Option::Some(spec_o4(cv)),
        s.subrange(spec_o3(cv), spec_o4(cv)) == cv.role,
        spec_has_at(s, "\",\"exp\":"@, spec_o4(cv)),
        s.subrange(spec_o5(cv), spec_o6(cv)) == spec_u64_string(cv.exp as int),
        forall|j: int| spec_o5(cv) <= j < spec_o6(cv) ==> spec_is_digit(#[trigger] s[j]),
        !spec_is_digit(s[spec_o6(cv)]),
        spec_has_at(s, ",\"project_id\":"@, spec_o6(cv)),
        cv.project_id is None ==> spec_has_at(s, "null"@, spec_o7(cv)),
        cv.project_id matches Option::Some(p) ==> s[spec_o7(cv)] == '"' && spec_find(
            s,
            '"',
            spec_o7(cv) + 1,
        ) == Option::Some(spec_o8(cv) - 1) && s.subrange(spec_o7(cv) + 1, spec_o8(cv) - 1) == p,
        spec_has_at(s, ",\"is_api_key\":"@, spec_o8(cv)),
        cv.is_api_key ==> spec_has_at(s, "true"@, spec_o9(cv)),
        !cv.is_api_key ==> spec_has_at(s, "false"@, spec_o9(cv)),
        s[spec_o10(cv)] == '}',
{
    lemma_lits();
    lemma_u64_string_val(cv.exp as int);
    reveal_strlit("{\"sub\":\"");
    reveal_strlit("\",\"role\":\"");
    reveal_strlit("\",\"exp\":");
    reveal_strlit(",\"project_id\":");
    reveal_strlit(",\"is_api_key\":");
    reveal_strlit("null");
    reveal_strlit("true");
    reveal_strlit("false");
    reveal_strlit("\"");
    reveal_strlit("}");
    let d = spec_u64_string(cv.exp as int);
    let pid = spec_pid_part(cv.project_id);
    let bp = spec_bool_part(cv.is_api_key);
    let o2 = spec_o2(cv);
    let o3 = spec_o3(cv);
    let o4 = spec_o4(cv);
    let o5 = spec_o5(cv);
    let o6 = spec_o6(cv);
    let o7 = spec_o7(cv);
    let o8 = spec_o8(cv);
    let o9 = spec_o9(cv);
    let o10 = spec_o10(cv);
    assert(s.len() == o10 + 1);
    assert(s.subrange(0, 8) =~= "{\"sub\":\""@);
    assert(s.subrange(8, o2) =~= cv.sub);
    assert(s.subrange(o2, o3) =~= "\",\"role\":\""@);
    assert(s.subrange(o3, o4) =~= cv.role);
    assert(s.subrange(o4, o5) =~= "\",\"exp\":"@);
    assert(s.subrange(o5, o6) =~= d);
    assert(s.subrange(o6, o7) =~= ",\"project_id\":"@);
    assert(s.subrange(o7, o8) =~= pid);
    assert(s.subrange(o8, o9) =~= ",\"is_api_key\":"@);
    assert(s.subrange(o9, o10) =~= bp);
    assert(s[o10] == '}');
    // The first quote search after the opening of `sub` lands on the quote
    // that closes it, since JSON-safe field text holds no quote.
    assert(s[o2] == '"');
    assert(forall|j: int| 8 <= j < o2 ==> s[j] == cv.sub[j - 8] && #[trigger] s[j] != '"');
    lemma_find_exact(s, '"', 8, o2);
    assert(s[o4] == '"');
    assert(forall|j: int| o3 <= j < o4 ==> s[j] == cv.role[j - o3] && #[trigger] s[j] != '"');
    lemma_find_exact(s, '"', o3, o4);
    // The exp digit run is exactly the canonical rendering of `exp`,
    // terminated by the comma that follows it.
    assert(forall|j: int| o5 <= j < o6 ==> s[j] == d[j - o5] && spec_is_digit(#[trigger] s[j]));
    assert(s[o6] == ',');
    assert(!spec_is_digit(s[o6]));
    match cv.project_id {
        Option::Some(p) => {
            assert(pid[0] == '"');
            assert(s[o7] == '"');
            assert(pid.len() == p.len() + 2);
            assert(pid[pid.len() - 1] == '"');
            assert(s[o8 - 1] == '"');
            assert(forall|j: int|
                o7 + 1 <= j < o8 - 1 ==> s[j] == p[j - o7 - 1] && #[trigger] s[j] != '"');
            lemma_find_exact(s, '"', o7 + 1, o8 - 1);
            assert(s.subrange(o7 + 1, o8 - 1) =~= p);
        },
        Option::None => {
            assert(s.subrange(o7, o8) =~= "null"@);
        },
    }
    assert(spec_has_at(s, "{\"sub\":\""@, 0));
    assert(spec_has_at(s, "\",\"role\":\""@, o2)) by {
        assert(s.subrange(o2, o2 + 10) =~= s.subrange(o2, o3));
    }
    assert(spec_has_at(s, "\",\"exp\":"@, o4)) by {
        assert(s.subrange(o4, o4 + 8) =~= s.subrange(o4, o5));
    }
    assert(spec_has_at(s, ",\"project_id\":"@, o6)) by {
        assert(s.subrange(o6, o6 + 14) =~= s.subrange(o6, o7));
    }
    assert(spec_has_at(s, ",\"is_api_key\":"@, o8)) by {
        assert(s.subrange(o8, o8 + 14) =~= s.subrange(o8, o9));
    }
    if cv.project_id is None {
        assert(spec_has_at(s, "null"@, o7)) by {
            assert(s.subrange(o7, o7 + 4) =~= s.subrange(o7, o8));
        }
    }
    if cv.is_api_key {
        assert(spec_has_at(s, "true"@, o9)) by {
            assert(s.subrange(o9, o9 + 4) =~= s.subrange(o9, o10));
        }
    } else {
        assert(spec_has_at(s, "false"@, o9)) by {
            assert(s.subrange(o9, o9 + 5) =~= s.subrange(o9, o10));
        }
    }
}

/// A nonempty all-digit text without a leading zero is the canonical
/// rendering of its value.
pub proof fn lemma_digits_canonical(d: Seq<char>)
    requires
        spec_all_digits(d),
        d.len() >= 1,
        d.len() > 1 ==> d[0] != '0',
    ensures
        d == spec_u64_string(spec_digits_val(d)),
    decreases d.len(),
{
    crate::strutil::lemma_digits_val_nonneg(d);
    let v = spec_digits_val(d);
    if d.len() == 1 {
        if d[0] == '0' {
            assert(d.drop_last() =~= Seq::<char>::empty());
            assert(spec_digits_val(d) == spec_digits_val(d.drop_last()) * 10 + spec_digit_val(
                d.last(),
            ));
            assert(spec_digits_val(d.drop_last()) == 0);
            assert(d.last() == '0');
            assert(spec_digit_val('0') == 0);
            assert(v == 0);
            assert(spec_u64_string(0) =~= seq!['0']);
            assert(d =~= seq!['0']);
        } else {
            assert(d.drop_last() =~= Seq::<char>::empty());
            assert(v == spec_digits_val(d.drop_last()) * 10 + (d[0] as int - 48));
            assert(1 <= v <= 9);
            assert(crate::strutil::spec_pos_string(v) == crate::strutil::spec_pos_string(
                v / 10,
            ).push(crate::strutil::spec_digit_char(v % 10)));
            assert(v / 10 == 0 && v % 10 == v);
            assert(crate::strutil::spec_pos_string(0) =~= Seq::<char>::empty());
            assert(crate::strutil::spec_pos_string(v) =~= seq![
                crate::strutil::spec_digit_char(v),
            ]);
            assert(crate::strutil::spec_digit_char(v) == d[0]);
            assert(d =~= seq![d[0]]);
        }
    } else {
        let dd = d.drop_last();
        assert(spec_all_digits(dd)) by {
            assert(forall|i: int| 0 <= i < dd.len() ==> #[trigger] dd[i] == d[i]);
        }
        lemma_digits_canonical(dd);
        crate::strutil::lemma_digits_val_nonneg(dd);
        let w = spec_digits_val(dd);
        // The leading digit is not zero, so the prefix denotes a positive
        // number and the recursion of the positive rendering applies.
        assert(dd.take(1) =~= seq![d[0]]);
        assert(seq![d[0]].drop_last() =~= Seq::<char>::empty());
        assert(spec_digits_val(seq![d[0]]) == spec_digits_val(Seq::<char>::empty()) * 10
            + spec_digit_val(d[0]));
        assert(spec_digits_val(dd.take(1)) == spec_digit_val(d[0]));
        assert(d[0] != '0' && spec_is_digit(d[0]));
        assert(('0' as int) == 48);
        assert(spec_digit_val(d[0]) >= 1);
        lemma_digits_val_take_le(dd, 1);
        assert(w >= 1);
        assert(v == w * 10 + spec_digit_val(d.last()));
        assert(0 <= spec_digit_val(d.last()) <= 9);
        assert(v / 10 == w && v % 10 == spec_digit_val(d.last())) by (nonlinear_arith)
            requires
                v == w * 10 + spec_digit_val(d.last()),
                0 <= spec_digit_val(d.last()) <= 9,
                w >= 1,
        ;
        assert(v >= 1);
        assert(spec_u64_string(v) == crate::strutil::spec_pos_string(v / 10).push(
            crate::strutil::spec_digit_char(v % 10),
        ));
        assert(spec_u64_string(w) == crate::strutil::spec_pos_string(w)) by {
            assert(w >= 1);
        }
        assert(crate::strutil::spec_digit_char(v % 10) == d.last()) by {
            assert(spec_is_digit(d.last()));
        }
        assert(spec_u64_string(v) =~= dd.push(d.last()));
        assert(dd.push(d.last()) =~= d);
    }
}

/// Check that every character of a field is JSON-safe.
pub fn is_json_safe(s: &str) -> (r: bool)
    ensures
        r == spec_json_safe(s@),
{
    let len = s.unicode_len();
    let mut i: usize = 0;
    while i < len
        invariant
            i <= len,
            len == s@.len(),
            forall|j: int| 0 <= j < i ==> spec_json_safe_char(#[trigger] s@[j]),
        decreases len - i,
    {
        let c = s.get_char(i);
        if c < ' ' || c > '~' || c == '"' || c == '\\' {
            return false;
        }
        i += 1;
    }
    true
}

/// Whether an exec claims value is well-formed.
pub fn claims_well_formed(c: &Claims) -> (r: bool)
    ensures
        r == spec_claims_wf(c@),
{
    if !is_json_safe(c.sub.as_str()) {
        return false;
    }
    if !is_json_safe(c.role.as_str()) {
        return false;
    }
    match &c.project_id {
        Some(p) => is_json_safe(p.as_str()),
        None => true,
    }
}

/// Render a claims payload canonically.
pub fn claims_to_json(c: &Claims) -> (r: String)
    ensures
        r@ == spec_claims_json(c@),
{
    let mut out = String::from_str("{\"sub\":\"");
    out.append(c.sub.as_str());
    out.append("\",\"role\":\"");
    out.append(c.role.as_str());
    out.append("\",\"exp\":");
    let digits = u64_to_string(c.exp);
    out.append(digits.as_str());
    out.append(",\"project_id\":");
    match &c.project_id {
        Some(p) => {
            out.append("\"");
            out.append(p.as_str());
            out.append("\"");
            proof {
                assert(spec_pid_part(c@.project_id) =~= "\""@ + p@ + "\""@);
            }
        },
        None => {
            out.append("null");
        },
    }
    out.append(",\"is_api_key\":");
    if c.is_api_key {
        out.append("true");
    } else {
        out.append("false");
    }
    out.append("}");
    proof {
        assert(out@ =~= spec_claims_json(c@));
    }
    out
}

/// End of the digit run starting at `from`.
fn scan_digits(s: &str, from: usize) -> (end: usize)
    requires
        from <= s@.len(),
    ensures
        from <= end <= s@.len(),
        forall|j: int| from <= j < end ==> spec_is_digit(#[trigger] s@[j]),
        end < s@.len() ==> !spec_is_digit(s@[end as int]),
{
    let len = s.unicode_len();
    let mut i: usize = from;
    while i < len
        invariant
            from <= i <= len,
            len == s@.len(),
            forall|j: int| from <= j < i ==> spec_is_digit(#[trigger] s@[j]),
        decreases len - i,
    {
        let c = s.get_char(i);
        if c < '0' || c > '9' {
            return i;
        }
        i += 1;
    }
    len
}
/// Everything the parser establishes about its input before accepting:
/// each literal fragment sits where the parser checked it, each quote and
/// digit-run search landed where recorded, and the recovered fields are the
/// corresponding pieces of the text.
pub open spec fn spec_parse_obs(
    s: Seq<char>,
    cv2: ClaimsView,
    i1: int,
    i2: int,
    d1: int,
    p1: int,
    e0: int,
) -> bool {
    &&& spec_has_at(s, "{\"sub\":\""@, 0)
    &&& spec_find(s, '"', 8) == Option::Some(i1)
    &&& cv2.sub == s.subrange(8, i1)
    &&& spec_has_at(s, "\",\"role\":\""@, i1)
    &&& spec_find(s, '"', i1 + 10) == Option::Some(i2)
    &&& cv2.role == s.subrange(i1 + 10, i2)
    &&& spec_has_at(s, "\",\"exp\":"@, i2)
    &&& i2 + 8 < d1 <= s.len()
    &&& (forall|j: int| i2 + 8 <= j < d1 ==> spec_is_digit(#[trigger] s[j]))
    &&& (d1 < s.len() ==> !spec_is_digit(s[d1]))
    &&& (d1 > i2 + 9 ==> s[i2 + 8] != '0')
    &&& cv2.exp as int == spec_digits_val(s.subrange(i2 + 8, d1))
    &&& spec_has_at(s, ",\"project_id\":"@, d1)
    &&& match cv2.project_id {
        Option::None => spec_has_at(s, "null"@, d1 + 14) && p1 == d1 + 18,
        Option::Some(p) => d1 + 14 < s.len() && s[d1 + 14] == '"' && spec_find(s, '"', d1 + 15)
            == Option::Some(p1 - 1) && p == s.subrange(d1 + 15, p1 - 1),
    }
    &&& spec_has_at(s, ",\"is_api_key\":"@, p1)
    &&& (cv2.is_api_key ==> spec_has_at(s, "true"@, p1 + 14) && e0 == p1 + 18)
    &&& (!cv2.is_api_key ==> spec_has_at(s, "false"@, p1 + 14) && e0 == p1 + 19)
    &&& spec_has_at(s, "}"@, e0)
    &&& s.len() == e0 + 1
    &&& spec_claims_wf(cv2)
}

/// What the parser observed pins the text to the canonical rendering of
/// the fields it recovered.
#[verifier::rlimit(100)]
proof fn lemma_parse_sound(
    s: Seq<char>,
    cv2: ClaimsView,
    i1: int,
    i2: int,
    d1: int,
    p1: int,
    e0: int,
)
    requires
        spec_parse_obs(s, cv2, i1, i2, d1, p1, e0),
    ensures
        s == spec_claims_json(cv2),
{
    lemma_lits();
    lemma_find_props(s, '"', 8);
    lemma_find_props(s, '"', i1 + 10);
    if cv2.project_id is Some {
        lemma_find_props(s, '"', d1 + 15);
    }
    let d0 = i2 + 8;
    let run = s.subrange(d0, d1);
    assert(spec_all_digits(run)) by {
        assert(forall|j: int| 0 <= j < run.len() ==> #[trigger] run[j] == s[d0 + j]);
    }
    assert(run.len() > 1 ==> run[0] != '0');
    lemma_digits_canonical(run);
    assert(run == spec_u64_string(cv2.exp as int));
    lemma_u64_string_val(cv2.exp as int);
    assert(spec_o2(cv2) == i1);
    assert(spec_o3(cv2) == i1 + 10);
    assert(spec_o4(cv2) == i2);
    assert(spec_o5(cv2) == d0);
    assert(spec_o6(cv2) == d1);
    assert(spec_o7(cv2) == d1 + 14);
    assert(spec_o8(cv2) == p1) by {
        lemma_lits();
        match cv2.project_id {
            Option::Some(p) => {
                assert(spec_pid_part(cv2.project_id).len() == p.len() + 2);
                assert(p.len() == p1 - 1 - (d1 + 15));
            },
            Option::None => {
                assert(spec_pid_part(cv2.project_id).len() == 4);
            },
        }
    }
    assert(spec_o9(cv2) == p1 + 14);
    assert(spec_o10(cv2) == e0) by {
        if cv2.is_api_key {
            assert(spec_bool_part(true).len() == 4);
        } else {
            assert(spec_bool_part(false).len() == 5);
        }
    }
    let t = spec_claims_json(cv2);
    assert(t.len() == e0 + 1);
    assert(s =~= t) by {
        lemma_lits();
        assert(s.subrange(0, 8) == "{\"sub\":\""@);
        assert(s.subrange(i1, i1 + 10) == "\",\"role\":\""@);
        assert(s.subrange(i2, i2 + 8) == "\",\"exp\":"@);
        assert(s.subrange(d1, d1 + 14) == ",\"project_id\":"@);
        assert(s.subrange(p1, p1 + 14) == ",\"is_api_key\":"@);
        assert(s.subrange(e0, e0 + 1) == "}"@);
        match cv2.project_id {
            Option::Some(p) => {
                assert(s.subrange(d1 + 14, p1) =~= spec_pid_part(cv2.project_id)) by {
                    assert(s[p1 - 1] == '"');
                    assert(spec_pid_part(cv2.project_id) =~= "\""@ + p + "\""@);
                }
            },
            Option::None => {
                assert(s.subrange(d1 + 14, p1) =~= spec_pid_part(cv2.project_id)) by {
                    assert(s.subrange(d1 + 14, d1 + 18) == "null"@);
                }
            },
        }
        if cv2.is_api_key {
            assert(s.subrange(p1 + 14, e0) =~= spec_bool_part(true)) by {
                assert(s.subrange(p1 + 14, p1 + 18) == "true"@);
            }
        } else {
            assert(s.subrange(p1 + 14, e0) =~= spec_bool_part(false)) by {
                assert(s.subrange(p1 + 14, p1 + 19) == "false"@);
            }
        }
    }
}

/// On a canonical rendering, what the parser observed determines the
/// claims: the recovered fields equal the rendered ones.
#[verifier::rlimit(100)]
proof fn lemma_parse_complete(
    s: Seq<char>,
    cv: ClaimsView,
    cv2: ClaimsView,
    i1: int,
    i2: int,
    d1: int,
    p1: int,
    e0: int,
)
    requires
        spec_parse_obs(s, cv2, i1, i2, d1, p1, e0),
        spec_claims_wf(cv),
        s == spec_claims_json(cv),
    ensures
        cv2 == cv,
{
    lemma_lits();
    lemma_canonical_layout(s, cv);
    lemma_u64_string_val(cv.exp as int);
    assert(i1 == spec_o2(cv));
    assert(cv2.sub =~= cv.sub);
    assert(i2 == spec_o4(cv));
    assert(cv2.role =~= cv.role);
    let d0 = i2 + 8;
    assert(d0 == spec_o5(cv));
    lemma_digit_run_end(s, cv, d1);
    assert(d1 == spec_o6(cv));
    assert(s.subrange(d0, d1) == spec_u64_string(cv.exp as int));
    assert(cv2.exp == cv.exp);
    assert(d1 + 14 == spec_o7(cv));
    match cv.project_id {
        Option::Some(p) => {
            assert(s[spec_o7(cv)] == '"');
            match cv2.project_id {
                Option::Some(q) => {
                    assert(spec_find(s, '"', d1 + 15) == Option::Some(spec_o8(cv) - 1));
                    assert(p1 == spec_o8(cv));
                    assert(q =~= p);
                },
                Option::None => {
                    // The text cannot both open a quoted value and spell
                    // `null` at the same position.
                    assert(s[d1 + 14] == 'n');
                    assert(false);
                },
            }
        },
        Option::None => {
            assert(s[spec_o7(cv)] == 'n');
            match cv2.project_id {
                Option::Some(q) => {
                    assert(s[d1 + 14] == '"');
                    assert(false);
                },
                Option::None => {
                    assert(p1 == spec_o8(cv));
                },
            }
        },
    }
    assert(p1 + 14 == spec_o9(cv));
    if cv.is_api_key {
        assert(s[spec_o9(cv)] == 't');
        if !cv2.is_api_key {
            assert(s[p1 + 14] == 'f');
            assert(false);
        }
    } else {
        assert(s[spec_o9(cv)] == 'f');
        if cv2.is_api_key {
            assert(s[p1 + 14] == 't');
            assert(false);
        }
    }
    assert(cv2 == cv) by {
        assert(cv2.sub == cv.sub && cv2.role == cv.role && cv2.exp == cv.exp && cv2.project_id
            == cv.project_id && cv2.is_api_key == cv.is_api_key);
    }
}

/// Narrow layout facts used at the parser's early rejections.
proof fn lemma_lay_head(s: Seq<char>, cv: ClaimsView)
    requires
        spec_claims_wf(cv),
        s == spec_claims_json(cv),
    ensures
        spec_has_at(s, "{\"sub\":\""@, 0),
        spec_find(s, '"', 8) == Option::Some(spec_o2(cv)),
        spec_has_at(s, "\",\"role\":\""@, spec_o2(cv)),
        spec_find(s, '"', spec_o3(cv)) == Option::Some(spec_o4(cv)),
        spec_has_at(s, "\",\"exp\":"@, spec_o4(cv)),
{
    lemma_canonical_layout(s, cv);
}

/// Narrow layout facts about the digit run and what follows it.
proof fn lemma_lay_digits(s: Seq<char>, cv: ClaimsView)
    requires
        spec_claims_wf(cv),
        s == spec_claims_json(cv),
    ensures
        forall|j: int| spec_o5(cv) <= j < spec_o6(cv) ==> spec_is_digit(#[trigger] s[j]),
        !spec_is_digit(s[spec_o6(cv)]),
        spec_o6(cv) < s.len(),
        spec_o6(cv) > spec_o5(cv),
        s.subrange(spec_o5(cv), spec_o6(cv)) == spec_u64_string(cv.exp as int),
        spec_u64_string(cv.exp as int).len() > 1 ==> s[spec_o5(cv)] != '0',
        spec_has_at(s, ",\"project_id\":"@, spec_o6(cv)),
    decreases 0int,
{
    lemma_canonical_layout(s, cv);
    lemma_u64_string_val(cv.exp as int);
    if spec_u64_string(cv.exp as int).len() > 1 {
        lemma_leading_digit(cv.exp as int);
        assert(s[spec_o5(cv)] == spec_u64_string(cv.exp as int)[0]);
    }
}

/// Narrow layout facts about the tail: project id, key flag and brace.
proof fn lemma_lay_tail(s: Seq<char>, cv: ClaimsView)
    requires
        spec_claims_wf(cv),
        s == spec_claims_json(cv),
    ensures
        cv.project_id is None ==> spec_has_at(s, "null"@, spec_o7(cv)),
        cv.project_id matches Option::Some(p) ==> spec_o7(cv) < s.len() && s[spec_o7(cv)] == '"'
            && spec_find(s, '"', spec_o7(cv) + 1) == Option::Some(spec_o8(cv) - 1),
        spec_has_at(s, ",\"is_api_key\":"@, spec_o8(cv)),
        cv.is_api_key ==> spec_has_at(s, "true"@, spec_o9(cv)),
        !cv.is_api_key ==> spec_has_at(s, "false"@, spec_o9(cv)),
        spec_has_at(s, "}"@, spec_o10(cv)),
        s.len() == spec_o10(cv) + 1,
        spec_o8(cv) == spec_o7(cv) + spec_pid_part(cv.project_id).len(),
        spec_o10(cv) == spec_o9(cv) + spec_bool_part(cv.is_api_key).len(),
{
    lemma_lits();
    lemma_canonical_layout(s, cv);
    assert(s.subrange(spec_o10(cv), spec_o10(cv) + 1) =~= "}"@);
}

/// Parse a canonical claims rendering. Accepts exactly the canonical
/// renderings of well-formed claims and recovers their fields.
#[verifier::rlimit(100)]
#[verifier::spinoff_prover]
pub fn parse_claims_json(s: &str) -> (r: Option<Claims>)
    ensures
        r matches Some(c) ==> spec_claims_wf(c@) && s@ == spec_claims_json(c@),
        forall|cv: ClaimsView|
            spec_claims_wf(cv) && s@ == spec_claims_json(cv) ==> (r matches Some(c) && c@ == cv),
{
    let len = s.unicode_len();
    proof {
        lemma_lits();
    }
    if !has_lit_at(s, "{\"sub\":\"", 0) {
        proof {
            assert forall|cv: ClaimsView|
                spec_claims_wf(cv) && s@ == spec_claims_json(cv) implies false by {
                lemma_lay_head(s@, cv);
            }
        }
        return None;
    }
    let i1 = match find_char(s, '"', 8) {
        Some(k) => k,
        None => {
            proof {
                assert forall|cv: ClaimsView|
                    spec_claims_wf(cv) && s@ == spec_claims_json(cv) implies false by {
                    lemma_lay_head(s@, cv);
                }
            }
            return None;
        },
    };
    let sub = s.substring_char(8, i1).to_owned();
    if !has_lit_at(s, "\",\"role\":\"", i1) {
        proof {
            assert forall|cv: ClaimsView|
                spec_claims_wf(cv) && s@ == spec_claims_json(cv) implies false by {
                lemma_lay_head(s@, cv);
            }
        }
        return None;
    }
    let r0 = i1 + 10;
    let i2 = match find_char(s, '"', r0) {
        Some(k) => k,
        None => {
            proof {
                assert forall|cv: ClaimsView|
                    spec_claims_wf(cv) && s@ == spec_claims_json(cv) implies false by {
                    lemma_lay_head(s@, cv);
                }
            }
            return None;
        },
    };
    let role = s.substring_char(r0, i2).to_owned();
    if !has_lit_at(s, "\",\"exp\":", i2) {
        proof {
            assert forall|cv: ClaimsView|
                spec_claims_wf(cv) && s@ == spec_claims_json(cv) implies false by {
                lemma_lay_head(s@, cv);
            }
        }
        return None;
    }
    let d0 = i2 + 8;
    let d1 = scan_digits(s, d0);
    if d1 == d0 || (d1 > d0 + 1 && s.get_char(d0) == '0') {
        proof {
            assert forall|cv: ClaimsView|
                spec_claims_wf(cv) && s@ == spec_claims_json(cv) implies false by {
                lemma_lay_head(s@, cv);
                lemma_lay_digits(s@, cv);
                lemma_digit_run_end(s@, cv, d1 as int);
            }
        }
        return None;
    }
    let exp = match parse_u64(s.substring_char(d0, d1)) {
        Some(v) => v,
        None => {
            proof {
                assert forall|cv: ClaimsView|
                    spec_claims_wf(cv) && s@ == spec_claims_json(cv) implies false by {
                    lemma_lay_head(s@, cv);
                    lemma_lay_digits(s@, cv);
                    lemma_digit_run_end(s@, cv, d1 as int);
                    lemma_u64_string_val(cv.exp as int);
                    assert(spec_digits_val(s@.subrange(d0 as int, d1 as int)) == cv.exp as int);
                }
            }
            return None;
        },
    };
    if !has_lit_at(s, ",\"project_id\":", d1) {
        proof {
            assert forall|cv: ClaimsView|
                spec_claims_wf(cv) && s@ == spec_claims_json(cv) implies false by {
                lemma_lay_head(s@, cv);
                lemma_lay_digits(s@, cv);
                lemma_digit_run_end(s@, cv, d1 as int);
            }
        }
        return None;
    }
    let p0 = d1 + 14;
    let (project_id, p1): (Option<String>, usize) = if has_lit_at(s, "null", p0) {
        (None, p0 + 4)
    } else {
        if p0 >= len || s.get_char(p0) != '"' {
            proof {
                assert forall|cv: ClaimsView|
                    spec_claims_wf(cv) && s@ == spec_claims_json(cv) implies false by {
                    lemma_lay_head(s@, cv);
                    lemma_lay_digits(s@, cv);
                    lemma_digit_run_end(s@, cv, d1 as int);
                    lemma_lay_tail(s@, cv);
                }
            }
            return None;
        }
        let i3 = match find_char(s, '"', p0 + 1) {
            Some(k) => k,
            None => {
                proof {
                    assert forall|cv: ClaimsView|
                        spec_claims_wf(cv) && s@ == spec_claims_json(cv) implies false by {
                        lemma_lay_head(s@, cv);
                        lemma_lay_digits(s@, cv);
                        lemma_digit_run_end(s@, cv, d1 as int);
                        lemma_lay_tail(s@, cv);
                        assert(cv.project_id is Some) by {
                            if cv.project_id is None {
                                assert(s@[spec_o7(cv)] == 'n');
                            }
                        }
                    }
                }
                return None;
            },
        };
        (Some(s.substring_char(p0 + 1, i3).to_owned()), i3 + 1)
    };
    if !has_lit_at(s, ",\"is_api_key\":", p1) {
        proof {
            assert forall|cv: ClaimsView|
                spec_claims_wf(cv) && s@ == spec_claims_json(cv) implies false by {
                lemma_lay_head(s@, cv);
                lemma_lay_digits(s@, cv);
                lemma_digit_run_end(s@, cv, d1 as int);
                lemma_lay_tail(s@, cv);
                if cv.project_id is None {
                    assert(s@[spec_o7(cv)] == 'n');
                } else {
                    assert(s@[spec_o7(cv)] == '"');
                }
            }
        }
        return None;
    }
    let b0 = p1 + 14;
    let (is_api_key, e0): (bool, usize) = if has_lit_at(s, "true", b0) {
        (true, b0 + 4)
    } else if has_lit_at(s, "false", b0) {
        (false, b0 + 5)
    } else {
        proof {
            assert forall|cv: ClaimsView|
                spec_claims_wf(cv) && s@ == spec_claims_json(cv) implies false by {
                lemma_lay_head(s@, cv);
                lemma_lay_digits(s@, cv);
                lemma_digit_run_end(s@, cv, d1 as int);
                lemma_lay_tail(s@, cv);
                if cv.project_id is None {
                    assert(s@[spec_o7(cv)] == 'n');
                } else {
                    assert(s@[spec_o7(cv)] == '"');
                }
            }
        }
        return None;
    };
    if !has_lit_at(s, "}", e0) || e0 + 1 != len {
        proof {
            assert forall|cv: ClaimsView|
                spec_claims_wf(cv) && s@ == spec_claims_json(cv) implies false by {
                lemma_lay_head(s@, cv);
                lemma_lay_digits(s@, cv);
                lemma_digit_run_end(s@, cv, d1 as int);
                lemma_lay_tail(s@, cv);
                if cv.project_id is None {
                    assert(s@[spec_o7(cv)] == 'n');
                } else {
                    assert(s@[spec_o7(cv)] == '"');
                }
                if cv.is_api_key {
                    assert(s@[spec_o9(cv)] == 't');
                } else {
                    assert(s@[spec_o9(cv)] == 'f');
                }
            }
        }
        return None;
    }
    if !is_json_safe(sub.as_str()) || !is_json_safe(role.as_str()) {
        proof {
            assert forall|cv: ClaimsView|
                spec_claims_wf(cv) && s@ == spec_claims_json(cv) implies false by {
                lemma_lay_head(s@, cv);
                assert(sub@ =~= cv.sub);
                assert(role@ =~= cv.role);
            }
        }
        return None;
    }
    let pid_safe = match &project_id {
        Some(p) => is_json_safe(p.as_str()),
        None => true,
    };
    if !pid_safe {
        proof {
            assert forall|cv: ClaimsView|
                spec_claims_wf(cv) && s@ == spec_claims_json(cv) implies false by {
                lemma_lay_head(s@, cv);
                lemma_lay_digits(s@, cv);
                lemma_digit_run_end(s@, cv, d1 as int);
                lemma_lay_tail(s@, cv);
                if cv.project_id is None {
                    assert(s@[spec_o7(cv)] == 'n');
                } else {
                    assert(s@[spec_o7(cv)] == '"');
                    let p = cv.project_id->Some_0;
                    assert(project_id matches Some(q) && q@ =~= p);
                }
            }
        }
        return None;
    }
    let c = Claims { sub, role, exp, project_id, is_api_key };
    proof {
        assert(spec_parse_obs(s@, c@, i1 as int, i2 as int, d1 as int, p1 as int, e0 as int));
        lemma_parse_sound(s@, c@, i1 as int, i2 as int, d1 as int, p1 as int, e0 as int);
        assert forall|cv: ClaimsView|
            spec_claims_wf(cv) && s@ == spec_claims_json(cv) implies c@ == cv by {
            lemma_parse_complete(
                s@,
                cv,
                c@,
                i1 as int,
                i2 as int,
                d1 as int,
                p1 as int,
                e0 as int,
            );
        }
    }
    Some(c)
}

/// Where the digit-run scan lands on a canonical rendering: exactly at the
/// end of the `exp` digits.
proof fn lemma_digit_run_end(s: Seq<char>, cv: ClaimsView, d1: int)
    requires
        spec_claims_wf(cv),
        s == spec_claims_json(cv),
        forall|j: int| spec_o5(cv) <= j < d1 ==> spec_is_digit(#[trigger] s[j]),
        spec_o5(cv) <= d1 <= s.len(),
        d1 < s.len() ==> !spec_is_digit(s[d1]),
    ensures
        d1 == spec_o6(cv),
{
    lemma_canonical_layout(s, cv);
    if d1 < spec_o6(cv) {
        assert(spec_is_digit(s[d1]));
    } else if spec_o6(cv) < d1 {
        assert(spec_is_digit(s[spec_o6(cv)]));
    }
}

/// The canonical rendering of a positive number does not start with zero.
proof fn lemma_leading_digit(n: int)
    requires
        n >= 1,
    ensures
        spec_u64_string(n).len() >= 1,
        spec_u64_string(n)[0] != '0',
    decreases n,
{
    lemma_u64_string_val(n);
    if n < 10 {
        assert(crate::strutil::spec_pos_string(n / 10) =~= Seq::<char>::empty());
        assert(crate::strutil::spec_pos_string(n) =~= seq![crate::strutil::spec_digit_char(n)]);
        assert(crate::strutil::spec_digit_char(n) != '0') by {
            assert(49 <= 48 + n <= 57);
        }
    } else {
        lemma_leading_digit(n / 10);
        lemma_u64_string_val(n / 10);
        assert(spec_u64_string(n / 10) == crate::strutil::spec_pos_string(n / 10));
        assert(crate::strutil::spec_pos_string(n / 10).len() >= 1);
        assert(spec_u64_string(n) == crate::strutil::spec_pos_string(n / 10).push(
            crate::strutil::spec_digit_char(n % 10),
        ));
        assert(spec_u64_string(n)[0] == crate::strutil::spec_pos_string(n / 10)[0]);
    }
}
} // verus!
