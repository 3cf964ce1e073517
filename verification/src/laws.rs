//! Properties of the library that span several functions or all inputs.

use vstd::prelude::*;
use crate::cli::{
    dot_count, is_token_char, jwt_marker, jwt_scan, lemma_next_marker, lemma_run_end, next_marker,
    run_end, sanitized_char, spec_chosen_code, spec_must_save, spec_sanitize, spec_saved_after,
};
use crate::client::{
    HeaderView, header_candidates, put_headers, spec_header_name_ok, spec_header_value_ok,
    spec_trace_halves, spec_trace_hex,
};
use crate::client::{is_envelope_error, spec_is_token_failure};
use crate::config::{ClientConfig, Region, spec_cloud_base, spec_openapi_base};
use crate::download::{spec_download_ok, spec_download_total};
use crate::error::CloudError;
use crate::session::{Session, spec_is_expired};
use crate::signing::{
    lemma_hex_fixed_shape, lemma_mix_injective, lemma_wrapping_add_injective,
    lemma_wrapping_mul_injective, lemma_xorshift_injective, spec_mix, spec_signature,
};
use crate::text::{
    hex_fixed, is_lower_hex, lemma_hex_fixed_injective, occurs_at, pow16, spec_is_alphanumeric,
};
use crate::cli::{mac_candidates, spec_mac_candidate, spec_normalized_address};
use crate::json::{Json, json_as_str, json_get};
use crate::model::{MediaKind, PageCursor};
use crate::payload::{
    field_str, field_u64, has_next_page, id_count, lemma_media_count, media_id_keys,
    media_of_items, media_type_keys, page_items, spec_classify, spec_parse_media,
    spec_part_of_item, total_keys, url_keys,
};
use crate::text::{
    after_last, ascii_upper_seq, contains, ends_with, is_white_space, spec_to_lowercase, spec_trim,
    trim_end, trim_start,
};
use vstd::utf8::{encode_utf8, is_ascii_chars, is_ascii_chars_encode_utf8};
use vstd::wrapping::u64_specs;

verus! {

/// The desktop skeleton configuration carries no signing material, so it
/// cannot sign.
pub proof fn law_skeleton_config_cannot_sign(c: ClientConfig, region: Region)
    requires
        c.spec_windows(region),
    ensures
        !c.spec_can_sign(),
{
}

/// A signature depends on the key material, the nonce and the timestamp
/// alone: equal inputs give equal signatures.
pub proof fn law_signature_deterministic(
    app_key: Seq<char>,
    sign_key: Seq<char>,
    nonce: Seq<char>,
    timestamp: Seq<char>,
    app_key2: Seq<char>,
    sign_key2: Seq<char>,
    nonce2: Seq<char>,
    timestamp2: Seq<char>,
)
    requires
        app_key == app_key2,
        sign_key == sign_key2,
        nonce == nonce2,
        timestamp == timestamp2,
    ensures
        spec_signature(app_key, sign_key, nonce, timestamp) == spec_signature(
            app_key2,
            sign_key2,
            nonce2,
            timestamp2,
        ),
{
}

/// A trace id is `pc` followed by 32 lowercase hexadecimal digits.
pub proof fn law_trace_id_shape(seed: u64)
    ensures
        ("pc"@ + spec_trace_hex(seed)).len() == 34,
        ("pc"@ + spec_trace_hex(seed)).take(2) == "pc"@,
        forall|i: int| 2 <= i < 34 ==> is_lower_hex(#[trigger] ("pc"@ + spec_trace_hex(seed))[i]),
{
    reveal_strlit("pc");
    let (a, b) = spec_trace_halves(seed);
    lemma_hex_fixed_shape(a as nat, 16);
    lemma_hex_fixed_shape(b as nat, 16);
    let t = "pc"@ + spec_trace_hex(seed);
    assert(t.take(2) =~= "pc"@);
    assert forall|i: int| 2 <= i < 34 implies is_lower_hex(#[trigger] t[i]) by {
        if i < 18 {
            assert(t[i] == crate::text::hex_fixed(a as nat, 16)[i - 2]);
        } else {
            assert(t[i] == crate::text::hex_fixed(b as nat, 16)[i - 18]);
        }
    }
}

/// A session without a known expiry (such as one built from a bare token)
/// is never considered expired.
pub proof fn law_unknown_expiry_never_expires(now_unix: i64)
    ensures
        !spec_is_expired(None, now_unix),
{
}

/// Once a session is expired it stays expired at every later time.
pub proof fn law_expiry_is_permanent(expires_at: Option<i64>, now1: i64, now2: i64)
    requires
        now1 <= now2,
        spec_is_expired(expires_at, now1),
    ensures
        spec_is_expired(expires_at, now2),
{
}

/// Every header that is put has a non-empty, valid value and a valid name,
/// and comes from the candidates.
pub proof fn law_headers_are_valid(c: Seq<HeaderView>, h: Seq<HeaderView>)
    requires
        put_headers(c) == Ok::<Seq<HeaderView>, Seq<char>>(h),
    ensures
        forall|k: int|
            0 <= k < h.len() ==> {
                &&& (#[trigger] h[k]).1.len() > 0
                &&& spec_header_name_ok(h[k].0)
                &&& spec_header_value_ok(h[k].1)
                &&& c.contains(h[k])
            },
    decreases c.len(),
{
    if c.len() > 0 {
        let (n, v) = c[0];
        let t = c.drop_first();
        if v.len() == 0 {
            law_headers_are_valid(t, h);
            assert forall|k: int| 0 <= k < h.len() implies c.contains(#[trigger] h[k]) by {
                let j = choose|j: int| 0 <= j < t.len() && t[j] == h[k];
                assert(c[j + 1] == h[k]);
            }
        } else {
            match put_headers(t) {
                Ok(rest) => {
                    law_headers_are_valid(t, rest);
                    assert(h =~= seq![(n, v)] + rest);
                    assert forall|k: int| 0 <= k < h.len() implies c.contains(#[trigger] h[k]) by {
                        if k == 0 {
                            assert(c[0] == h[k]);
                        } else {
                            assert(h[k] == rest[k - 1]);
                            let j = choose|j: int| 0 <= j < t.len() && t[j] == rest[k - 1];
                            assert(c[j + 1] == h[k]);
                        }
                    }
                },
                Err(_) => {},
            }
        }
    }
}

/// A candidate header with a non-empty value is among the headers put.
pub proof fn lemma_nonempty_candidate_is_put(c: Seq<HeaderView>, h: Seq<HeaderView>, j: int)
    requires
        put_headers(c) == Ok::<Seq<HeaderView>, Seq<char>>(h),
        0 <= j < c.len(),
        c[j].1.len() > 0,
    ensures
        h.contains(c[j]),
    decreases c.len(),
{
    let (n, v) = c[0];
    let t = c.drop_first();
    if v.len() == 0 {
        assert(j > 0);
        assert(t[j - 1] == c[j]);
        lemma_nonempty_candidate_is_put(t, h, j - 1);
    } else {
        match put_headers(t) {
            Ok(rest) => {
                assert(h =~= seq![(n, v)] + rest);
                if j == 0 {
                    assert(h[0] == c[j]);
                } else {
                    assert(t[j - 1] == c[j]);
                    lemma_nonempty_candidate_is_put(t, rest, j - 1);
                    let k = choose|k: int| 0 <= k < rest.len() && rest[k] == c[j];
                    assert(h[k + 1] == c[j]);
                }
            },
            Err(_) => {},
        }
    }
}

/// Authentication is the session token alone: whenever the headers of an
/// authenticated call are built, the token is sent both as
/// `Authentication` and as `X-User-Token`.
pub proof fn law_session_token_is_sent(
    cfg: ClientConfig,
    session: Session,
    seed: u64,
    h: Seq<HeaderView>,
)
    requires
        put_headers(header_candidates(cfg, Some(session), seed)) == Ok::<
            Seq<HeaderView>,
            Seq<char>,
        >(h),
        session.user_token@.len() > 0,
    ensures
        h.contains(("Authentication"@, session.user_token@)),
        h.contains(("X-User-Token"@, session.user_token@)),
{
    let c = header_candidates(cfg, Some(session), seed);
    assert(c[8] == ("Authentication"@, session.user_token@));
    assert(c[9] == ("X-User-Token"@, session.user_token@));
    lemma_nonempty_candidate_is_put(c, h, 8);
    lemma_nonempty_candidate_is_put(c, h, 9);
}

/// The account API and the cloud media API live on different hosts in every
/// region.
pub proof fn law_api_hosts_differ(r: Region)
    ensures
        spec_openapi_base(r) != spec_cloud_base(r),
{
    reveal_strlit("https://openapi-g.insta360.com");
    reveal_strlit("https://openapi.insta360.com");
    reveal_strlit("https://openapi-test.insta360.com");
    reveal_strlit("https://service-fra.insta360.com");
    reveal_strlit("https://service.insta360.com");
    reveal_strlit("https://service-test.insta360.com");
    assert(spec_openapi_base(r)[8] != spec_cloud_base(r)[8]);
}

/// A sanitized name has the length of the name, and each of its characters
/// is one the name kept or `_`; sanitizing twice changes nothing more.
pub proof fn law_sanitize_idempotent(name: Seq<char>)
    ensures
        spec_sanitize(name).len() == name.len(),
        forall|i: int|
            0 <= i < name.len() ==> (#[trigger] spec_sanitize(name)[i] == name[i]
                || spec_sanitize(name)[i] == '_'),
        spec_sanitize(spec_sanitize(name)) == spec_sanitize(name),
{
    let s = spec_sanitize(name);
    assert forall|i: int| 0 <= i < s.len() implies #[trigger] spec_sanitize(s)[i] == s[i] by {
        let c = name[i];
        assert(s[i] == sanitized_char(c, spec_is_alphanumeric(c)));
    }
    assert(spec_sanitize(s) =~= s);
}

/// Every JWT candidate found from position `i` on starts with the JWT
/// marker, consists of token characters only, and holds at least two dots.
pub proof fn lemma_jwt_scan_shape(s: Seq<char>, i: int)
    ensures
        forall|k: int|
            0 <= k < jwt_scan(s, i).len() ==> {
                let t = #[trigger] jwt_scan(s, i)[k];
                &&& t.len() >= 3
                &&& t.take(3) == jwt_marker()
                &&& forall|j: int| 0 <= j < t.len() ==> is_token_char(#[trigger] t[j])
                &&& dot_count(t) >= 2
            },
    decreases s.len() - i,
{
    if !(i < 0 || i > s.len()) {
        let p = next_marker(s, i);
        if p >= 0 {
            lemma_next_marker(s, i);
            lemma_run_end(s, p);
            let e = run_end(s, p);
            let next = if e > p {
                e
            } else {
                p + 1
            };
            let cand = s.subrange(p, e);
            lemma_jwt_scan_shape(s, next);
            assert(jwt_marker()[0] == 'e' && jwt_marker()[1] == 'y' && jwt_marker()[2] == 'J');
            assert(s.subrange(p, p + 3) == jwt_marker());
            assert(is_token_char(s[p]) && is_token_char(s[p + 1]) && is_token_char(s[p + 2])) by {
                assert(s[p] == s.subrange(p, p + 3)[0]);
                assert(s[p + 1] == s.subrange(p, p + 3)[1]);
                assert(s[p + 2] == s.subrange(p, p + 3)[2]);
            }
            if e < p + 3 {
                assert(!is_token_char(s[e]));
                assert(false);
            }
            assert(cand.take(3) =~= s.subrange(p, p + 3));
            assert forall|j: int| 0 <= j < cand.len() implies is_token_char(#[trigger] cand[j]) by {
                assert(cand[j] == s[p + j]);
            }
            let rest = jwt_scan(s, next);
            if dot_count(cand) >= 2 {
                assert(jwt_scan(s, i) == seq![cand] + rest);
                assert forall|k: int| 0 <= k < jwt_scan(s, i).len() implies {
                    let t = #[trigger] jwt_scan(s, i)[k];
                    &&& t.len() >= 3
                    &&& t.take(3) == jwt_marker()
                    &&& forall|j: int| 0 <= j < t.len() ==> is_token_char(#[trigger] t[j])
                    &&& dot_count(t) >= 2
                } by {
                    if k > 0 {
                        assert(jwt_scan(s, i)[k] == rest[k - 1]);
                    }
                }
            }
        }
    }
}

/// Every JWT candidate picked out of a text starts with `eyJ`, consists of
/// token characters only and holds at least two dots.
pub proof fn law_jwt_candidates_shape(s: Seq<char>)
    ensures
        forall|k: int|
            0 <= k < jwt_scan(s, 0).len() ==> {
                let t = #[trigger] jwt_scan(s, 0)[k];
                &&& t.len() >= 3
                &&& t.take(3) == jwt_marker()
                &&& forall|j: int| 0 <= j < t.len() ==> is_token_char(#[trigger] t[j])
                &&& dot_count(t) >= 2
            },
{
    lemma_jwt_scan_shape(s, 0);
}

/// An explicit equipment code is remembered: afterwards, a choice without
/// an explicit value reads it back without saving again, and giving the same
/// explicit value again does not save again either.
pub proof fn law_equipment_code_read_back(saved: Option<Seq<char>>, ec: Seq<char>)
    ensures
        spec_chosen_code(spec_saved_after(saved, Some(ec)), None) == Some(ec),
        !spec_must_save(spec_saved_after(saved, Some(ec)), None),
        !spec_must_save(spec_saved_after(saved, Some(ec)), Some(ec)),
        spec_chosen_code(saved, Some(ec)) == Some(ec),
{
}

/// Calls made without a session never carry a token: no header of an
/// unauthenticated call is `Authentication` or `X-User-Token`.
pub proof fn law_no_session_no_token(cfg: ClientConfig, seed: u64, h: Seq<HeaderView>)
    requires
        put_headers(header_candidates(cfg, None, seed)) == Ok::<Seq<HeaderView>, Seq<char>>(h),
    ensures
        forall|k: int|
            0 <= k < h.len() ==> (#[trigger] h[k]).0 != "Authentication"@ && h[k].0
                != "X-User-Token"@,
{
    let c = header_candidates(cfg, None, seed);
    law_headers_are_valid(c, h);
    reveal_strlit("Authentication");
    reveal_strlit("X-User-Token");
    reveal_strlit("X-APP-VERSION");
    reveal_strlit("app_traffic");
    reveal_strlit("X-Equipment-Code");
    reveal_strlit("x-insta360-platform");
    reveal_strlit("X-Language");
    reveal_strlit("X-MainLand");
    reveal_strlit("Referer");
    reveal_strlit("X-Insta360-Trace-Id");
    assert forall|k: int| 0 <= k < h.len() implies (#[trigger] h[k]).0 != "Authentication"@
        && h[k].0 != "X-User-Token"@ by {
        let j = choose|j: int| 0 <= j < c.len() && c[j] == h[k];
        assert(0 <= j < 8);
        assert(c[j].0[0] != 'A' || c[j].0.len() != 14);
        assert(c[j].0.len() != 12 || c[j].0[2] != 'U');
    }
}

/// A download resumed at byte `from` ends complete exactly when the bytes
/// that arrive after the resume point cover the rest: the declared part
/// size when known, else the length of the response; with neither known,
/// it always ends complete.
pub proof fn law_resumed_download_completes(
    part_size: u64,
    content_len: Option<u64>,
    from: u64,
    received: u64,
)
    requires
        part_size == 0 ==> match content_len {
            Some(c) => c + from <= u64::MAX,
            None => true,
        },
        from + received <= u64::MAX,
    ensures
        spec_download_ok((from + received) as u64, spec_download_total(part_size, content_len, from))
            == if part_size > 0 {
            from + received >= part_size
        } else {
            match content_len {
                Some(c) => received >= c,
                None => true,
            }
        },
{
}

/// Every failed envelope that reports an expired or rejected token (code
/// 401, or a message mentioning a token) becomes an error that `is_auth`
/// recognizes, so that the caller re-authenticates.
pub proof fn law_token_failures_are_auth(
    e: CloudError,
    code: i64,
    message: Seq<char>,
    lower_message: Seq<char>,
)
    requires
        is_envelope_error(e, code, message, lower_message),
        spec_is_token_failure(code, lower_message),
    ensures
        e is Auth,
{
}

/// Sixteen hexadecimal digits tell apart every 64-bit value.
proof fn lemma_hex16_injective(x: u64, y: u64)
    requires
        hex_fixed(x as nat, 16) == hex_fixed(y as nat, 16),
    ensures
        x == y,
{
    reveal_with_fuel(pow16, 17);
    assert(pow16(16) == 0x1_0000_0000_0000_0000);
    lemma_hex_fixed_injective(x as nat, y as nat, 16);
}

/// Nonces are unique per request: distinct seeds give distinct nonces.
pub proof fn law_nonces_differ(seed1: u64, seed2: u64)
    requires
        seed1 != seed2,
    ensures
        hex_fixed(spec_mix(seed1) as nat, 16) != hex_fixed(spec_mix(seed2) as nat, 16),
{
    if hex_fixed(spec_mix(seed1) as nat, 16) == hex_fixed(spec_mix(seed2) as nat, 16) {
        lemma_hex16_injective(spec_mix(seed1), spec_mix(seed2));
        lemma_mix_injective(seed1, seed2);
    }
}

/// The first half of a trace id determines its seed.
proof fn lemma_trace_half_injective(s1: u64, s2: u64)
    requires
        spec_trace_halves(s1).0 == spec_trace_halves(s2).0,
    ensures
        s1 == s2,
{
    let a1 = u64_specs::wrapping_add(s1, 0x9E37_79B9_7F4A_7C15);
    let a2 = u64_specs::wrapping_add(s2, 0x9E37_79B9_7F4A_7C15);
    let b1 = u64_specs::wrapping_mul(a1 ^ (a1 >> 30u64), 0xBF58_476D_1CE4_E5B9);
    let b2 = u64_specs::wrapping_mul(a2 ^ (a2 >> 30u64), 0xBF58_476D_1CE4_E5B9);
    lemma_xorshift_injective(b1, b2, 31);
    lemma_wrapping_mul_injective(
        a1 ^ (a1 >> 30u64),
        a2 ^ (a2 >> 30u64),
        0xBF58_476D_1CE4_E5B9,
        0x96DE_1B17_3F11_9089,
        8125545580553827436,
    );
    lemma_xorshift_injective(a1, a2, 30);
    lemma_wrapping_add_injective(s1, s2, 0x9E37_79B9_7F4A_7C15);
}

/// Requests with distinct trace seeds carry distinct trace ids.
pub proof fn law_trace_ids_differ(seed1: u64, seed2: u64)
    requires
        seed1 != seed2,
    ensures
        "pc"@ + spec_trace_hex(seed1) != "pc"@ + spec_trace_hex(seed2),
{
    let t1 = "pc"@ + spec_trace_hex(seed1);
    let t2 = "pc"@ + spec_trace_hex(seed2);
    if t1 == t2 {
        let (a1, b1) = spec_trace_halves(seed1);
        let (a2, b2) = spec_trace_halves(seed2);
        lemma_hex_fixed_shape(a1 as nat, 16);
        lemma_hex_fixed_shape(b1 as nat, 16);
        lemma_hex_fixed_shape(a2 as nat, 16);
        lemma_hex_fixed_shape(b2 as nat, 16);
        reveal_strlit("pc");
        assert(t1.subrange(2, 18) =~= hex_fixed(a1 as nat, 16));
        assert(t2.subrange(2, 18) =~= hex_fixed(a2 as nat, 16));
        lemma_hex16_injective(a1, a2);
        lemma_trace_half_injective(seed1, seed2);
    }
}

/// A listing with a known total continues exactly while the pages read so
/// far (`page * count` items) fall short of the total and the page held at
/// least one media item; without a total, exactly while the page was full
/// (its media count, truncated to 32 bits, equals the page size).
pub proof fn law_listing_next_page(v: Json, cursor: PageCursor)
    ensures
        ({
            let n = media_of_items(page_items(v)).len();
            match field_u64(v, total_keys()) {
                Some(t) => has_next_page(field_u64(v, total_keys()), id_count(page_items(v)), cursor)
                    == ((cursor.page as int) * (cursor.count as int) < t && n > 0),
                None => has_next_page(field_u64(v, total_keys()), id_count(page_items(v)), cursor)
                    == ((n as u32) == cursor.count),
            }
        }),
{
    lemma_media_count(page_items(v));
}

/// Whether `c` may stand in a MAC address text: a hexadecimal digit of
/// either case, or `:`.
pub open spec fn is_mac_char(c: char) -> bool {
    ||| ('0' <= c && c <= '9')
    ||| ('a' <= c && c <= 'f')
    ||| ('A' <= c && c <= 'F')
    ||| c == ':'
}

proof fn lemma_trim_start_skips(pre: Seq<char>, x: Seq<char>)
    requires
        forall|i: int| 0 <= i < pre.len() ==> is_white_space(#[trigger] pre[i]),
        x.len() == 0 || !is_white_space(x[0]),
    ensures
        trim_start(pre + x) == x,
    decreases pre.len(),
{
    if pre.len() == 0 {
        assert(pre + x =~= x);
    } else {
        assert((pre + x)[0] == pre[0]);
        assert((pre + x).drop_first() =~= pre.drop_first() + x);
        assert forall|i: int| 0 <= i < pre.drop_first().len() implies is_white_space(
            #[trigger] pre.drop_first()[i],
        ) by {
            assert(pre.drop_first()[i] == pre[i + 1]);
        }
        lemma_trim_start_skips(pre.drop_first(), x);
    }
}

proof fn lemma_trim_end_skips(x: Seq<char>, post: Seq<char>)
    requires
        forall|i: int| 0 <= i < post.len() ==> is_white_space(#[trigger] post[i]),
        x.len() == 0 || !is_white_space(x.last()),
    ensures
        trim_end(x + post) == x,
    decreases post.len(),
{
    if post.len() == 0 {
        assert(x + post =~= x);
    } else {
        assert((x + post).last() == post.last());
        assert((x + post).drop_last() =~= x + post.drop_last());
        assert forall|i: int| 0 <= i < post.drop_last().len() implies is_white_space(
            #[trigger] post.drop_last()[i],
        ) by {
            assert(post.drop_last()[i] == post[i]);
        }
        lemma_trim_end_skips(x, post.drop_last());
    }
}

proof fn lemma_candidate_listed(entries: Seq<(String, String)>, k: int, m: Seq<char>)
    requires
        0 <= k < entries.len(),
        spec_mac_candidate(entries[k].0@, spec_normalized_address(entries[k].1@)) == Some(m),
    ensures
        mac_candidates(entries).contains(m),
    decreases entries.len(),
{
    let init = mac_candidates(entries.drop_last());
    if k == entries.len() - 1 {
        assert(entries.last() == entries[k]);
        assert(mac_candidates(entries) == init.push(m));
        assert(init.push(m)[init.len() as int] == m);
    } else {
        assert(entries.drop_last()[k] == entries[k]);
        lemma_candidate_listed(entries.drop_last(), k, m);
        let j = choose|j: int| 0 <= j < init.len() && init[j] == m;
        match spec_mac_candidate(
            entries.last().0@,
            spec_normalized_address(entries.last().1@),
        ) {
            Some(x) => {
                assert(mac_candidates(entries) == init.push(x));
                assert(init.push(x)[j] == m);
            },
            None => {},
        }
    }
}

/// An interface other than the loopback whose address file holds a MAC
/// address (17 hexadecimal digits and colons, not all zero) with whitespace
/// around it, such as the file's trailing newline, yields that address,
/// uppercased and without the whitespace, as an equipment-code candidate;
/// on a host with that one interface it is the only candidate.
pub proof fn law_padded_mac_is_a_candidate(
    entries: Seq<(String, String)>,
    k: int,
    pre: Seq<char>,
    mac: Seq<char>,
    post: Seq<char>,
)
    requires
        0 <= k < entries.len(),
        entries[k].0@ != "lo"@,
        entries[k].1@ == pre + mac + post,
        forall|i: int| 0 <= i < pre.len() ==> is_white_space(#[trigger] pre[i]),
        forall|i: int| 0 <= i < post.len() ==> is_white_space(#[trigger] post[i]),
        mac.len() == 17,
        forall|i: int| 0 <= i < mac.len() ==> is_mac_char(#[trigger] mac[i]),
        ascii_upper_seq(mac) != "00:00:00:00:00:00"@,
    ensures
        spec_normalized_address(entries[k].1@) == ascii_upper_seq(mac),
        mac_candidates(entries).contains(ascii_upper_seq(mac)),
        entries.len() == 1 ==> mac_candidates(entries) == seq![ascii_upper_seq(mac)],
{
    assert(is_mac_char(mac[0]));
    assert(is_mac_char(mac[16]));
    assert(pre + mac + post =~= pre + (mac + post));
    assert((mac + post)[0] == mac[0]);
    lemma_trim_start_skips(pre, mac + post);
    assert(mac.last() == mac[16]);
    lemma_trim_end_skips(mac, post);
    assert(spec_trim(entries[k].1@) == mac);
    assert(is_ascii_chars(mac)) by {
        assert forall|i: int| 0 <= i < mac.len() implies '\0' <= #[trigger] mac[i] <= '\u{7f}' by {
            assert(is_mac_char(mac[i]));
        }
    }
    let up = ascii_upper_seq(mac);
    assert(is_ascii_chars(up)) by {
        assert forall|i: int| 0 <= i < up.len() implies '\0' <= #[trigger] up[i] <= '\u{7f}' by {
            assert(is_mac_char(mac[i]));
            assert(up[i] == crate::text::ascii_upper(mac[i]));
        }
    }
    is_ascii_chars_encode_utf8(up);
    assert(encode_utf8(up).len() == 17);
    assert(spec_mac_candidate(entries[k].0@, up) == Some(up));
    lemma_candidate_listed(entries, k, up);
    if entries.len() == 1 {
        assert(entries.drop_last() =~= Seq::<(String, String)>::empty());
        assert(entries.last() == entries[k]);
        assert(mac_candidates(entries.drop_last()).len() == 0);
        assert(mac_candidates(entries) =~= seq![up]);
    }
}

/// A parts-list element that carries a URL and a string `name` (and no
/// string `fileName` or `file_name`) becomes a part with that name and URL;
/// one with no string name at all is named after the URL's last path
/// segment.
pub proof fn law_part_takes_its_name(it: Json, url: Seq<char>)
    requires
        field_str(it, url_keys()) == Some(url),
        field_str(it, seq!["fileName"@, "file_name"@]) is None,
    ensures
        (json_get(it, "name"@) matches Some(x) && json_as_str(x) is Some) ==> (
        spec_part_of_item(it) matches Some(p) && p.url == url && Some(p.file_name) == json_as_str(
            json_get(it, "name"@)->0,
        )),
        (json_get(it, "name"@) matches Some(x) ==> json_as_str(x) is None) ==> (spec_part_of_item(
            it,
        ) matches Some(p) && p.url == url && p.file_name == after_last(url, '/')),
{
    let ks = seq!["fileName"@, "file_name"@, "name"@];
    let k1 = ks.drop_first();
    let k2 = k1.drop_first();
    assert(k1 =~= seq!["file_name"@, "name"@]);
    assert(k2 =~= seq!["name"@]);
    assert(k2.drop_first() =~= Seq::<Seq<char>>::empty());
    let two = seq!["fileName"@, "file_name"@];
    let t1 = two.drop_first();
    assert(t1 =~= seq!["file_name"@]);
    assert(t1.drop_first() =~= Seq::<Seq<char>>::empty());
    assert(field_str(it, t1.drop_first()) is None);
    assert(field_str(it, k2.drop_first()) is None);
    assert(field_str(it, two) == field_str(it, t1));
    assert(field_str(it, k1) == field_str(it, k2));
    assert(field_str(it, ks) == field_str(it, k1));
    assert(crate::payload::part_name_keys() == ks);
}

/// A media object with an id and a string `mediaName` is parsed with that
/// name, and its kind is classified from that name (and the media type),
/// not from its id: a name ending in `.insv` in any case is 360 footage.
pub proof fn law_media_takes_its_name(v: Json, id: Seq<char>, n: Seq<char>)
    requires
        field_str(v, media_id_keys()) == Some(id),
        json_get(v, "mediaName"@) matches Some(x) && json_as_str(x) == Some(n),
    ensures
        spec_parse_media(v) matches Some(m) && m.id == id && m.name == n && m.kind == spec_classify(
            field_str(v, media_type_keys()),
            spec_to_lowercase(n),
        ),
        ends_with(spec_to_lowercase(n), ".insv"@) ==> spec_parse_media(v)->0.kind
            == MediaKind::Insv360,
{
    assert(crate::payload::media_name_keys()[0] == "mediaName"@);
}

/// The kind of a media item: the file extension (compared on the lowercased
/// name) decides first — `.insv` is 360 footage; `.insp`, `.jpg`, `.dng`
/// are photos; `.mp4` is flat video — and only a name with none of these
/// extensions falls back to the media type: one mentioning `photo` or
/// `image` is a photo, else one mentioning `video` is flat video, else the
/// kind is unknown.
pub proof fn law_classify(media_type: Option<Seq<char>>, lower: Seq<char>)
    ensures
        ends_with(lower, ".insv"@) ==> spec_classify(media_type, lower) == MediaKind::Insv360,
        !ends_with(lower, ".insv"@) && (ends_with(lower, ".insp"@) || ends_with(lower, ".jpg"@)
            || ends_with(lower, ".dng"@)) ==> spec_classify(media_type, lower) == MediaKind::Photo,
        !ends_with(lower, ".insv"@) && !ends_with(lower, ".insp"@) && !ends_with(lower, ".jpg"@)
            && !ends_with(lower, ".dng"@) && ends_with(lower, ".mp4"@) ==> spec_classify(
            media_type,
            lower,
        ) == MediaKind::FlatVideo,
        ({
            let no_ext = !ends_with(lower, ".insv"@) && !ends_with(lower, ".insp"@) && !ends_with(
                lower,
                ".jpg"@,
            ) && !ends_with(lower, ".dng"@) && !ends_with(lower, ".mp4"@);
            &&& no_ext && (media_type matches Some(t) && (contains(t, "photo"@) || contains(
                t,
                "image"@,
            ))) ==> spec_classify(media_type, lower) == MediaKind::Photo
            &&& no_ext && (media_type matches Some(t) && !contains(t, "photo"@) && !contains(
                t,
                "image"@,
            ) && contains(t, "video"@)) ==> spec_classify(media_type, lower)
                == MediaKind::FlatVideo
            &&& no_ext && (media_type matches Some(t) ==> !contains(t, "photo"@) && !contains(
                t,
                "image"@,
            ) && !contains(t, "video"@)) ==> spec_classify(media_type, lower) == MediaKind::Other
        }),
{
}

} // verus!
